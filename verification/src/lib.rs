//! Library for tailing cloud-infrastructure stack deployment events.
//!
//! The crate houses the event-tailing engine: status classification for
//! stack events, error classification for backend failures, nested-stack
//! discovery over a resource graph, per-stack paginated event collection
//! with dedup and watermark-based early exit, the cross-stack merge that
//! orders a fetch cycle, and the tail engine that renders events and
//! detects completion.

pub mod errors;
pub mod events;
pub mod fetch;
pub mod nested_stacks;
pub mod stack_status;
pub mod stacks;
pub mod tail;
pub mod text;
