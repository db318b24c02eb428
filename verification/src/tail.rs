//! The tail engine: the watermark, the rendering decisions for each
//! event of a batch, and the completion check that ends the run once a
//! stack the user asked about reaches a terminal success status.
//!
//! The engine is fed already-merged batches (see `fetch`): one batch
//! for the initial catch-up pass, then one per poll cycle. For every
//! event it produces a render plan the presenter executes, advances the
//! watermark to the newest timestamp delivered, and after a poll batch
//! decides whether polling is over.

use vstd::prelude::*;
use vstd::string::StringExecFns;
use crate::errors::TailError;
use crate::events::{StackEvent, events_sorted, event_le};
use crate::stack_status::{StackStatus, StatusCategory, status_of};
use crate::stacks::{StackInfo, seq_contains_name};

verus! {

/// Immutable per-run configuration: the watch set, the initial
/// watermark, and the display toggles.
pub struct TailConfig {
    pub stack_info: StackInfo,
    pub since: i64,
    pub show_separators: bool,
    pub show_notifications: bool,
    pub show_outputs: bool,
    pub show_resource_types: bool,
    pub sound: String,
}

/// The engine's progress: constructed, in the initial catch-up pass,
/// polling, or finished.
#[derive(Debug, Clone, Copy, PartialEq, Eq, Structural)]
pub enum Phase {
    Idle,
    Prefetching,
    Tailing,
    Done,
}

/// Everything the presenter needs to render one event, decided by the
/// engine: the fields to print, the highlight and color choices, and
/// which follow-up renderings (outputs, separator, notification) this
/// event triggers.
#[derive(Debug)]
pub struct RenderedEvent {
    /// The event's time, milliseconds since the Unix epoch.
    pub timestamp: i64,
    /// The owning stack.
    pub stack_name: String,
    /// The resource's logical name, when the backend reported one.
    pub resource_name: Option<String>,
    /// The resource's type, when the backend reported one.
    pub resource_type: Option<String>,
    /// The raw status string, printed as received.
    pub status: String,
    /// The color category of the status.
    pub category: StatusCategory,
    /// The backend's reason text, if any.
    pub status_reason: Option<String>,
    /// The event belongs to a stack the user asked about: its name is
    /// highlighted.
    pub highlight: bool,
    /// A stack the user asked about finished successfully and no reason
    /// text displaced the celebratory line.
    pub celebrate: bool,
    /// Render this stack's outputs after the line.
    pub fetch_outputs_for: Option<String>,
    /// Render a separator after the line.
    pub print_separator: bool,
    /// Raise a desktop notification after the line.
    pub notify: bool,
    /// The event makes the run complete after its batch.
    pub is_completion: bool,
}

/// An event of an original stack whose status is terminal success: the
/// run is done once its batch is fully rendered.
pub open spec fn spec_is_completion(e: StackEvent, originals: Seq<String>) -> bool {
    match status_of(e@.resource_status) {
        Some(st) => st.spec_is_complete() && seq_contains_name(originals, e@.stack_name),
        None => false,
    }
}

/// Some event of the batch completes the run.
pub open spec fn batch_completes(evs: Seq<StackEvent>, originals: Seq<String>) -> bool {
    exists|i: int| 0 <= i < evs.len() && spec_is_completion(evs[i], originals)
}

/// Every status string of the batch maps to a status variant.
pub open spec fn all_statuses_mapped(evs: Seq<StackEvent>) -> bool {
    forall|i: int| 0 <= i < evs.len() ==> status_of((#[trigger] evs[i])@.resource_status) is Some
}

/// The index of the first event whose status string maps to no variant.
pub open spec fn first_unmapped(evs: Seq<StackEvent>) -> int
    decreases evs.len(),
{
    if evs.len() == 0 {
        0
    } else if status_of(evs[0]@.resource_status) is None {
        0
    } else {
        1 + first_unmapped(evs.drop_first())
    }
}

/// The watermark after delivering `evs` on top of watermark `w`: the
/// largest timestamp seen, and never less than `w`.
pub open spec fn fold_max_ts(w: int, evs: Seq<StackEvent>) -> int
    decreases evs.len(),
{
    if evs.len() == 0 {
        w
    } else {
        let m = fold_max_ts(w, evs.drop_last());
        if evs.last()@.timestamp > m {
            evs.last()@.timestamp
        } else {
            m
        }
    }
}

/// What the engine decides for one event: `re` is the plan for `e`
/// under the original-stack set `originals`, the toggles of `cfg`, and
/// whether the engine is in its polling phase (`tailing`).
pub open spec fn render_matches(
    re: RenderedEvent,
    e: StackEvent,
    originals: Seq<String>,
    cfg: TailConfig,
    tailing: bool,
) -> bool {
    let is_original = seq_contains_name(originals, e@.stack_name);
    let st = status_of(e@.resource_status).unwrap();
    let completion = is_original && st.spec_is_complete();
    let celebrate = completion && e.resource_status_reason is None;
    &&& re.timestamp == e.timestamp
    &&& re.stack_name@ == e@.stack_name
    &&& crate::events::view_of_opt(re.resource_name) == e@.logical_resource_id
    &&& crate::events::view_of_opt(re.resource_type) == e@.resource_type
    &&& re.status@ == e@.resource_status
    &&& re.category == st.spec_category()
    &&& crate::events::view_of_opt(re.status_reason) == e@.resource_status_reason
    &&& re.highlight == is_original
    &&& re.celebrate == celebrate
    &&& re.fetch_outputs_for == (if celebrate && cfg.show_outputs {
        Some(re.stack_name)
    } else {
        None::<String>
    })
    &&& re.print_separator == (celebrate && cfg.show_separators)
    &&& re.notify == (celebrate && cfg.show_notifications && tailing)
    &&& re.is_completion == completion
}

/// The plans `r` are the engine's decisions for the batch `evs`, one
/// per event, in batch order.
pub open spec fn renders_of(
    r: Seq<RenderedEvent>,
    evs: Seq<StackEvent>,
    originals: Seq<String>,
    cfg: TailConfig,
    tailing: bool,
) -> bool {
    &&& r.len() == evs.len()
    &&& forall|i: int|
        0 <= i < evs.len() ==> render_matches(#[trigger] r[i], evs[i], originals, cfg, tailing)
}

fn clone_opt_string(o: &Option<String>) -> (r: Option<String>)
    ensures
        r == *o,
{
    match o {
        Some(s) => Some(s.clone()),
        None => None,
    }
}

/// Checks that every status string of the batch is mapped; the first
/// unmapped one is a fatal `UnmappedStatus` error, never ignored.
fn check_statuses(events: &Vec<StackEvent>) -> (r: Result<(), TailError>)
    ensures
        r is Ok ==> all_statuses_mapped(events@),
        r is Err ==> !all_statuses_mapped(events@) && r == Err::<(), TailError>(
            TailError::UnmappedStatus(events@[first_unmapped(events@)].resource_status),
        ),
{
    let mut k: usize = 0;
    loop
        invariant
            0 <= k <= events.len(),
            forall|i: int|
                0 <= i < k ==> status_of((#[trigger] events@[i])@.resource_status) is Some,
        ensures
            all_statuses_mapped(events@),
        decreases events.len() - k,
    {
        if k >= events.len() {
            break;
        }
        match StackStatus::parse(events[k].resource_status.as_str()) {
            Ok(_) => {},
            Err(e) => {
                proof {
                    lemma_first_unmapped(events@, k as int);
                }
                return Err(TailError::UnmappedStatus(events[k].resource_status.clone()));
            },
        }
        k = k + 1;
    }
    Ok(())
}

/// When the statuses before `k` are mapped and `k`'s is not, `k` is the
/// first unmapped index.
proof fn lemma_first_unmapped(evs: Seq<StackEvent>, k: int)
    requires
        0 <= k < evs.len(),
        forall|i: int| 0 <= i < k ==> status_of((#[trigger] evs[i])@.resource_status) is Some,
        status_of(evs[k]@.resource_status) is None,
    ensures
        first_unmapped(evs) == k,
    decreases k,
{
    if k > 0 {
        assert(forall|i: int|
            0 <= i < k - 1 ==> evs.drop_first()[i] == evs[i + 1]);
        lemma_first_unmapped(evs.drop_first(), k - 1);
    }
}

/// Decides the render plan for one event whose status is mapped.
fn render_event(e: &StackEvent, config: &TailConfig, tailing: bool) -> (re: RenderedEvent)
    requires
        status_of(e@.resource_status) is Some,
    ensures
        render_matches(re, *e, config.stack_info.original_names@, *config, tailing),
{
    let st = match StackStatus::parse(e.resource_status.as_str()) {
        Ok(st) => st,
        Err(_) => vstd::pervasive::unreached(),
    };
    let is_original = crate::stacks::contains_name(
        &config.stack_info.original_names,
        e.stack_name.as_str(),
    );
    let completion = is_original && st.is_complete();
    let celebrate = completion && e.resource_status_reason.is_none();
    let stack_name = e.stack_name.clone();
    let fetch_outputs_for: Option<String> = if celebrate && config.show_outputs {
        Some(stack_name.clone())
    } else {
        None
    };
    RenderedEvent {
        timestamp: e.timestamp,
        stack_name,
        resource_name: clone_opt_string(&e.logical_resource_id),
        resource_type: clone_opt_string(&e.resource_type),
        status: e.resource_status.clone(),
        category: st.category(),
        status_reason: clone_opt_string(&e.resource_status_reason),
        highlight: is_original,
        celebrate,
        fetch_outputs_for,
        print_separator: celebrate && config.show_separators,
        notify: celebrate && config.show_notifications && tailing,
        is_completion: completion,
    }
}

/// The tail engine. It owns the watermark: the highest event time fully
/// delivered to the presenter, advanced monotonically and never moved
/// backward, even when a batch arrives with mixed timestamps.
pub struct Engine {
    pub config: TailConfig,
    pub watermark: i64,
    pub phase: Phase,
}

impl Engine {
    /// A fresh engine: not started, watermark at the configured start.
    pub fn new(config: TailConfig) -> (r: Engine)
        ensures
            r.phase is Idle,
            r.watermark == config.since,
            r.config == config,
    {
        let since = config.since;
        Engine { config, watermark: since, phase: Phase::Idle }
    }

    /// The run is over.
    pub fn is_done(&self) -> (r: bool)
        ensures
            r == (self.phase is Done),
    {
        match self.phase {
            Phase::Done => true,
            _ => false,
        }
    }

    /// Whether a fetch error ends this engine's run: an expired
    /// credential must surface so the owning process can rebuild the
    /// client; every other classified error is logged and the poll loop
    /// continues after its usual pause.
    pub fn error_escalates(e: &TailError) -> (r: bool)
        ensures
            r == (e is CredentialsExpired),
    {
        match e {
            TailError::CredentialsExpired => true,
            _ => false,
        }
    }

    /// Renders one batch: decides the plan of every event in batch
    /// order and advances the watermark to the newest timestamp seen,
    /// never backward. An unmapped status leaves the engine untouched
    /// and surfaces as the fatal error it is.
    fn apply_batch(&mut self, events: &Vec<StackEvent>, tailing: bool) -> (r: Result<
        Vec<RenderedEvent>,
        TailError,
    >)
        ensures
            final(self).config == old(self).config,
            final(self).phase == old(self).phase,
            r is Ok ==> all_statuses_mapped(events@) && renders_of(
                r.unwrap()@,
                events@,
                old(self).config.stack_info.original_names@,
                old(self).config,
                tailing,
            ) && final(self).watermark as int == fold_max_ts(old(self).watermark as int, events@),
            r is Err ==> !all_statuses_mapped(events@) && r == Err::<Vec<RenderedEvent>, TailError>(
                TailError::UnmappedStatus(events@[first_unmapped(events@)].resource_status),
            ) && final(self).watermark == old(self).watermark,
    {
        match check_statuses(events) {
            Ok(_) => {},
            Err(e) => {
                return Err(e);
            },
        }
        let mut plans: Vec<RenderedEvent> = Vec::new();
        let mut k: usize = 0;
        loop
            invariant
                0 <= k <= events.len(),
                all_statuses_mapped(events@),
                self.config == old(self).config,
                self.phase == old(self).phase,
                plans@.len() == k,
                forall|i: int|
                    0 <= i < k ==> render_matches(
                        #[trigger] plans@[i],
                        events@[i],
                        old(self).config.stack_info.original_names@,
                        old(self).config,
                        tailing,
                    ),
                self.watermark as int == fold_max_ts(
                    old(self).watermark as int,
                    events@.take(k as int),
                ),
            ensures
                self.config == old(self).config,
                self.phase == old(self).phase,
                renders_of(
                    plans@,
                    events@,
                    old(self).config.stack_info.original_names@,
                    old(self).config,
                    tailing,
                ),
                self.watermark as int == fold_max_ts(old(self).watermark as int, events@),
            decreases events.len() - k,
        {
            if k >= events.len() {
                proof {
                    assert(events@.take(events@.len() as int) =~= events@);
                }
                break;
            }
            let e = &events[k];
            let plan = render_event(e, &self.config, tailing);
            plans.push(plan);
            if e.timestamp > self.watermark {
                self.watermark = e.timestamp;
            }
            proof {
                assert(events@.take(k + 1 as int).drop_last() =~= events@.take(k as int));
                assert(events@.take(k + 1 as int).last() == events@[k as int]);
            }
            k = k + 1;
        }
        Ok(plans)
    }

    /// The initial catch-up pass: drains the one batch of historical
    /// events fetched from the configured start, renders each in order,
    /// and leaves the watermark at the newest time seen. The engine then
    /// polls.
    pub fn prefetch_batch(&mut self, events: &Vec<StackEvent>) -> (r: Result<
        Vec<RenderedEvent>,
        TailError,
    >)
        requires
            old(self).phase is Idle,
        ensures
            final(self).config == old(self).config,
            r is Ok ==> all_statuses_mapped(events@) && renders_of(
                r.unwrap()@,
                events@,
                old(self).config.stack_info.original_names@,
                old(self).config,
                false,
            ) && final(self).watermark as int == fold_max_ts(old(self).watermark as int, events@)
                && final(self).phase is Tailing,
            r is Err ==> !all_statuses_mapped(events@) && r == Err::<Vec<RenderedEvent>, TailError>(
                TailError::UnmappedStatus(events@[first_unmapped(events@)].resource_status),
            ) && final(self).watermark == old(self).watermark && final(self).phase
                == old(self).phase,
    {
        self.phase = Phase::Prefetching;
        match self.apply_batch(events, false) {
            Ok(plans) => {
                self.phase = Phase::Tailing;
                Ok(plans)
            },
            Err(e) => {
                self.phase = Phase::Idle;
                Err(e)
            },
        }
    }

    /// One poll cycle's batch: renders each event in order, advances
    /// the watermark, and — once the whole batch is rendered — ends the
    /// run if any rendered event belonged to a stack the user asked
    /// about and carried a terminal success status.
    pub fn poll_batch(&mut self, events: &Vec<StackEvent>) -> (r: Result<
        Vec<RenderedEvent>,
        TailError,
    >)
        requires
            old(self).phase is Tailing,
        ensures
            final(self).config == old(self).config,
            r is Ok ==> all_statuses_mapped(events@) && renders_of(
                r.unwrap()@,
                events@,
                old(self).config.stack_info.original_names@,
                old(self).config,
                true,
            ) && final(self).watermark as int == fold_max_ts(old(self).watermark as int, events@)
                && final(self).phase == (if batch_completes(
                events@,
                old(self).config.stack_info.original_names@,
            ) {
                Phase::Done
            } else {
                Phase::Tailing
            }),
            r is Err ==> !all_statuses_mapped(events@) && r == Err::<Vec<RenderedEvent>, TailError>(
                TailError::UnmappedStatus(events@[first_unmapped(events@)].resource_status),
            ) && final(self).watermark == old(self).watermark && final(self).phase
                == old(self).phase,
    {
        let plans = match self.apply_batch(events, true) {
            Ok(plans) => plans,
            Err(e) => {
                return Err(e);
            },
        };
        let mut done = false;
        let mut k: usize = 0;
        loop
            invariant
                0 <= k <= plans.len(),
                plans@.len() == events@.len(),
                all_statuses_mapped(events@),
                renders_of(
                    plans@,
                    events@,
                    self.config.stack_info.original_names@,
                    self.config,
                    true,
                ),
                done == (exists|i: int|
                    0 <= i < k && spec_is_completion(
                        events@[i],
                        self.config.stack_info.original_names@,
                    )),
            ensures
                done == batch_completes(events@, self.config.stack_info.original_names@),
            decreases plans.len() - k,
        {
            if k >= plans.len() {
                break;
            }
            if plans[k].is_completion {
                proof {
                    assert(render_matches(
                        plans@[k as int],
                        events@[k as int],
                        self.config.stack_info.original_names@,
                        self.config,
                        true,
                    ));
                    assert(spec_is_completion(
                        events@[k as int],
                        self.config.stack_info.original_names@,
                    ));
                }
                done = true;
            }
            proof {
                if !plans@[k as int].is_completion {
                    assert(!spec_is_completion(
                        events@[k as int],
                        self.config.stack_info.original_names@,
                    ));
                }
            }
            k = k + 1;
        }
        if done {
            self.phase = Phase::Done;
        }
        Ok(plans)
    }
}


/// The presenter sees each batch in batch order: one plan per event,
/// in order, so a batch in merge order is rendered in non-decreasing
/// timestamp order.
pub proof fn lemma_plans_follow_batch_order(
    r: Seq<RenderedEvent>,
    evs: Seq<StackEvent>,
    originals: Seq<String>,
    cfg: TailConfig,
    tailing: bool,
)
    requires
        renders_of(r, evs, originals, cfg, tailing),
        events_sorted(evs),
    ensures
        forall|i: int, j: int|
            0 <= i <= j < r.len() ==> (#[trigger] r[i]).timestamp <= (#[trigger] r[j]).timestamp,
{
    assert forall|i: int, j: int|
        0 <= i <= j < r.len() implies (#[trigger] r[i]).timestamp <= (
    #[trigger] r[j]).timestamp by {
        assert(render_matches(r[i], evs[i], originals, cfg, tailing));
        assert(render_matches(r[j], evs[j], originals, cfg, tailing));
        assert(event_le(evs[i]@, evs[j]@));
    }
}

/// The watermark after one batch: it never regresses, it reaches at
/// least every timestamp delivered, and it advances to at most the true
/// maximum of the batch — whatever order the batch arrived in.
pub proof fn lemma_watermark_monotonic(w: int, evs: Seq<StackEvent>)
    ensures
        fold_max_ts(w, evs) >= w,
        forall|i: int| 0 <= i < evs.len() ==> fold_max_ts(w, evs) >= (#[trigger] evs[i])@.timestamp,
        fold_max_ts(w, evs) == w || exists|i: int|
            0 <= i < evs.len() && fold_max_ts(w, evs) == evs[i]@.timestamp,
    decreases evs.len(),
{
    if evs.len() > 0 {
        lemma_watermark_monotonic(w, evs.drop_last());
        assert(forall|i: int| 0 <= i < evs.len() - 1 ==> evs.drop_last()[i] == evs[i]);
        if fold_max_ts(w, evs) != w {
            if evs.last()@.timestamp > fold_max_ts(w, evs.drop_last()) {
                assert(fold_max_ts(w, evs) == evs[evs.len() - 1]@.timestamp);
            } else {
                let i = choose|i: int|
                    0 <= i < evs.drop_last().len() && fold_max_ts(w, evs.drop_last())
                        == evs.drop_last()[i]@.timestamp;
                assert(fold_max_ts(w, evs) == evs[i]@.timestamp);
            }
        }
    }
}

/// All of a run's rendered events, cycle after cycle.
pub open spec fn concat_batches(batches: Seq<Seq<StackEvent>>) -> Seq<StackEvent>
    decreases batches.len(),
{
    if batches.len() == 0 {
        Seq::empty()
    } else {
        concat_batches(batches.drop_last()) + batches.last()
    }
}

/// The watermark after a run of batches starting at `w0`.
pub open spec fn watermark_after(w0: int, batches: Seq<Seq<StackEvent>>) -> int
    decreases batches.len(),
{
    if batches.len() == 0 {
        w0
    } else {
        fold_max_ts(watermark_after(w0, batches.drop_last()), batches.last())
    }
}

/// The fetch discipline of a run: every event of each cycle's batch is
/// newer than the watermark at that cycle's start. This is exactly what
/// the per-stack fetch guarantees, since it collects nothing at or
/// below the watermark it was started from.
pub open spec fn cycles_fresh(w0: int, batches: Seq<Seq<StackEvent>>) -> bool {
    forall|k: int, i: int|
        0 <= k < batches.len() && 0 <= i < batches[k].len() ==> (#[trigger] batches[k][i])@.timestamp
            > watermark_after(w0, batches.take(k))
}

/// The watermark never falls while a run proceeds.
proof fn lemma_watermark_after_grows(w0: int, batches: Seq<Seq<StackEvent>>, a: int, b: int)
    requires
        0 <= a <= b <= batches.len(),
    ensures
        watermark_after(w0, batches.take(a)) <= watermark_after(w0, batches.take(b)),
    decreases b - a,
{
    if a < b {
        lemma_watermark_after_grows(w0, batches, a, b - 1);
        let p = batches.take(b - 1);
        assert(batches.take(b).drop_last() =~= p);
        lemma_watermark_monotonic(watermark_after(w0, p), batches.take(b).last());
    }
}

/// Every event rendered by a run sits at or below the run's watermark.
proof fn lemma_rendered_below_watermark(w0: int, batches: Seq<Seq<StackEvent>>)
    ensures
        forall|i: int|
            0 <= i < concat_batches(batches).len() ==> (#[trigger] concat_batches(
                batches,
            )[i])@.timestamp <= watermark_after(w0, batches),
    decreases batches.len(),
{
    if batches.len() > 0 {
        let p = batches.drop_last();
        let b = batches.last();
        lemma_rendered_below_watermark(w0, p);
        lemma_watermark_monotonic(watermark_after(w0, p), b);
        assert forall|i: int|
            0 <= i < concat_batches(batches).len() implies (#[trigger] concat_batches(
            batches,
        )[i])@.timestamp <= watermark_after(w0, batches) by {
            if i < concat_batches(p).len() {
                assert(concat_batches(batches)[i] == concat_batches(p)[i]);
            } else {
                assert(concat_batches(batches)[i] == b[i - concat_batches(p).len()]);
            }
        }
    }
}

/// Render order: when every cycle's batch is in merge order and every
/// cycle only delivers events newer than the watermark at its start,
/// the run as a whole renders events in non-decreasing timestamp order
/// — across the catch-up pass and every poll cycle.
pub proof fn lemma_renders_ordered(w0: int, batches: Seq<Seq<StackEvent>>)
    requires
        forall|k: int| 0 <= k < batches.len() ==> events_sorted(#[trigger] batches[k]),
        cycles_fresh(w0, batches),
    ensures
        events_sorted(concat_batches(batches)),
    decreases batches.len(),
{
    if batches.len() > 0 {
        let p = batches.drop_last();
        let b = batches.last();
        let last = batches.len() - 1;
        assert(forall|k: int| 0 <= k < p.len() ==> p[k] == batches[k]);
        assert forall|k: int, i: int|
            0 <= k < p.len() && 0 <= i < p[k].len() implies (#[trigger] p[k][i])@.timestamp
            > watermark_after(w0, p.take(k)) by {
            assert(p.take(k) =~= batches.take(k));
            assert(batches[k][i]@.timestamp > watermark_after(w0, batches.take(k)));
        }
        lemma_renders_ordered(w0, p);
        lemma_rendered_below_watermark(w0, p);
        assert(batches.take(last) =~= p);
        assert forall|i: int, j: int|
            0 <= i <= j < concat_batches(batches).len() implies event_le(
            concat_batches(batches)[i]@,
            concat_batches(batches)[j]@,
        ) by {
            let n = concat_batches(p).len();
            if j < n {
                assert(concat_batches(batches)[i] == concat_batches(p)[i]);
                assert(concat_batches(batches)[j] == concat_batches(p)[j]);
                assert(event_le(concat_batches(p)[i]@, concat_batches(p)[j]@));
            } else if i >= n {
                assert(concat_batches(batches)[i] == b[i - n]);
                assert(concat_batches(batches)[j] == b[j - n]);
                assert(event_le(b[i - n]@, b[j - n]@));
            } else {
                assert(concat_batches(batches)[i] == concat_batches(p)[i]);
                assert(concat_batches(batches)[j] == b[j - n]);
                assert(concat_batches(p)[i]@.timestamp <= watermark_after(w0, p));
                assert(b[j - n]@.timestamp > watermark_after(w0, batches.take(last)));
            }
        }
    }
}

/// At-most-once delivery: an event rendered in one cycle is never
/// rendered by a later cycle, because it sits at or below the watermark
/// from its own cycle on, and later cycles deliver only events above
/// the watermark.
pub proof fn lemma_at_most_once(
    w0: int,
    batches: Seq<Seq<StackEvent>>,
    j: int,
    k: int,
    e: StackEvent,
)
    requires
        cycles_fresh(w0, batches),
        0 <= j < k < batches.len(),
        batches[j].contains(e),
    ensures
        !batches[k].contains(e),
{
    let pj = batches.take(j + 1);
    lemma_rendered_below_watermark(w0, pj);
    let i = choose|i: int| 0 <= i < batches[j].len() && batches[j][i] == e;
    assert(pj.drop_last() =~= batches.take(j));
    assert(pj.last() == batches[j]);
    let n = concat_batches(batches.take(j)).len();
    assert(concat_batches(pj)[n + i] == batches[j][i]);
    assert(e@.timestamp <= watermark_after(w0, pj));
    lemma_watermark_after_grows(w0, batches, j + 1, k);
    if batches[k].contains(e) {
        let m = choose|m: int| 0 <= m < batches[k].len() && batches[k][m] == e;
        assert(batches[k][m]@.timestamp > watermark_after(w0, batches.take(k)));
        assert(e@.timestamp > watermark_after(w0, batches.take(k)));
    }
}

/// A full-width separator line of the given width.
pub fn separator_line(width: usize) -> (s: String)
    ensures
        s@.len() == width,
        forall|i: int| 0 <= i < width ==> s@[i] == '-',
{
    let mut s = String::new();
    let mut k: usize = 0;
    loop
        invariant
            0 <= k <= width,
            s@.len() == k,
            forall|i: int| 0 <= i < k ==> s@[i] == '-',
        ensures
            s@.len() == width,
            forall|i: int| 0 <= i < width ==> s@[i] == '-',
        decreases width - k,
    {
        if k >= width {
            break;
        }
        s.append("-");
        proof {
            reveal_strlit("-");
        }
        k = k + 1;
    }
    s
}

/// Relies on notify_rust's `Notification::show` to deliver a desktop
/// notification that the deploy finished, with `sound` as the sound
/// hint. Whether a notification can be delivered depends on the desktop
/// environment, so nothing is promised of the outcome; the result only
/// reports whether delivery was accepted.
#[verifier::external_body]
pub fn notify(sound: &str) -> (r: bool) {
    notify_rust::Notification::new()
        .summary("Deploy finished")
        .body("deploy finished")
        .appname("cftail")
        .sound_name(sound)
        .show()
        .is_ok()
}

} // verus!
