//! Stack events: one reported change of one resource of one stack, and
//! the ordering discipline used when events from several stacks are
//! merged into a single batch.

use vstd::prelude::*;
use crate::text::{lex_le, str_lex_le, lemma_lex_le_total, lemma_lex_le_transitive,
    lemma_lex_le_antisymmetric, lemma_lex_le_reflexive};

verus! {

/// One reported change of one resource of one stack. Timestamps are
/// milliseconds since the Unix epoch; the timestamp is the authoritative
/// ordering key and `event_id` the intra-fetch dedup key and tie-breaker.
pub struct StackEvent {
    pub event_id: String,
    pub stack_name: String,
    pub logical_resource_id: Option<String>,
    pub resource_type: Option<String>,
    pub resource_status: String,
    pub resource_status_reason: Option<String>,
    pub timestamp: i64,
}

/// The mathematical image of a `StackEvent`: character sequences and an
/// unbounded integer timestamp.
pub ghost struct StackEventView {
    pub event_id: Seq<char>,
    pub stack_name: Seq<char>,
    pub logical_resource_id: Option<Seq<char>>,
    pub resource_type: Option<Seq<char>>,
    pub resource_status: Seq<char>,
    pub resource_status_reason: Option<Seq<char>>,
    pub timestamp: int,
}

pub open spec fn view_of_opt(o: Option<String>) -> Option<Seq<char>> {
    match o {
        Some(s) => Some(s@),
        None => None,
    }
}

impl View for StackEvent {
    type V = StackEventView;

    open spec fn view(&self) -> StackEventView {
        StackEventView {
            event_id: self.event_id@,
            stack_name: self.stack_name@,
            logical_resource_id: view_of_opt(self.logical_resource_id),
            resource_type: view_of_opt(self.resource_type),
            resource_status: self.resource_status@,
            resource_status_reason: view_of_opt(self.resource_status_reason),
            timestamp: self.timestamp as int,
        }
    }
}

fn clone_opt_string(o: &Option<String>) -> (r: Option<String>)
    ensures
        r == *o,
{
    match o {
        Some(s) => Some(s.clone()),
        None => None,
    }
}

impl Clone for StackEvent {
    fn clone(&self) -> (res: Self)
        ensures
            res == *self,
    {
        StackEvent {
            event_id: self.event_id.clone(),
            stack_name: self.stack_name.clone(),
            logical_resource_id: clone_opt_string(&self.logical_resource_id),
            resource_type: clone_opt_string(&self.resource_type),
            resource_status: self.resource_status.clone(),
            resource_status_reason: clone_opt_string(&self.resource_status_reason),
            timestamp: self.timestamp,
        }
    }
}

/// The merge order: ascending by timestamp, ties broken by event id, so
/// that a batch is reproducible for a fixed input set.
pub open spec fn event_le(a: StackEventView, b: StackEventView) -> bool {
    a.timestamp < b.timestamp || (a.timestamp == b.timestamp && lex_le(a.event_id, b.event_id))
}

/// A sequence of events in merge order.
pub open spec fn events_sorted(s: Seq<StackEvent>) -> bool {
    forall|i: int, j: int| 0 <= i <= j < s.len() ==> event_le(s[i]@, s[j]@)
}

/// No two positions carry the same (timestamp, event id) key.
pub open spec fn events_key_distinct(s: Seq<StackEvent>) -> bool {
    forall|i: int, j: int|
        0 <= i < j < s.len() ==> !(s[i]@.timestamp == s[j]@.timestamp && s[i]@.event_id
            == s[j]@.event_id)
}

/// Decides `event_le` on two events.
pub fn event_before(a: &StackEvent, b: &StackEvent) -> (r: bool)
    ensures
        r == event_le(a@, b@),
{
    if a.timestamp != b.timestamp {
        a.timestamp < b.timestamp
    } else {
        str_lex_le(a.event_id.as_str(), b.event_id.as_str())
    }
}

/// The merge order is reflexive.
pub proof fn lemma_event_le_reflexive(a: StackEventView)
    ensures
        event_le(a, a),
{
    lemma_lex_le_reflexive(a.event_id);
}

/// Any two events are comparable in the merge order.
pub proof fn lemma_event_le_total(a: StackEventView, b: StackEventView)
    ensures
        event_le(a, b) || event_le(b, a),
{
    if a.timestamp == b.timestamp {
        lemma_lex_le_total(a.event_id, b.event_id);
    }
}

/// The merge order is transitive.
pub proof fn lemma_event_le_transitive(a: StackEventView, b: StackEventView, c: StackEventView)
    requires
        event_le(a, b),
        event_le(b, c),
    ensures
        event_le(a, c),
{
    if a.timestamp == b.timestamp && b.timestamp == c.timestamp {
        lemma_lex_le_transitive(a.event_id, b.event_id, c.event_id);
    }
}

/// Events ordered both ways share their (timestamp, event id) key.
pub proof fn lemma_event_le_antisymmetric(a: StackEventView, b: StackEventView)
    requires
        event_le(a, b),
        event_le(b, a),
    ensures
        a.timestamp == b.timestamp,
        a.event_id == b.event_id,
{
    lemma_lex_le_antisymmetric(a.event_id, b.event_id);
}

/// Sorting is deterministic: two batches in merge order that hold the
/// same events, with no two events sharing a (timestamp, event id) key,
/// are the same batch. Together with the aggregator's contract this
/// makes a fetch cycle's output reproducible for a fixed input set.
pub proof fn lemma_sorted_unique(s: Seq<StackEvent>, t: Seq<StackEvent>)
    requires
        events_sorted(s),
        events_sorted(t),
        events_key_distinct(s),
        events_key_distinct(t),
        s.to_multiset() == t.to_multiset(),
    ensures
        s == t,
    decreases s.len(),
{
    broadcast use vstd::seq_lib::group_to_multiset_ensures;

    assert(s.len() == s.to_multiset().len());
    assert(t.len() == t.to_multiset().len());
    if s.len() == 0 {
        assert(s =~= t);
    } else {
        assert(s.contains(s[0]));
        assert(s.to_multiset().count(s[0]) > 0);
        assert(t.to_multiset().count(s[0]) > 0);
        assert(t.contains(s[0]));
        let k = choose|k: int| 0 <= k < t.len() && t[k] == s[0];
        assert(t.contains(t[0]));
        assert(t.to_multiset().count(t[0]) > 0);
        assert(s.to_multiset().count(t[0]) > 0);
        assert(s.contains(t[0]));
        let m = choose|m: int| 0 <= m < s.len() && s[m] == t[0];
        assert(event_le(t[0]@, t[k]@));
        assert(event_le(s[0]@, s[m]@));
        lemma_event_le_antisymmetric(s[0]@, t[0]@);
        if k != 0 {
            assert(t[0]@.timestamp == t[k]@.timestamp && t[0]@.event_id == t[k]@.event_id);
            assert(false);
        }
        assert(t[0] == s[0]);
        let s1 = s.drop_first();
        let t1 = t.drop_first();
        assert(s.remove(0) =~= s1);
        assert(t.remove(0) =~= t1);
        assert(s1.to_multiset() == s.to_multiset().remove(s[0]));
        assert(t1.to_multiset() == t.to_multiset().remove(t[0]));
        assert(s1.to_multiset() == t1.to_multiset());
        assert(events_sorted(s1) && events_key_distinct(s1)) by {
            assert(forall|i: int| 0 <= i < s1.len() ==> s1[i] == s[i + 1]);
        }
        assert(events_sorted(t1) && events_key_distinct(t1)) by {
            assert(forall|i: int| 0 <= i < t1.len() ==> t1[i] == t[i + 1]);
        }
        lemma_sorted_unique(s1, t1);
        assert(s =~= t) by {
            assert(forall|i: int| 1 <= i < s.len() ==> s[i] == s1[i - 1] && t[i] == t1[i - 1]);
        }
    }
}

} // verus!
