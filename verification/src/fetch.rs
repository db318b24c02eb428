//! Per-stack paginated event collection and the cross-stack merge.
//!
//! One `StackFetch` runs per watched stack and cycle: it consumes the
//! pages a caller fetches (newest events first), skips event ids it has
//! already seen in this fetch, and stops as soon as it meets an event no
//! newer than the watermark or the backend signals no further pages.
//! `combine_results` then joins the per-stack outcomes: a fatal error
//! surfaces, retryable errors only cost their stack's batch, and the
//! kept events are merged into one batch in merge order.

use vstd::prelude::*;
use vstd::multiset::Multiset;
use crate::errors::TailError;
use crate::events::{StackEvent, event_before, event_le, events_sorted, lemma_event_le_total,
    lemma_event_le_transitive, lemma_event_le_reflexive};
use crate::stacks::{contains_name, lemma_push_membership, seq_contains_name};

verus! {

/// Some collected event carries the id `m`.
pub open spec fn event_ids_contain(evs: Seq<StackEvent>, m: Seq<char>) -> bool {
    exists|i: int| 0 <= i < evs.len() && evs[i]@.event_id == m
}

/// Appending one event adds exactly its id to the collected ids.
proof fn lemma_events_push_membership(evs: Seq<StackEvent>, e: StackEvent)
    ensures
        forall|m: Seq<char>|
            event_ids_contain(evs.push(e), m) == (event_ids_contain(evs, m) || m == e@.event_id),
{
    assert forall|m: Seq<char>|
        event_ids_contain(evs.push(e), m) implies (event_ids_contain(evs, m) || m
        == e@.event_id) by {
        let i = choose|i: int| 0 <= i < evs.push(e).len() && evs.push(e)[i]@.event_id == m;
        if i < evs.len() {
            assert(evs[i]@.event_id == m);
        } else {
            assert(evs.push(e)[i] == e);
        }
    }
    assert forall|m: Seq<char>|
        (event_ids_contain(evs, m) || m == e@.event_id) implies event_ids_contain(
        evs.push(e),
        m,
    ) by {
        if event_ids_contain(evs, m) {
            let i = choose|i: int| 0 <= i < evs.len() && evs[i]@.event_id == m;
            assert(evs.push(e)[i]@.event_id == m);
        } else {
            assert(evs.push(e)[evs.len() as int]@.event_id == m);
        }
    }
}

/// What one page contributes to a fetch: its events in page order, up
/// to but not including the first one no newer than `since`, minus those
/// whose id is already in `seen`; each kept event's id joins `seen` for
/// the rest of the page.
pub open spec fn page_take(page: Seq<StackEvent>, since: int, seen: Seq<String>) -> Seq<StackEvent>
    decreases page.len(),
{
    if page.len() == 0 {
        Seq::empty()
    } else if page[0]@.timestamp <= since {
        Seq::empty()
    } else if seq_contains_name(seen, page[0]@.event_id) {
        page_take(page.drop_first(), since, seen)
    } else {
        seq![page[0]] + page_take(page.drop_first(), since, seen.push(page[0].event_id))
    }
}

/// A page ends the walk when it holds an event no newer than `since`:
/// pages arrive newest first, so everything after that event was
/// already delivered.
pub open spec fn page_stops(page: Seq<StackEvent>, since: int) -> bool {
    exists|i: int| 0 <= i < page.len() && page[i]@.timestamp <= since
}

/// Everything a page contributes is newer than `since`.
pub proof fn lemma_page_take_fresh(page: Seq<StackEvent>, since: int, seen: Seq<String>)
    ensures
        forall|i: int|
            0 <= i < page_take(page, since, seen).len() ==> (#[trigger] page_take(
                page,
                since,
                seen,
            )[i])@.timestamp > since,
    decreases page.len(),
{
    if page.len() == 0 || page[0]@.timestamp <= since {
    } else if seq_contains_name(seen, page[0]@.event_id) {
        lemma_page_take_fresh(page.drop_first(), since, seen);
    } else {
        lemma_page_take_fresh(page.drop_first(), since, seen.push(page[0].event_id));
        assert(forall|i: int|
            1 <= i < page_take(page, since, seen).len() ==> page_take(page, since, seen)[i]
                == page_take(page.drop_first(), since, seen.push(page[0].event_id))[i - 1]);
    }
}

/// An event already delivered (no newer than `since`) is never
/// collected again by a fetch that starts at `since`.
pub proof fn lemma_stale_event_not_taken(
    page: Seq<StackEvent>,
    since: int,
    seen: Seq<String>,
    e: StackEvent,
)
    requires
        e@.timestamp <= since,
    ensures
        !page_take(page, since, seen).contains(e),
{
    lemma_page_take_fresh(page, since, seen);
    if page_take(page, since, seen).contains(e) {
        let i = choose|i: int|
            0 <= i < page_take(page, since, seen).len() && page_take(page, since, seen)[i] == e;
        assert(page_take(page, since, seen)[i]@.timestamp > since);
    }
}

/// One stack's event collection within one fetch cycle.
pub struct StackFetch {
    pub stack_name: String,
    pub since: i64,
    pub seen: Vec<String>,
    pub events: Vec<StackEvent>,
    pub finished: bool,
}

impl StackFetch {
    /// Every collected event is newer than `since`, no two collected
    /// events share an id, and `seen` holds exactly the collected ids.
    pub open spec fn wf(&self) -> bool {
        &&& forall|i: int|
            0 <= i < self.events@.len() ==> (#[trigger] self.events@[i])@.timestamp
                > self.since as int
        &&& forall|i: int, j: int|
            0 <= i < j < self.events@.len() ==> self.events@[i]@.event_id
                != self.events@[j]@.event_id
        &&& forall|m: Seq<char>|
            seq_contains_name(self.seen@, m) == event_ids_contain(self.events@, m)
    }

    /// Starts collecting events of `stack_name` newer than `since`.
    pub fn new(stack_name: &String, since: i64) -> (r: StackFetch)
        ensures
            r.wf(),
            r.stack_name == *stack_name,
            r.since == since,
            r.events@ =~= Seq::<StackEvent>::empty(),
            r.seen@ =~= Seq::<String>::empty(),
            !r.finished,
    {
        StackFetch {
            stack_name: stack_name.clone(),
            since,
            seen: Vec::new(),
            events: Vec::new(),
            finished: false,
        }
    }

    /// Whether the caller should fetch another page.
    pub fn wants_more(&self) -> (r: bool)
        ensures
            r == !self.finished,
    {
        !self.finished
    }

    /// Consumes one fetched page (newest events first) together with the
    /// backend's word on whether a further page exists. The page's fresh,
    /// unseen events join the collection in page order; the fetch
    /// finishes when the page reaches an already-delivered event or no
    /// further page exists.
    pub fn consume_page(&mut self, page: &Vec<StackEvent>, has_next: bool)
        requires
            old(self).wf(),
            !old(self).finished,
        ensures
            final(self).wf(),
            final(self).stack_name == old(self).stack_name,
            final(self).since == old(self).since,
            final(self).events@ == old(self).events@ + page_take(
                page@,
                old(self).since as int,
                old(self).seen@,
            ),
            final(self).finished == (page_stops(page@, old(self).since as int) || !has_next),
    {
        let ghost full = old(self).events@ + page_take(
            page@,
            old(self).since as int,
            old(self).seen@,
        );
        let since = self.since;
        proof {
            assert(page@.skip(0) =~= page@);
        }
        let mut k: usize = 0;
        let mut stopped = false;
        loop
            invariant_except_break
                !stopped,
            invariant
                0 <= k <= page.len(),
                self.wf(),
                self.stack_name == old(self).stack_name,
                self.since == old(self).since,
                self.finished == old(self).finished,
                since == old(self).since,
                forall|j: int| 0 <= j < k ==> (#[trigger] page@[j])@.timestamp > since as int,
                full == self.events@ + page_take(page@.skip(k as int), since as int, self.seen@),
            ensures
                self.wf(),
                self.stack_name == old(self).stack_name,
                self.since == old(self).since,
                self.finished == old(self).finished,
                self.events@ == full,
                stopped == page_stops(page@, since as int),
            decreases page.len() - k,
        {
            if k >= page.len() {
                proof {
                    assert(page@.skip(page@.len() as int) =~= Seq::<StackEvent>::empty());
                    assert(self.events@ + Seq::<StackEvent>::empty() =~= self.events@);
                    if page_stops(page@, since as int) {
                        let i = choose|i: int|
                            0 <= i < page@.len() && page@[i]@.timestamp <= since as int;
                        assert(false);
                    }
                }
                break;
            }
            proof {
                assert(page@.skip(k as int)[0] == page@[k as int]);
            }
            let e = &page[k];
            if e.timestamp <= since {
                stopped = true;
                proof {
                    assert(page@[k as int]@.timestamp <= since as int);
                    assert(page_take(page@.skip(k as int), since as int, self.seen@)
                        =~= Seq::<StackEvent>::empty());
                    assert(self.events@ + Seq::<StackEvent>::empty() =~= self.events@);
                }
                break;
            }
            proof {
                assert(page@.skip(k as int).drop_first() =~= page@.skip(k + 1 as int));
            }
            if contains_name(&self.seen, e.event_id.as_str()) {
                proof {
                    assert(page_take(page@.skip(k as int), since as int, self.seen@) == page_take(
                        page@.skip(k + 1 as int),
                        since as int,
                        self.seen@,
                    ));
                }
            } else {
                let ghost pre_events = self.events@;
                let ghost pre_seen = self.seen@;
                self.seen.push(e.event_id.clone());
                self.events.push(e.clone());
                proof {
                    assert(self.seen@ =~= pre_seen.push(page@[k as int].event_id));
                    assert(self.events@ =~= pre_events.push(page@[k as int]));
                    lemma_push_membership(pre_seen, page@[k as int].event_id);
                    lemma_events_push_membership(pre_events, page@[k as int]);
                    assert(page_take(page@.skip(k as int), since as int, pre_seen) == seq![
                        page@[k as int],
                    ] + page_take(page@.skip(k + 1 as int), since as int, self.seen@));
                    assert(pre_events + (seq![page@[k as int]] + page_take(
                        page@.skip(k + 1 as int),
                        since as int,
                        self.seen@,
                    )) =~= self.events@ + page_take(
                        page@.skip(k + 1 as int),
                        since as int,
                        self.seen@,
                    ));
                    assert forall|i: int|
                        0 <= i < self.events@.len() implies (#[trigger] self.events@[i])@.timestamp
                        > self.since as int by {
                        if i < self.events@.len() - 1 {
                            assert(self.events@[i] == pre_events[i]);
                        } else {
                            assert(self.events@[i] == page@[k as int]);
                        }
                    }
                    assert forall|i: int, j: int|
                        0 <= i < j < self.events@.len() implies self.events@[i]@.event_id
                        != self.events@[j]@.event_id by {
                        if j == self.events@.len() - 1 {
                            assert(!seq_contains_name(pre_seen, page@[k as int]@.event_id));
                            assert(!event_ids_contain(pre_events, page@[k as int]@.event_id));
                            assert(self.events@[i] == pre_events[i]);
                        }
                    }
                    assert forall|m: Seq<char>|
                        seq_contains_name(self.seen@, m) == event_ids_contain(
                        self.events@,
                        m,
                    ) by {
                        assert(seq_contains_name(self.seen@, m) == (seq_contains_name(pre_seen, m)
                            || m == page@[k as int]@.event_id));
                        assert(event_ids_contain(self.events@, m) == (event_ids_contain(
                            pre_events,
                            m,
                        ) || m == page@[k as int]@.event_id));
                    }
                }
            }
            k = k + 1;
        }
        if stopped || !has_next {
            self.finished = true;
        }
    }

    /// Hands the collected events over, in collection order.
    pub fn into_events(self) -> (r: Vec<StackEvent>)
        ensures
            r == self.events,
    {
        self.events
    }
}

/// Merges per-stack collections into one batch in merge order: ascending
/// by timestamp, ties broken by event id.
pub fn sort_events(input: Vec<StackEvent>) -> (out: Vec<StackEvent>)
    ensures
        events_sorted(out@),
        out@.to_multiset() == input@.to_multiset(),
{
    broadcast use vstd::seq_lib::group_to_multiset_ensures;
    broadcast use vstd::multiset::group_multiset_axioms;

    let mut v = input;
    let mut out: Vec<StackEvent> = Vec::new();
    loop
        invariant
            events_sorted(out@),
            out@.to_multiset().add(v@.to_multiset()) =~= input@.to_multiset(),
        ensures
            events_sorted(out@),
            out@.to_multiset() =~= input@.to_multiset(),
        decreases v.len(),
    {
        if v.len() == 0 {
            proof {
                v@.to_multiset_ensures();
                assert(v@.to_multiset().len() == 0);
                vstd::multiset::lemma_multiset_empty_len(v@.to_multiset());
                assert(out@.to_multiset().add(v@.to_multiset()) =~= out@.to_multiset());
            }
            break;
        }
        let ghost pre_v = v@;
        let e = v.remove(0);
        proof {
            assert(v@ == pre_v.remove(0));
            vstd::seq_lib::to_multiset_remove(pre_v, 0);
            assert(v@.to_multiset() == pre_v.to_multiset().remove(pre_v[0]));
        }
        let mut pos: usize = 0;
        loop
            invariant
                0 <= pos <= out.len(),
                forall|j: int| 0 <= j < pos ==> event_le((#[trigger] out@[j])@, e@),
            ensures
                0 <= pos <= out.len(),
                forall|j: int| 0 <= j < pos ==> event_le((#[trigger] out@[j])@, e@),
                pos < out.len() ==> !event_le(out@[pos as int]@, e@),
            decreases out.len() - pos,
        {
            if pos >= out.len() {
                break;
            }
            if !event_before(&out[pos], &e) {
                break;
            }
            pos = pos + 1;
        }
        let ghost pre_out = out@;
        proof {
            assert forall|j: int| pos <= j < pre_out.len() implies event_le(
                e@,
                (#[trigger] pre_out[j])@,
            ) by {
                lemma_event_le_total(pre_out[pos as int]@, e@);
                if j > pos {
                    assert(event_le(pre_out[pos as int]@, pre_out[j]@));
                }
                lemma_event_le_transitive(e@, pre_out[pos as int]@, pre_out[j]@);
            }
        }
        out.insert(pos, e);
        proof {
            assert(out@ == pre_out.insert(pos as int, e));
            vstd::seq_lib::to_multiset_insert(pre_out, pos as int, e);
            assert(out@.to_multiset() == pre_out.to_multiset().insert(e));
            pre_out.insert_ensures(pos as int, e);
            assert forall|i: int, j: int| 0 <= i <= j < out@.len() implies event_le(
                out@[i]@,
                out@[j]@,
            ) by {
                assert(forall|i: int| 0 <= i < pos ==> out@[i] == pre_out[i]);
                assert(out@[pos as int] == e);
                assert(forall|i: int| pos < i < out@.len() ==> out@[i] == pre_out[i - 1]);
                if i == j {
                    lemma_event_le_reflexive(out@[i]@);
                } else if j < pos {
                    assert(event_le(pre_out[i]@, pre_out[j]@));
                } else if i > pos {
                    assert(event_le(pre_out[i - 1]@, pre_out[j - 1]@));
                } else if i == pos && j > pos {
                    assert(event_le(e@, pre_out[j - 1]@));
                } else if j == pos && i < pos {
                    assert(event_le(pre_out[i]@, e@));
                } else {
                    assert(event_le(pre_out[i]@, e@));
                    assert(event_le(e@, pre_out[j - 1]@));
                    lemma_event_le_transitive(pre_out[i]@, e@, pre_out[j - 1]@);
                }
            }
            assert(e == pre_v[0]);
            assert(pre_v.contains(e));
            pre_v.to_multiset_ensures();
            assert(pre_v.to_multiset().count(e) > 0);
            assert forall|x: StackEvent|
                out@.to_multiset().add(v@.to_multiset()).count(x) == input@.to_multiset().count(
                    x,
                ) by {
                assert(pre_out.to_multiset().add(pre_v.to_multiset()).count(x)
                    == input@.to_multiset().count(x));
                if x == e {
                    vstd::multiset::lemma_insert_increases_count_by_1(pre_out.to_multiset(), e);
                } else {
                    vstd::multiset::lemma_insert_other_elements_unchanged(
                        pre_out.to_multiset(),
                        e,
                        x,
                    );
                }
            }
            assert(out@.to_multiset().add(v@.to_multiset()) =~= input@.to_multiset());
        }
    }
    out
}

/// The first fatal (non-retryable) error among per-stack outcomes, in
/// stack order, if any.
pub open spec fn spec_first_fatal(rs: Seq<Result<Vec<StackEvent>, TailError>>) -> Option<
    TailError,
>
    decreases rs.len(),
{
    if rs.len() == 0 {
        None
    } else {
        match rs[0] {
            Result::Err(e) => if !e.spec_retryable() {
                Some(e)
            } else {
                spec_first_fatal(rs.drop_first())
            },
            Result::Ok(_) => spec_first_fatal(rs.drop_first()),
        }
    }
}

/// The concatenation of the successful per-stack batches, in stack
/// order; a failed stack contributes nothing.
pub open spec fn ok_concat(rs: Seq<Result<Vec<StackEvent>, TailError>>) -> Seq<StackEvent>
    decreases rs.len(),
{
    if rs.len() == 0 {
        Seq::empty()
    } else {
        (match rs[0] {
            Result::Ok(v) => v@,
            Result::Err(_) => Seq::empty(),
        }) + ok_concat(rs.drop_first())
    }
}

/// Joins the per-stack outcomes of one fetch cycle. A fatal error
/// surfaces (the first, in stack order); retryable failures are
/// absorbed, keeping the other stacks' partial results; on success the
/// kept events are merged into one batch in merge order.
#[verifier::loop_isolation(false)]
pub fn combine_results(results: Vec<Result<Vec<StackEvent>, TailError>>) -> (r: Result<
    Vec<StackEvent>,
    TailError,
>)
    ensures
        spec_first_fatal(results@) is Some ==> r == Result::<Vec<StackEvent>, TailError>::Err(
            spec_first_fatal(results@).unwrap(),
        ),
        spec_first_fatal(results@) is None ==> (r matches Result::Ok(events)
            && events_sorted(events@) && events@.to_multiset() == ok_concat(
            results@,
        ).to_multiset()),
{
    let ghost orig = results@;
    let mut remaining = results;
    let mut acc: Vec<StackEvent> = Vec::new();
    while remaining.len() > 0
        invariant
            spec_first_fatal(orig) == spec_first_fatal(remaining@),
            ok_concat(orig) =~= acc@ + ok_concat(remaining@),
        decreases remaining.len(),
    {
        let ghost pre = remaining@;
        let head = remaining.remove(0);
        proof {
            assert(remaining@ == pre.remove(0));
            assert(remaining@ =~= pre.drop_first());
        }
        match head {
            Result::Ok(mut events) => {
                let ghost pre_acc = acc@;
                let ghost pre_events = events@;
                acc.append(&mut events);
                proof {
                    assert(acc@ =~= pre_acc + pre_events);
                    assert(ok_concat(pre) == pre_events + ok_concat(pre.drop_first()));
                    assert(ok_concat(orig) =~= acc@ + ok_concat(remaining@));
                }
            },
            Result::Err(e) => {
                if !e.is_retryable() {
                    proof {
                        assert(spec_first_fatal(pre) == Some(e));
                    }
                    return Result::Err(e);
                }
                proof {
                    assert(ok_concat(pre) == Seq::<StackEvent>::empty() + ok_concat(
                        pre.drop_first(),
                    ));
                    assert(ok_concat(orig) =~= acc@ + ok_concat(remaining@));
                }
            },
        }
    }
    proof {
        assert(remaining@ =~= Seq::<Result<Vec<StackEvent>, TailError>>::empty());
        assert(ok_concat(remaining@) =~= Seq::<StackEvent>::empty());
        assert(acc@ + Seq::<StackEvent>::empty() =~= acc@);
    }
    let sorted = sort_events(acc);
    Result::Ok(sorted)
}


/// Freshness survives the merge: when one batch holds the same events
/// as another (as a multiset) and every event of the second is newer
/// than `since`, so is every event of the first.
pub proof fn lemma_multiset_fresh(a: Seq<StackEvent>, b: Seq<StackEvent>, since: int)
    requires
        a.to_multiset() == b.to_multiset(),
        forall|i: int| 0 <= i < b.len() ==> (#[trigger] b[i])@.timestamp > since,
    ensures
        forall|i: int| 0 <= i < a.len() ==> (#[trigger] a[i])@.timestamp > since,
{
    broadcast use vstd::seq_lib::group_to_multiset_ensures;

    assert forall|i: int| 0 <= i < a.len() implies (#[trigger] a[i])@.timestamp > since by {
        assert(a.contains(a[i]));
        assert(a.to_multiset().count(a[i]) > 0);
        assert(b.to_multiset().count(a[i]) > 0);
        assert(b.contains(a[i]));
        let m = choose|m: int| 0 <= m < b.len() && b[m] == a[i];
        assert(b[m]@.timestamp > since);
    }
}

/// Freshness survives the fan-in: when every successful per-stack
/// collection holds only events newer than `since`, their concatenation
/// does too.
pub proof fn lemma_ok_concat_fresh(rs: Seq<Result<Vec<StackEvent>, TailError>>, since: int)
    requires
        forall|k: int, i: int|
            0 <= k < rs.len() && rs[k] is Ok && 0 <= i < rs[k]->Ok_0@.len() ==> (#[trigger] rs[k]->Ok_0@[i])@.timestamp > since,
    ensures
        forall|i: int|
            0 <= i < ok_concat(rs).len() ==> (#[trigger] ok_concat(rs)[i])@.timestamp > since,
    decreases rs.len(),
{
    if rs.len() > 0 {
        assert forall|k: int, i: int|
            0 <= k < rs.drop_first().len() && rs.drop_first()[k] is Ok && 0 <= i
            < rs.drop_first()[k]->Ok_0@.len() implies (#[trigger] rs.drop_first()[k]->Ok_0@[i])@.timestamp
            > since by {
            assert(rs.drop_first()[k] == rs[k + 1]);
        }
        lemma_ok_concat_fresh(rs.drop_first(), since);
        let head = match rs[0] {
            Result::Ok(v) => v@,
            Result::Err(_) => Seq::<StackEvent>::empty(),
        };
        assert forall|i: int|
            0 <= i < ok_concat(rs).len() implies (#[trigger] ok_concat(rs)[i])@.timestamp
            > since by {
            if i < head.len() {
                assert(ok_concat(rs)[i] == head[i]);
                assert(rs[0] is Ok && head == rs[0]->Ok_0@);
            } else {
                assert(ok_concat(rs)[i] == ok_concat(rs.drop_first())[i - head.len()]);
            }
        }
    }
}

} // verus!
