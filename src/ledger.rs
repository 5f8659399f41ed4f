//! What the records of many calls add up to. Calls are driven by events, each
//! a poll or an observed result of one call, in any interleaving; the laws
//! here relate the totals of the records produced to where the calls stand.

use vstd::prelude::*;
use crate::call::{
    CallView, Outcome, Phase, RecordView, begin_records, begin_view, finish_records,
    finish_view,
};

verus! {

/// One step of one call, the `call`-th of those being driven.
pub enum Event {
    /// The call is polled at clock reading `now`.
    Poll { call: int, now: u64 },
    /// The call's result is observed at clock reading `now`.
    Complete { call: int, now: u64, outcome: Outcome },
}

/// The calls after `events`, starting from `calls`, and the records the
/// events produced, in order. An event for a call that does not exist does
/// nothing.
pub open spec fn run(calls: Seq<CallView>, events: Seq<Event>) -> (Seq<CallView>, Seq<RecordView>)
    decreases events.len(),
{
    if events.len() == 0 {
        (calls, seq![])
    } else {
        let (cs, rs) = run(calls, events.drop_last());
        match events.last() {
            Event::Poll { call, now } => if 0 <= call < cs.len() {
                (cs.update(call, begin_view(cs[call], now)), rs + begin_records(cs[call]))
            } else {
                (cs, rs)
            },
            Event::Complete { call, now, outcome } => if 0 <= call < cs.len() {
                (cs.update(call, finish_view(cs[call])), rs + finish_records(cs[call], now, outcome))
            } else {
                (cs, rs)
            },
        }
    }
}

/// How many records satisfy `f`.
pub open spec fn count_records(rs: Seq<RecordView>, f: spec_fn(RecordView) -> bool) -> nat
    decreases rs.len(),
{
    if rs.len() == 0 {
        0
    } else {
        count_records(rs.drop_last(), f) + if f(rs.last()) { 1nat } else { 0nat }
    }
}

/// How many calls satisfy `f`.
pub open spec fn count_calls(cs: Seq<CallView>, f: spec_fn(CallView) -> bool) -> nat
    decreases cs.len(),
{
    if cs.len() == 0 {
        0
    } else {
        count_calls(cs.drop_last(), f) + if f(cs.last()) { 1nat } else { 0nat }
    }
}

/// Picks the start records under a label pair that `sel` picks.
pub open spec fn start_under(sel: spec_fn(Seq<char>, Seq<char>) -> bool) -> spec_fn(RecordView) -> bool {
    |r: RecordView|
        match r {
            RecordView::Started { service, method } => sel(service, method),
            _ => false,
        }
}

/// Picks the completion records under a label pair that `sel` picks.
pub open spec fn finish_under(sel: spec_fn(Seq<char>, Seq<char>) -> bool) -> spec_fn(RecordView) -> bool {
    |r: RecordView|
        match r {
            RecordView::Finished { service, method, .. } => sel(service, method),
            _ => false,
        }
}

/// `started_total` over the label pairs that `sel` picks.
pub open spec fn started_total(rs: Seq<RecordView>, sel: spec_fn(Seq<char>, Seq<char>) -> bool) -> nat {
    count_records(rs, start_under(sel))
}

/// `handled_total` over the label pairs that `sel` picks, all statuses.
pub open spec fn handled_total(rs: Seq<RecordView>, sel: spec_fn(Seq<char>, Seq<char>) -> bool) -> nat {
    count_records(rs, finish_under(sel))
}

/// `active_requests` over the label pairs that `sel` picks: one up for each
/// start, one down for each completion.
pub open spec fn active_requests(rs: Seq<RecordView>, sel: spec_fn(Seq<char>, Seq<char>) -> bool) -> int {
    started_total(rs, sel) - handled_total(rs, sel)
}

/// Picks the calls under a label pair that `sel` picks that have been polled.
pub open spec fn begun_under(sel: spec_fn(Seq<char>, Seq<char>) -> bool) -> spec_fn(CallView) -> bool {
    |c: CallView| sel(c.service, c.method) && c.phase != Phase::Created
}

/// Picks the calls under a label pair that `sel` picks that have completed.
pub open spec fn completed_under(sel: spec_fn(Seq<char>, Seq<char>) -> bool) -> spec_fn(CallView) -> bool {
    |c: CallView| sel(c.service, c.method) && c.phase == Phase::Completed
}

/// Picks the calls under a label pair that `sel` picks that are in flight.
pub open spec fn in_flight_under(sel: spec_fn(Seq<char>, Seq<char>) -> bool) -> spec_fn(CallView) -> bool {
    |c: CallView| sel(c.service, c.method) && c.phase is Started
}

/// Picks the calls under a label pair that `sel` picks.
pub open spec fn labelled_under(sel: spec_fn(Seq<char>, Seq<char>) -> bool) -> spec_fn(CallView) -> bool {
    |c: CallView| sel(c.service, c.method)
}

/// Have none of `calls` been polled yet?
pub open spec fn all_created(calls: Seq<CallView>) -> bool {
    forall|i: int| 0 <= i < calls.len() ==> calls[i].phase == Phase::Created
}

proof fn lemma_count_records_append(rs: Seq<RecordView>, extra: Seq<RecordView>, f: spec_fn(RecordView) -> bool)
    requires
        extra.len() <= 1,
    ensures
        count_records(rs + extra, f) == count_records(rs, f) + count_records(extra, f),
{
    if extra.len() == 0 {
        assert(rs + extra =~= rs);
    } else {
        assert((rs + extra).drop_last() =~= rs);
        assert(extra.drop_last() =~= Seq::<RecordView>::empty());
        assert(count_records(extra.drop_last(), f) == 0);
        assert((rs + extra).last() == extra.last());
    }
}

proof fn lemma_count_calls_update(cs: Seq<CallView>, i: int, c: CallView, f: spec_fn(CallView) -> bool)
    requires
        0 <= i < cs.len(),
    ensures
        count_calls(cs.update(i, c), f) + (if f(cs[i]) { 1int } else { 0int })
            == count_calls(cs, f) + (if f(c) { 1int } else { 0int }),
    decreases cs.len(),
{
    if i == cs.len() - 1 {
        assert(cs.update(i, c).drop_last() =~= cs.drop_last());
    } else {
        lemma_count_calls_update(cs.drop_last(), i, c, f);
        assert(cs.update(i, c).drop_last() =~= cs.drop_last().update(i, c));
    }
}

proof fn lemma_count_calls_split(
    cs: Seq<CallView>,
    f: spec_fn(CallView) -> bool,
    g: spec_fn(CallView) -> bool,
    h: spec_fn(CallView) -> bool,
)
    requires
        forall|c: CallView| #[trigger] f(c) == (g(c) || h(c)),
        forall|c: CallView| !(#[trigger] g(c) && h(c)),
    ensures
        count_calls(cs, f) == count_calls(cs, g) + count_calls(cs, h),
    decreases cs.len(),
{
    if cs.len() > 0 {
        lemma_count_calls_split(cs.drop_last(), f, g, h);
        let l = cs.last();
        assert(f(l) == (g(l) || h(l)));
        assert(!(g(l) && h(l)));
    }
}

/// Whatever the events, each call's labels stay as they were, and the
/// started and handled totals count the calls that have left `Created` and
/// that have reached `Completed`.
pub proof fn lemma_totals_track_calls(
    calls: Seq<CallView>,
    events: Seq<Event>,
    sel: spec_fn(Seq<char>, Seq<char>) -> bool,
)
    requires
        all_created(calls),
    ensures
        run(calls, events).0.len() == calls.len(),
        forall|i: int| 0 <= i < calls.len() ==>
            (#[trigger] run(calls, events).0[i]).service == calls[i].service
            && run(calls, events).0[i].method == calls[i].method,
        started_total(run(calls, events).1, sel)
            == count_calls(run(calls, events).0, begun_under(sel)),
        handled_total(run(calls, events).1, sel)
            == count_calls(run(calls, events).0, completed_under(sel)),
    decreases events.len(),
{
    let fs = start_under(sel);
    let fh = finish_under(sel);
    let gs = begun_under(sel);
    let gh = completed_under(sel);
    if events.len() == 0 {
        assert forall|i: int| 0 <= i < calls.len() implies !gs(calls[i]) && !gh(calls[i]) by {}
        lemma_none_counted(calls, gs);
        lemma_none_counted(calls, gh);
    } else {
        lemma_totals_track_calls(calls, events.drop_last(), sel);
        let (cs, rs) = run(calls, events.drop_last());
        match events.last() {
            Event::Poll { call, now } => {
                if 0 <= call < cs.len() {
                    let c = cs[call];
                    let c2 = begin_view(c, now);
                    let added = begin_records(c);
                    assert(run(calls, events) == (cs.update(call, c2), rs + added));
                    lemma_count_records_append(rs, added, fs);
                    lemma_count_records_append(rs, added, fh);
                    lemma_count_calls_update(cs, call, c2, gs);
                    lemma_count_calls_update(cs, call, c2, gh);
                    if c.phase == Phase::Created {
                        assert(added.drop_last() =~= Seq::<RecordView>::empty());
                        assert(count_records(added.drop_last(), fs) == 0);
                        assert(count_records(added.drop_last(), fh) == 0);
                    }
                    assert forall|i: int| 0 <= i < calls.len() implies
                        (#[trigger] run(calls, events).0[i]).service == calls[i].service
                        && run(calls, events).0[i].method == calls[i].method by {
                        if i != call {
                            assert(run(calls, events).0[i] == cs[i]);
                        }
                    }
                } else {
                    assert(run(calls, events) == (cs, rs));
                }
            },
            Event::Complete { call, now, outcome } => {
                if 0 <= call < cs.len() {
                    let c = cs[call];
                    let c2 = finish_view(c);
                    let added = finish_records(c, now, outcome);
                    assert(run(calls, events) == (cs.update(call, c2), rs + added));
                    lemma_count_records_append(rs, added, fs);
                    lemma_count_records_append(rs, added, fh);
                    lemma_count_calls_update(cs, call, c2, gs);
                    lemma_count_calls_update(cs, call, c2, gh);
                    if c.phase is Started {
                        assert(added.drop_last() =~= Seq::<RecordView>::empty());
                        assert(count_records(added.drop_last(), fs) == 0);
                        assert(count_records(added.drop_last(), fh) == 0);
                    }
                    assert forall|i: int| 0 <= i < calls.len() implies
                        (#[trigger] run(calls, events).0[i]).service == calls[i].service
                        && run(calls, events).0[i].method == calls[i].method by {
                        if i != call {
                            assert(run(calls, events).0[i] == cs[i]);
                        }
                    }
                } else {
                    assert(run(calls, events) == (cs, rs));
                }
            },
        }
    }
}

proof fn lemma_none_counted(cs: Seq<CallView>, f: spec_fn(CallView) -> bool)
    requires
        forall|i: int| 0 <= i < cs.len() ==> !f(#[trigger] cs[i]),
    ensures
        count_calls(cs, f) == 0,
    decreases cs.len(),
{
    if cs.len() > 0 {
        lemma_none_counted(cs.drop_last(), f);
    }
}

proof fn lemma_count_calls_pointwise(
    a: Seq<CallView>,
    b: Seq<CallView>,
    f: spec_fn(CallView) -> bool,
    g: spec_fn(CallView) -> bool,
)
    requires
        a.len() == b.len(),
        forall|i: int| 0 <= i < a.len() ==> f(#[trigger] a[i]) == g(b[i]),
    ensures
        count_calls(a, f) == count_calls(b, g),
    decreases a.len(),
{
    if a.len() > 0 {
        lemma_count_calls_pointwise(a.drop_last(), b.drop_last(), f, g);
        assert(f(a[a.len() - 1]) == g(b[a.len() - 1]));
    }
}

proof fn lemma_count_calls_all(cs: Seq<CallView>, f: spec_fn(CallView) -> bool)
    requires
        forall|i: int| 0 <= i < cs.len() ==> f(#[trigger] cs[i]),
    ensures
        count_calls(cs, f) == cs.len(),
    decreases cs.len(),
{
    if cs.len() > 0 {
        lemma_count_calls_all(cs.drop_last(), f);
    }
}

/// The in-flight count of a label pair, after any interleaving of polls and
/// results, is the number of its calls that have started and not completed.
pub proof fn lemma_active_counts_in_flight(
    calls: Seq<CallView>,
    events: Seq<Event>,
    sel: spec_fn(Seq<char>, Seq<char>) -> bool,
)
    requires
        all_created(calls),
    ensures
        active_requests(run(calls, events).1, sel)
            == count_calls(run(calls, events).0, in_flight_under(sel)),
{
    lemma_totals_track_calls(calls, events, sel);
    let f = begun_under(sel);
    let g = in_flight_under(sel);
    let h = completed_under(sel);
    assert forall|c: CallView| #[trigger] f(c) == (g(c) || h(c)) by {}
    assert forall|c: CallView| !(#[trigger] g(c) && h(c)) by {}
    lemma_count_calls_split(run(calls, events).0, f, g, h);
}

/// `active_requests` never goes negative: at every point of every
/// interleaving of polls and results over fresh calls, each label pair has
/// had at least as many starts as completions.
pub proof fn lemma_active_never_negative(
    calls: Seq<CallView>,
    events: Seq<Event>,
    sel: spec_fn(Seq<char>, Seq<char>) -> bool,
)
    requires
        all_created(calls),
    ensures
        forall|k: int| 0 <= k <= events.len() ==>
            active_requests(#[trigger] run(calls, events.subrange(0, k)).1, sel) >= 0,
{
    assert forall|k: int| 0 <= k <= events.len() implies
        active_requests(#[trigger] run(calls, events.subrange(0, k)).1, sel) >= 0 by {
        lemma_active_counts_in_flight(calls, events.subrange(0, k), sel);
    }
}

/// Picks every label pair.
pub open spec fn every_pair() -> spec_fn(Seq<char>, Seq<char>) -> bool {
    |service: Seq<char>, method: Seq<char>| true
}

/// Once every call has completed, whatever the interleaving: under each
/// label pair `started_total` and `handled_total` both equal the number of
/// calls under it and `active_requests` is back to 0; over all pairs both
/// totals equal the number of calls.
pub proof fn lemma_completed_calls_balance(
    calls: Seq<CallView>,
    events: Seq<Event>,
    sel: spec_fn(Seq<char>, Seq<char>) -> bool,
)
    requires
        all_created(calls),
        forall|i: int| 0 <= i < run(calls, events).0.len() ==>
            (#[trigger] run(calls, events).0[i]).phase == Phase::Completed,
    ensures
        started_total(run(calls, events).1, sel) == count_calls(calls, labelled_under(sel)),
        handled_total(run(calls, events).1, sel) == count_calls(calls, labelled_under(sel)),
        active_requests(run(calls, events).1, sel) == 0,
        started_total(run(calls, events).1, every_pair()) == calls.len(),
        handled_total(run(calls, events).1, every_pair()) == calls.len(),
{
    let after = run(calls, events).0;
    lemma_totals_track_calls(calls, events, sel);
    lemma_totals_track_calls(calls, events, every_pair());
    lemma_count_calls_pointwise(after, calls, begun_under(sel), labelled_under(sel));
    lemma_count_calls_pointwise(after, calls, completed_under(sel), labelled_under(sel));
    lemma_count_calls_all(after, begun_under(every_pair()));
    lemma_count_calls_all(after, completed_under(every_pair()));
}

proof fn lemma_count_calls_one(cs: Seq<CallView>, f: spec_fn(CallView) -> bool, j: int)
    requires
        0 <= j < cs.len(),
        f(cs[j]),
        forall|i: int| 0 <= i < cs.len() && i != j ==> !f(#[trigger] cs[i]),
    ensures
        count_calls(cs, f) == 1,
    decreases cs.len(),
{
    if j == cs.len() - 1 {
        lemma_none_counted(cs.drop_last(), f);
    } else {
        lemma_count_calls_one(cs.drop_last(), f, j);
        assert(!f(cs[cs.len() - 1]));
    }
}

/// Picks the one label pair (`service`, `method`).
pub open spec fn pair(service: Seq<char>, method: Seq<char>) -> spec_fn(Seq<char>, Seq<char>) -> bool {
    |s: Seq<char>, m: Seq<char>| s == service && m == method
}

/// Calls with pairwise distinct labels, once all have completed in any
/// interleaving: under each call's label pair `started_total` and
/// `handled_total` are both 1 and `active_requests` is 0.
pub proof fn lemma_distinct_calls_balance(calls: Seq<CallView>, events: Seq<Event>, k: int)
    requires
        all_created(calls),
        0 <= k < calls.len(),
        forall|i: int, j: int| 0 <= i < j < calls.len() ==>
            (#[trigger] calls[i].service, calls[i].method) != (#[trigger] calls[j].service, calls[j].method),
        forall|i: int| 0 <= i < run(calls, events).0.len() ==>
            (#[trigger] run(calls, events).0[i]).phase == Phase::Completed,
    ensures
        started_total(run(calls, events).1, pair(calls[k].service, calls[k].method)) == 1,
        handled_total(run(calls, events).1, pair(calls[k].service, calls[k].method)) == 1,
        active_requests(run(calls, events).1, pair(calls[k].service, calls[k].method)) == 0,
{
    let sel = pair(calls[k].service, calls[k].method);
    lemma_completed_calls_balance(calls, events, sel);
    let f = labelled_under(sel);
    assert forall|i: int| 0 <= i < calls.len() && i != k implies !f(#[trigger] calls[i]) by {
        if i < k {
            assert((calls[i].service, calls[i].method) != (calls[k].service, calls[k].method));
        } else {
            assert((calls[k].service, calls[k].method) != (calls[i].service, calls[i].method));
        }
    }
    lemma_count_calls_one(calls, f, k);
}

} // verus!
