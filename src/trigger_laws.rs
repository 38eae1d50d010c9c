use vstd::prelude::*;

use crate::trigger::{
    mode_for, opt_seq, run, start_for, stop_matching, Mode, Signal, TapEvent, TriggerView,
};

verus! {

/// The trigger key's state after `evs`, starting from `prev`: the flag of the
/// last event that is not a disable marker, else `prev`.
pub open spec fn flag_after(prev: bool, evs: Seq<TapEvent>) -> bool
    decreases evs.len(),
{
    if evs.len() == 0 {
        prev
    } else if evs.last().is_disable_marker() {
        flag_after(prev, evs.drop_last())
    } else {
        evs.last().trigger_set()
    }
}

/// Number of clear-to-set transitions of the trigger flag along `evs`.
pub open spec fn down_edges(prev: bool, evs: Seq<TapEvent>) -> nat
    decreases evs.len(),
{
    if evs.len() == 0 {
        0
    } else {
        let e = evs.last();
        let before = flag_after(prev, evs.drop_last());
        down_edges(prev, evs.drop_last()) + if !e.is_disable_marker() && e.trigger_set()
            && !before {
            1nat
        } else {
            0nat
        }
    }
}

/// Number of set-to-clear transitions of the trigger flag along `evs`.
pub open spec fn up_edges(prev: bool, evs: Seq<TapEvent>) -> nat
    decreases evs.len(),
{
    if evs.len() == 0 {
        0
    } else {
        let e = evs.last();
        let before = flag_after(prev, evs.drop_last());
        up_edges(prev, evs.drop_last()) + if !e.is_disable_marker() && !e.trigger_set()
            && before {
            1nat
        } else {
            0nat
        }
    }
}

pub open spec fn count_starts(sigs: Seq<Signal>) -> nat
    decreases sigs.len(),
{
    if sigs.len() == 0 {
        0
    } else {
        count_starts(sigs.drop_last()) + if sigs.last().is_start() {
            1nat
        } else {
            0nat
        }
    }
}

pub open spec fn count_stops(sigs: Seq<Signal>) -> nat
    decreases sigs.len(),
{
    if sigs.len() == 0 {
        0
    } else {
        count_stops(sigs.drop_last()) + if sigs.last().is_stop() {
            1nat
        } else {
            0nat
        }
    }
}

/// The mode that start signal `s` opens.
pub open spec fn mode_opened_by(s: Signal) -> Mode {
    if s is StartChat {
        Mode::Chat
    } else {
        Mode::Global
    }
}

proof fn lemma_counts_push(sigs: Seq<Signal>, o: Option<Signal>)
    ensures
        count_starts(sigs + opt_seq(o)) == count_starts(sigs) + match o {
            Some(x) => if x.is_start() { 1nat } else { 0nat },
            None => 0nat,
        },
        count_stops(sigs + opt_seq(o)) == count_stops(sigs) + match o {
            Some(x) => if x.is_stop() { 1nat } else { 0nat },
            None => 0nat,
        },
{
    let t = sigs + opt_seq(o);
    match o {
        Some(x) => {
            assert(t =~= sigs.push(x));
            assert(t.drop_last() =~= sigs);
            assert(t.last() == x);
        },
        None => {
            assert(t =~= sigs);
        },
    }
}

/// Running a concatenation is running its two parts one after the other.
proof fn lemma_run_append(
    s: TriggerView,
    a: Seq<TapEvent>,
    b: Seq<TapEvent>,
    fa: Seq<bool>,
    fb: Seq<bool>,
)
    requires
        fa.len() == a.len(),
        fb.len() == b.len(),
    ensures
        run(s, a + b, fa + fb) == (
            run(run(s, a, fa).0, b, fb).0,
            run(s, a, fa).1 + run(run(s, a, fa).0, b, fb).1,
        ),
    decreases b.len(),
{
    let mid = run(s, a, fa);
    if b.len() == 0 {
        assert(a + b =~= a);
        assert(fa + fb =~= fa);
        assert(mid.1 + Seq::<Signal>::empty() =~= mid.1);
    } else {
        let n = b.len() - 1;
        let b0 = b.subrange(0, n);
        let fb0 = fb.subrange(0, n);
        lemma_run_append(s, a, b0, fa, fb0);
        let ab = a + b;
        let fab = fa + fb;
        assert(ab.subrange(0, ab.len() - 1) =~= a + b0);
        assert(fab.subrange(0, ab.len() - 1) =~= fa + fb0);
        assert(ab[ab.len() - 1] == b[n]);
        assert(fab[ab.len() - 1] == fb[n]);
        let inner = run(mid.0, b0, fb0);
        let next = inner.0.step(b[n], fb[n]);
        assert(mid.1 + inner.1 + opt_seq(next.1) =~= mid.1 + (inner.1 + opt_seq(next.1)));
    }
}

/// From a well-formed state, the run stays well-formed, its key state is the
/// flag of the last real event, and it emits one start per down-edge and one
/// stop per up-edge.
proof fn lemma_run_counts(s: TriggerView, evs: Seq<TapEvent>, focus: Seq<bool>)
    requires
        s.wf(),
    ensures
        run(s, evs, focus).0.wf(),
        run(s, evs, focus).0.key_down == flag_after(s.key_down, evs),
        count_starts(run(s, evs, focus).1) == down_edges(s.key_down, evs),
        count_stops(run(s, evs, focus).1) == up_edges(s.key_down, evs),
    decreases evs.len(),
{
    if evs.len() > 0 {
        let n = evs.len() - 1;
        let prev = run(s, evs.subrange(0, n), focus.subrange(0, n));
        lemma_run_counts(s, evs.subrange(0, n), focus.subrange(0, n));
        assert(evs.drop_last() =~= evs.subrange(0, n));
        assert(evs.last() == evs[n]);
        let next = prev.0.step(evs[n], focus[n]);
        lemma_counts_push(prev.1, next.1);
    }
}

/// Every start signal corresponds to one down-edge of the trigger flag: the
/// number of starts emitted equals the number of clear-to-set transitions,
/// whatever repeated "still set" events lie between them.
pub proof fn lemma_starts_equal_down_edges(s: TriggerView, evs: Seq<TapEvent>, focus: Seq<bool>)
    requires
        s.wf(),
    ensures
        count_starts(run(s, evs, focus).1) == down_edges(s.key_down, evs),
{
    lemma_run_counts(s, evs, focus);
}

/// An event that is no edge of the trigger key (a repeated "still set" or
/// "still clear" report, or a change of another modifier bit), inserted
/// anywhere in a sequence, changes neither the signals emitted nor the final
/// state. Whether it is an edge depends on the flag state it meets, which
/// disable markers before it do not change.
pub proof fn lemma_no_edge_event_is_silent(
    s: TriggerView,
    a: Seq<TapEvent>,
    x: TapEvent,
    b: Seq<TapEvent>,
    fa: Seq<bool>,
    fx: bool,
    fb: Seq<bool>,
)
    requires
        s.wf(),
        fa.len() == a.len(),
        fb.len() == b.len(),
        !x.is_disable_marker(),
        x.trigger_set() == flag_after(s.key_down, a),
    ensures
        run(s, a.push(x) + b, fa.push(fx) + fb) == run(s, a + b, fa + fb),
{
    let with = a.push(x);
    let fwith = fa.push(fx);
    lemma_run_append(s, with, b, fwith, fb);
    lemma_run_append(s, a, b, fa, fb);
    lemma_run_counts(s, a, fa);
    let r0 = run(s, a, fa);
    assert(with.subrange(0, a.len() as int) =~= a);
    assert(fwith.subrange(0, a.len() as int) =~= fa);
    assert(r0.0.step(x, fx) == (r0.0, Option::<Signal>::None));
    assert(r0.1 + opt_seq(None) =~= r0.1);
}

/// A disable marker delivered anywhere in a sequence changes neither the
/// signals emitted nor the final state, whatever the state it arrives in.
pub proof fn lemma_disable_marker_is_inert(
    s: TriggerView,
    a: Seq<TapEvent>,
    m: TapEvent,
    b: Seq<TapEvent>,
    fa: Seq<bool>,
    fm: bool,
    fb: Seq<bool>,
)
    requires
        fa.len() == a.len(),
        fb.len() == b.len(),
        m.is_disable_marker(),
    ensures
        run(s, a.push(m) + b, fa.push(fm) + fb) == run(s, a + b, fa + fb),
{
    let with = a.push(m);
    let fwith = fa.push(fm);
    lemma_run_append(s, with, b, fwith, fb);
    lemma_run_append(s, a, b, fa, fb);
    let r0 = run(s, a, fa);
    assert(with.subrange(0, a.len() as int) =~= a);
    assert(fwith.subrange(0, a.len() as int) =~= fa);
    assert(r0.0.step(m, fm) == (r0.0, Option::<Signal>::None));
    assert(r0.1 + opt_seq(None) =~= r0.1);
}

/// Invariant of a run from idle: the signals begin with a start, every
/// start is followed directly by the stop that matches it, every stop by a
/// start, and the last signal is a start exactly while the key is held, in
/// the mode that start opened.
pub open spec fn alternating(t: TriggerView, sigs: Seq<Signal>) -> bool {
    &&& sigs.len() > 0 ==> sigs[0].is_start()
    &&& forall|i: int, j: int|
        0 <= i && j == i + 1 && j < sigs.len() ==> #[trigger] follows(sigs[i], sigs[j])
    &&& forall|i: int| 0 <= i < sigs.len() ==> (#[trigger] sigs[i]).is_start() || sigs[i].is_stop()
    &&& (t.key_down <==> sigs.len() > 0 && sigs.last().is_start())
    &&& t.key_down ==> t.mode == mode_opened_by(sigs.last())
}

/// `b` may come directly after `a`: a start is followed by its matching stop,
/// a stop by a start.
pub open spec fn follows(a: Signal, b: Signal) -> bool {
    &&& a.is_start() ==> b == stop_matching(a)
    &&& a.is_stop() ==> b.is_start()
}

proof fn lemma_alternating_step(t: TriggerView, sigs: Seq<Signal>, ev: TapEvent, focused: bool)
    requires
        t.wf(),
        alternating(t, sigs),
    ensures
        t.step(ev, focused).0.wf(),
        alternating(t.step(ev, focused).0, sigs + opt_seq(t.step(ev, focused).1)),
{
    let next = t.step(ev, focused);
    if let Some(x) = next.1 {
        let out = sigs.push(x);
        assert(sigs + opt_seq(next.1) =~= out);
        assert(out.last() == x);
        assert forall|i: int| 0 <= i < sigs.len() implies out[i] == sigs[i] by {}
        assert forall|i: int, j: int|
            0 <= i && j == i + 1 && j < out.len() implies #[trigger] follows(out[i], out[j]) by {
            if j < sigs.len() {
                assert(follows(sigs[i], sigs[j]));
            } else {
                assert(out[i] == sigs.last());
            }
        }
    } else {
        assert(sigs + opt_seq(next.1) =~= sigs);
    }
}

proof fn lemma_run_alternates(evs: Seq<TapEvent>, focus: Seq<bool>)
    ensures
        run(TriggerView::idle(), evs, focus).0.wf(),
        alternating(run(TriggerView::idle(), evs, focus).0, run(TriggerView::idle(), evs, focus).1),
    decreases evs.len(),
{
    if evs.len() == 0 {
        assert(run(TriggerView::idle(), evs, focus).1 =~= Seq::<Signal>::empty());
    } else {
        let n = evs.len() - 1;
        let prev = run(TriggerView::idle(), evs.subrange(0, n), focus.subrange(0, n));
        lemma_run_alternates(evs.subrange(0, n), focus.subrange(0, n));
        lemma_alternating_step(prev.0, prev.1, evs[n], focus[n]);
    }
}

/// From the idle state, signals alternate start, stop, start, ...: nothing
/// stops before a start, every start is followed directly by the stop of the
/// same mode, stops come one per up-edge, and a start is left open only
/// while the key is still held.
pub proof fn lemma_each_start_closed_by_matching_stop(evs: Seq<TapEvent>, focus: Seq<bool>)
    ensures
        alternating(run(TriggerView::idle(), evs, focus).0, run(TriggerView::idle(), evs, focus).1),
        count_stops(run(TriggerView::idle(), evs, focus).1) == up_edges(false, evs),
{
    lemma_run_alternates(evs, focus);
    lemma_run_counts(TriggerView::idle(), evs, focus);
}

proof fn lemma_hold_prefix(evs: Seq<TapEvent>, focus: Seq<bool>, k: int)
    requires
        1 <= k < evs.len(),
        focus.len() == evs.len(),
        !evs[0].is_disable_marker() && evs[0].trigger_set(),
        forall|i: int| 0 < i < evs.len() - 1 ==> #[trigger] evs[i].is_disable_marker() || evs[i].trigger_set(),
    ensures
        run(TriggerView::idle(), evs.subrange(0, k), focus.subrange(0, k)) == (
            TriggerView { key_down: true, mode: mode_for(focus[0]) },
            seq![start_for(focus[0])],
        ),
    decreases k,
{
    let pre = evs.subrange(0, k);
    let fpre = focus.subrange(0, k);
    let held = TriggerView { key_down: true, mode: mode_for(focus[0]) };
    let before = run(TriggerView::idle(), pre.subrange(0, k - 1), fpre.subrange(0, k - 1));
    assert(pre.subrange(0, k - 1) =~= evs.subrange(0, k - 1));
    assert(fpre.subrange(0, k - 1) =~= focus.subrange(0, k - 1));
    assert(pre[k - 1] == evs[k - 1]);
    assert(fpre[k - 1] == focus[k - 1]);
    if k == 1 {
        let none = evs.subrange(0, 0);
        assert(none.len() == 0);
        assert(before == (TriggerView::idle(), Seq::<Signal>::empty()));
        assert(before.0.step(evs[0], focus[0]) == (held, Some(start_for(focus[0]))));
        assert(Seq::<Signal>::empty() + seq![start_for(focus[0])] =~= seq![start_for(focus[0])]);
    } else {
        lemma_hold_prefix(evs, focus, k - 1);
        assert(before == (held, seq![start_for(focus[0])]));
        assert(evs[k - 1].is_disable_marker() || evs[k - 1].trigger_set());
        assert(held.step(evs[k - 1], focus[k - 1]) == (held, Option::<Signal>::None));
        assert(seq![start_for(focus[0])] + Seq::<Signal>::empty() =~= seq![start_for(focus[0])]);
    }
}

/// The mode of a hold is fixed at the press: for a press, any run of repeated
/// "still set" events and disable markers, then a release, exactly the start
/// chosen by the focus at the press and its matching stop are emitted,
/// whatever the focus answers at the later events.
pub proof fn lemma_mode_locked_at_press(evs: Seq<TapEvent>, focus: Seq<bool>)
    requires
        evs.len() >= 2,
        focus.len() == evs.len(),
        !evs[0].is_disable_marker() && evs[0].trigger_set(),
        forall|i: int| 0 < i < evs.len() - 1 ==> #[trigger] evs[i].is_disable_marker() || evs[i].trigger_set(),
        !evs.last().is_disable_marker() && !evs.last().trigger_set(),
    ensures
        run(TriggerView::idle(), evs, focus).1 == seq![
            start_for(focus[0]),
            stop_matching(start_for(focus[0])),
        ],
{
    let n = evs.len() - 1;
    lemma_hold_prefix(evs, focus, n);
    assert(seq![start_for(focus[0])] + seq![stop_matching(start_for(focus[0]))] =~= seq![
        start_for(focus[0]),
        stop_matching(start_for(focus[0])),
    ]);
}

} // verus!
