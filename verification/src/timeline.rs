//! Recording a component's timeline into a history and rewinding it gives the recorded states
//! back, newest first.

use vstd::prelude::*;
use crate::rewind::{
    can_save, empty_history, initialized, retired, rewind_actions, saved, step_actions, step_ok,
    stepped, steps_actions, steps_history, steps_ok, HistoryView, Observation, OutOfHistory, Rewind,
    RewindAction, Timestamp, MAX_STORAGE_FRAMES,
};

verus! {

/// A timeline of a component over recorded frames: `states[i]` is the component at frame
/// `times[i]` (`None` when the entity lacks it) and `changed[i]` whether change detection
/// flagged it there. The history starts when the component is added; a component flagged
/// unchanged kept its previous state; frame times increase.
pub open spec fn timeline_ok<T>(states: Seq<Option<T>>, changed: Seq<bool>, times: Seq<usize>) -> bool {
    &&& states.len() >= 1
    &&& changed.len() == states.len()
    &&& times.len() == states.len()
    &&& states[0] is Some
    &&& changed[0]
    &&& forall|i: int| 0 < i < states.len() && #[trigger] states[i] is Some && !changed[i] ==> states[i - 1] == states[i]
    &&& forall|i: int, j: int| 0 <= i < j < times.len() ==> times[i] < times[j]
}

/// What saving frame `i` of a timeline observes.
pub open spec fn observation<T>(states: Seq<Option<T>>, changed: Seq<bool>, i: int) -> Observation<T> {
    match states[i] {
        Some(t) => if changed[i] {
            Observation::Changed(t)
        } else {
            Observation::Unchanged
        },
        None => Observation::Missing,
    }
}

/// The history after recording the first `m` frames of a timeline, starting empty: each frame
/// first forgets the oldest frame of a full history, then saves.
pub open spec fn recorded<T>(states: Seq<Option<T>>, changed: Seq<bool>, times: Seq<usize>, m: nat) -> HistoryView<T>
    decreases m,
{
    if m == 0 {
        empty_history()
    } else {
        saved(
            retired(recorded(states, changed, times, (m - 1) as nat)),
            times[m - 1],
            observation(states, changed, m - 1),
        )
    }
}

/// The first frame of a timeline of `m` frames that a history still holds: it keeps the last
/// `MAX_STORAGE_FRAMES`.
pub open spec fn first_kept(m: int) -> int {
    if m > MAX_STORAGE_FRAMES {
        m - MAX_STORAGE_FRAMES
    } else {
        0
    }
}

/// The component an entity shows after the world applies `actions`, in order, to `shown`.
pub open spec fn applied<T>(shown: Option<T>, actions: Seq<RewindAction<T>>) -> Option<T>
    decreases actions.len(),
{
    if actions.len() == 0 {
        shown
    } else {
        let before = applied(shown, actions.drop_last());
        match actions.last() {
            RewindAction::InsertComponent(t) => Some(t),
            RewindAction::RemoveComponent => None,
            _ => before,
        }
    }
}

/// Frame `i` starts a new component state: the component changed, or it just went missing.
spec fn starts_run<T>(states: Seq<Option<T>>, changed: Seq<bool>, i: int) -> bool {
    match states[i] {
        Some(_) => changed[i],
        None => i == 0 || states[i - 1] is Some,
    }
}

/// The frame where the component state of frame `i` started.
spec fn run_start<T>(states: Seq<Option<T>>, changed: Seq<bool>, i: int) -> int
    decreases i,
{
    if i <= 0 || starts_run(states, changed, i) {
        i
    } else {
        run_start(states, changed, i - 1)
    }
}

/// The states stored by the changes at frames `lo` up to (not including) `j`, oldest first.
spec fn stored_between<T>(states: Seq<Option<T>>, changed: Seq<bool>, lo: int, j: int) -> Seq<T>
    decreases j - lo,
{
    if j <= lo {
        Seq::empty()
    } else {
        let s = stored_between(states, changed, lo, j - 1);
        match states[j - 1] {
            Some(t) => if changed[j - 1] {
                s.push(t)
            } else {
                s
            },
            None => s,
        }
    }
}

/// The timestamp recorded for frame `i`.
spec fn timestamp_of<T>(states: Seq<Option<T>>, changed: Seq<bool>, times: Seq<usize>, i: int) -> Timestamp {
    let f = times[run_start(states, changed, i)];
    match states[i] {
        Some(_) => Timestamp::Existent(f),
        None => Timestamp::Nonexistent(f),
    }
}

proof fn lemma_run_start_bounds<T>(states: Seq<Option<T>>, changed: Seq<bool>, i: int)
    requires
        0 <= i,
    ensures
        0 <= run_start(states, changed, i) <= i,
    decreases i,
{
    if i > 0 && !starts_run(states, changed, i) {
        lemma_run_start_bounds(states, changed, i - 1);
    }
}

/// Runs start in order.
proof fn lemma_run_start_monotone<T>(states: Seq<Option<T>>, changed: Seq<bool>, i: int, j: int)
    requires
        0 <= i <= j,
    ensures
        run_start(states, changed, i) <= run_start(states, changed, j),
    decreases j,
{
    lemma_run_start_bounds(states, changed, i);
    if i < j && !starts_run(states, changed, j) {
        lemma_run_start_monotone(states, changed, i, j - 1);
    }
}

/// The stored states of a range are those of its two parts.
proof fn lemma_split<T>(states: Seq<Option<T>>, changed: Seq<bool>, a: int, b: int, m: int)
    requires
        a <= b <= m,
    ensures
        stored_between(states, changed, a, m) == stored_between(states, changed, a, b) + stored_between(
            states,
            changed,
            b,
            m,
        ),
    decreases m - b,
{
    if m == b {
        assert(stored_between(states, changed, a, b) + stored_between(states, changed, b, m) =~= stored_between(
            states,
            changed,
            a,
            b,
        ));
    } else {
        lemma_split(states, changed, a, b, m - 1);
        let x = stored_between(states, changed, a, b);
        let y = stored_between(states, changed, b, m - 1);
        match states[m - 1] {
            Some(t) => {
                if changed[m - 1] {
                    assert((x + y).push(t) =~= x + y.push(t));
                }
            },
            None => {},
        }
    }
}

/// Within a run the state stays the same, so the state of frame `j` is the one of its run's
/// start, and the run stores exactly that state when the component exists.
proof fn lemma_run<T>(states: Seq<Option<T>>, changed: Seq<bool>, times: Seq<usize>, j: int)
    requires
        timeline_ok(states, changed, times),
        0 <= j < states.len(),
    ensures
        states[run_start(states, changed, j)] == states[j],
        stored_between(states, changed, run_start(states, changed, j), j + 1) == match states[j] {
            Some(t) => seq![t],
            None => Seq::<T>::empty(),
        },
    decreases j,
{
    lemma_run_start_bounds(states, changed, j);
    let r = run_start(states, changed, j);
    if j > 0 && !starts_run(states, changed, j) {
        lemma_run(states, changed, times, j - 1);
        assert(states[j] is Some ==> states[j - 1] == states[j]);
    } else {
        assert(r == j);
        assert(stored_between(states, changed, j, j) =~= Seq::<T>::empty());
        match states[j] {
            Some(t) => {
                assert(Seq::<T>::empty().push(t) =~= seq![t]);
            },
            None => {},
        }
    }
}

/// A history holding frames `first_kept(m)` up to `m` of a timeline: their timestamps, the
/// states stored by the changes from the start of the oldest frame's run on, and the last
/// frame's state shown.
spec fn records<T>(h: HistoryView<T>, states: Seq<Option<T>>, changed: Seq<bool>, times: Seq<usize>, m: int) -> bool {
    let lo = first_kept(m);
    &&& h.frames.len() == m - lo
    &&& forall|i: int| 0 <= i < m - lo ==> #[trigger] h.frames[i] == timestamp_of(states, changed, times, lo + i)
    &&& h.components == stored_between(states, changed, run_start(states, changed, lo), m)
    &&& h.rendered_frame == times[run_start(states, changed, m - 1)]
}

/// Forgetting the oldest frame of a full history keeps it a record of the later frames.
proof fn lemma_retire<T>(h: HistoryView<T>, states: Seq<Option<T>>, changed: Seq<bool>, times: Seq<usize>, k: int)
    requires
        timeline_ok(states, changed, times),
        MAX_STORAGE_FRAMES <= k < states.len(),
        records(h, states, changed, times, k),
    ensures
        retired(h).frames.len() == k - first_kept(k + 1),
        forall|i: int| 0 <= i < k - first_kept(k + 1) ==> #[trigger] retired(h).frames[i] == timestamp_of(
            states,
            changed,
            times,
            first_kept(k + 1) + i,
        ),
        retired(h).components == stored_between(states, changed, run_start(states, changed, first_kept(k + 1)), k),
        retired(h).rendered_frame == h.rendered_frame,
{
    let lo = first_kept(k);
    let hr = retired(h);
    assert(first_kept(k + 1) == lo + 1);
    assert(h.frames[0] == timestamp_of(states, changed, times, lo));
    assert(h.frames[1] == timestamp_of(states, changed, times, lo + 1));
    assert forall|i: int| 0 <= i < k - (lo + 1) implies #[trigger] hr.frames[i] == timestamp_of(states, changed, times, lo + 1 + i) by {
        assert(hr.frames[i] == h.frames[i + 1]);
    }
    lemma_run_start_bounds(states, changed, lo);
    lemma_run(states, changed, times, lo);
    let r = run_start(states, changed, lo);
    lemma_split(states, changed, r, lo + 1, k);
    if starts_run(states, changed, lo + 1) {
        assert(run_start(states, changed, lo + 1) == lo + 1);
        assert(times[r] < times[lo + 1]);
        match states[lo] {
            Some(t) => {
                assert(hr.components =~= stored_between(states, changed, lo + 1, k));
            },
            None => {
                assert(hr.components =~= stored_between(states, changed, lo + 1, k));
            },
        }
    } else {
        assert(run_start(states, changed, lo + 1) == r);
    }
}

proof fn lemma_recorded<T>(states: Seq<Option<T>>, changed: Seq<bool>, times: Seq<usize>, m: nat)
    requires
        timeline_ok(states, changed, times),
        1 <= m <= states.len(),
    ensures
        records(recorded(states, changed, times, m), states, changed, times, m as int),
        forall|i: nat|
            i < m ==> can_save(retired(#[trigger] recorded(states, changed, times, i)), observation(states, changed, i as int)),
    decreases m,
{
    let k = (m - 1) as int;
    let h = recorded(states, changed, times, k as nat);
    let hr = retired(h);
    let h1 = recorded(states, changed, times, m);
    let lo = first_kept(m as int);
    if k == 0 {
        assert(hr == h);
        assert(h1.frames =~= seq![timestamp_of(states, changed, times, 0)]);
        assert(stored_between(states, changed, 0, 0) =~= Seq::<T>::empty());
        assert(h1.components =~= stored_between(states, changed, 0, 1));
    } else {
        lemma_recorded(states, changed, times, k as nat);
        lemma_run_start_bounds(states, changed, k - 1);
        // what the save sees: the frames from `lo` up to `k`
        if k >= MAX_STORAGE_FRAMES {
            lemma_retire(h, states, changed, times, k);
        } else {
            assert(hr == h);
        }
        assert(hr.frames.len() == k - lo);
        assert(hr.components == stored_between(states, changed, run_start(states, changed, lo), k));
        assert(k - lo >= 1);
        assert(hr.frames.last() == timestamp_of(states, changed, times, k - 1));
        match states[k] {
            Some(t) => {
                if !changed[k] {
                    assert(states[k - 1] == states[k]);
                }
            },
            None => {},
        }
        lemma_run_start_bounds(states, changed, lo);
        assert(h1.frames =~= hr.frames.push(timestamp_of(states, changed, times, k)));
        assert forall|i: int| 0 <= i < m - lo implies #[trigger] h1.frames[i] == timestamp_of(states, changed, times, lo + i) by {
            if i < k - lo {
                assert(h1.frames[i] == hr.frames[i]);
            }
        }
    }
    assert forall|i: nat| i < m implies can_save(retired(#[trigger] recorded(states, changed, times, i)), observation(states, changed, i as int)) by {
    }
}

/// The history after `p` steps back from the initialized recording of all `n` frames: frames
/// `first_kept(n)` up to `c = n - p` are left, and the entity shows frame `min(c, n - 1)`.
spec fn rewinding<T>(h: HistoryView<T>, states: Seq<Option<T>>, changed: Seq<bool>, times: Seq<usize>, c: int) -> bool {
    let n = states.len() as int;
    let lo = first_kept(n);
    let d = if c < n {
        c
    } else {
        n - 1
    };
    &&& h.frames.len() == c - lo
    &&& forall|i: int| 0 <= i < c - lo ==> #[trigger] h.frames[i] == timestamp_of(states, changed, times, lo + i)
    &&& h.rendered_frame == times[run_start(states, changed, d)]
    &&& h.components == stored_between(states, changed, run_start(states, changed, lo), run_start(states, changed, d))
}

proof fn lemma_applied_push<T>(shown: Option<T>, a: Seq<RewindAction<T>>, b: Seq<RewindAction<T>>)
    requires
        b.len() <= 1,
    ensures
        applied(shown, a + b) == if b.len() == 0 {
            applied(shown, a)
        } else {
            match b[0] {
                RewindAction::InsertComponent(t) => Some(t),
                RewindAction::RemoveComponent => None,
                _ => applied(shown, a),
            }
        },
{
    if b.len() == 0 {
        assert(a + b =~= a);
    } else {
        assert((a + b).drop_last() =~= a);
    }
}

/// One step back keeps the rewinding correspondence, and the entity then shows the state of
/// the frame one earlier (the first step only leaves the frame being shown).
proof fn lemma_step<T>(
    h: HistoryView<T>,
    states: Seq<Option<T>>,
    changed: Seq<bool>,
    times: Seq<usize>,
    c: int,
    shown: Option<T>,
    ooh: OutOfHistory,
)
    requires
        timeline_ok(states, changed, times),
        first_kept(states.len() as int) < c <= states.len(),
        rewinding(h, states, changed, times, c),
        shown == states[if c < states.len() {
            c
        } else {
            states.len() - 1
        }],
    ensures
        step_ok(h),
        rewinding(stepped(h), states, changed, times, c - 1),
        applied(shown, step_actions(h, ooh)) == states[c - 1],
        step_actions(h, ooh).len() <= 1,
{
    let n = states.len() as int;
    let lo = first_kept(n);
    let h1 = stepped(h);
    let ts = h.frames.last();
    assert(ts == timestamp_of(states, changed, times, c - 1));
    lemma_run_start_bounds(states, changed, c - 1);
    lemma_run(states, changed, times, c - 1);
    assert(h1.frames =~= h.frames.drop_last());
    assert forall|i: int| 0 <= i < c - 1 - lo implies #[trigger] h1.frames[i] == timestamp_of(states, changed, times, lo + i) by {
        assert(h1.frames[i] == h.frames[i]);
    }
    if c == n {
        assert(ts.frame() == h.rendered_frame);
        assert(step_actions(h, ooh) =~= Seq::<RewindAction<T>>::empty());
    } else {
        lemma_run_start_bounds(states, changed, c);
        if starts_run(states, changed, c) {
            assert(run_start(states, changed, c) == c);
            assert(times[run_start(states, changed, c - 1)] < times[c]);
            lemma_run_start_monotone(states, changed, lo, c - 1);
            let rlo = run_start(states, changed, lo);
            let rc = run_start(states, changed, c - 1);
            lemma_split(states, changed, rlo, rc, c);
            match states[c - 1] {
                Some(t) => {
                    assert(h.components == stored_between(states, changed, rlo, rc).push(t)) by {
                        assert(stored_between(states, changed, rlo, rc) + seq![t] =~= stored_between(states, changed, rlo, rc).push(t));
                    }
                    assert(h.components.last() == t);
                    assert(h1.components =~= stored_between(states, changed, rlo, rc));
                },
                None => {
                    assert(h.components =~= stored_between(states, changed, rlo, rc));
                },
            }
        } else {
            assert(run_start(states, changed, c) == run_start(states, changed, c - 1));
            if states[c] is Some {
                assert(states[c - 1] == states[c]);
            } else {
                assert(states[c - 1] is None);
            }
            assert(step_actions(h, ooh) =~= Seq::<RewindAction<T>>::empty());
        }
    }
}

/// `p` steps back from the initialized recording keep the correspondence, and the entity shows
/// the state of frame `min(n - p, n - 1)`.
proof fn lemma_steps<T>(
    h0: HistoryView<T>,
    states: Seq<Option<T>>,
    changed: Seq<bool>,
    times: Seq<usize>,
    p: nat,
    ooh: OutOfHistory,
)
    requires
        timeline_ok(states, changed, times),
        p <= states.len() - first_kept(states.len() as int),
        rewinding(h0, states, changed, times, states.len() as int),
    ensures
        steps_ok(h0, p),
        rewinding(steps_history(h0, p), states, changed, times, states.len() - p),
        applied(states.last(), steps_actions(h0, ooh, p)) == states[if p == 0 {
            states.len() - 1
        } else {
            states.len() - p
        }],
    decreases p,
{
    if p > 0 {
        let q = (p - 1) as nat;
        lemma_steps(h0, states, changed, times, q, ooh);
        let n = states.len() as int;
        let c = n - q;
        let hq = steps_history(h0, q);
        let shown = applied(states.last(), steps_actions(h0, ooh, q));
        assert(shown == states[if c < n { c } else { n - 1 }]);
        lemma_step(hq, states, changed, times, c, shown, ooh);
        lemma_applied_push(states.last(), steps_actions(h0, ooh, q), step_actions(hq, ooh));
    }
}

/// Applying two runs of actions in turn is applying them one after the other.
proof fn lemma_applied_concat<T>(shown: Option<T>, a: Seq<RewindAction<T>>, b: Seq<RewindAction<T>>)
    ensures
        applied(applied(shown, a), b) == applied(shown, a + b),
    decreases b.len(),
{
    if b.len() > 0 {
        lemma_applied_concat(shown, a, b.drop_last());
        assert((a + b).drop_last() =~= a + b.drop_last());
        assert((a + b).last() == b.last());
    } else {
        assert(a + b =~= a);
    }
}

/// Rewind ticks compose: `a` steps back and then `b` more leave the same history, are defined
/// exactly when `a + b` steps are, and (once applied by the world) show the same component.
pub proof fn law_rewind_ticks_compose<T>(h: HistoryView<T>, ooh: OutOfHistory, a: nat, b: nat, shown: Option<T>)
    ensures
        steps_history(steps_history(h, a), b) == steps_history(h, a + b),
        (steps_ok(h, a) && steps_ok(steps_history(h, a), b)) == steps_ok(h, a + b),
        applied(applied(shown, steps_actions(h, ooh, a)), steps_actions(steps_history(h, a), ooh, b))
            == applied(shown, steps_actions(h, ooh, a + b)),
    decreases b,
{
    if b > 0 {
        let b1 = (b - 1) as nat;
        law_rewind_ticks_compose(h, ooh, a, b1, shown);
        assert((a + b1 + 1) as nat == a + b);
        assert(steps_history(h, a + b) == stepped(steps_history(h, (a + b1) as nat)));
        let ha = steps_history(h, a);
        lemma_applied_concat(applied(shown, steps_actions(h, ooh, a)), steps_actions(ha, ooh, b1), step_actions(steps_history(ha, b1), ooh));
        lemma_applied_concat(shown, steps_actions(h, ooh, (a + b1) as nat), step_actions(steps_history(h, (a + b1) as nat), ooh));
    }
}

/// Rewinding restores what was recorded: record a component's timeline of `n` frames (a
/// history keeps the last `MAX_STORAGE_FRAMES` of them), start a rewind, and run a rewind tick
/// of `fps` steps, with `1 <= fps` and at most the frames kept. Every save and every step is
/// defined, and once the world applies the tick's actions to the component it shows, the entity
/// shows the state recorded at frame `n - fps` (counting from 0): each step goes one frame
/// further back, and the first step leaves the frame being shown.
pub proof fn law_rewind_restores_recorded_states<T>(
    states: Seq<Option<T>>,
    changed: Seq<bool>,
    times: Seq<usize>,
    rewind: Rewind,
    ooh: OutOfHistory,
)
    requires
        timeline_ok(states, changed, times),
        1 <= rewind.fps <= states.len() - first_kept(states.len() as int),
    ensures
        forall|i: nat|
            i < states.len() ==> can_save(
                retired(#[trigger] recorded(states, changed, times, i)),
                observation(states, changed, i as int),
            ),
        steps_ok(initialized(recorded(states, changed, times, states.len())), rewind.fps as nat),
        applied(
            states.last(),
            rewind_actions(initialized(recorded(states, changed, times, states.len())), rewind, ooh),
        ) == states[states.len() - rewind.fps],
{
    let n = states.len() as int;
    let lo = first_kept(n);
    lemma_recorded(states, changed, times, n as nat);
    let h = recorded(states, changed, times, n as nat);
    let h0 = initialized(h);
    lemma_run_start_bounds(states, changed, n - 1);
    lemma_run(states, changed, times, n - 1);
    lemma_run_start_monotone(states, changed, lo, n - 1);
    let rlo = run_start(states, changed, lo);
    let rn = run_start(states, changed, n - 1);
    lemma_split(states, changed, rlo, rn, n);
    assert(h.frames.last() == timestamp_of(states, changed, times, n - 1));
    match states[n - 1] {
        Some(t) => {
            let before = stored_between(states, changed, rlo, rn);
            assert(h.components =~= before.push(t));
            assert(h0.components =~= before);
        },
        None => {
            assert(h0.components =~= stored_between(states, changed, rlo, rn));
        },
    }
    assert(rewinding(h0, states, changed, times, n));
    lemma_steps(h0, states, changed, times, rewind.fps as nat, ooh);
    let a = steps_actions(h0, ooh, rewind.fps as nat);
    if rewind.frames == 0 {
        assert(a.push(RewindAction::RemoveRewind).drop_last() =~= a);
    }
}

} // verus!
