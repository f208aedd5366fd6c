//! What holds of every sweep, whatever the caller reports: the laws are
//! stated over `run`, the actions that a fresh sweep asks for in answer to a
//! sequence of events, one action per event.
use vstd::prelude::*;

use crate::entry::pid_of;
use crate::outcome::{first_failure, SweepError};
use crate::sweep::{initial, next, Action, EventView, Phase, SweepView};

verus! {

/// The state reached and the actions asked for when a fresh sweep sparing
/// `root` takes in `events` in order.
pub open spec fn run(root: i32, events: Seq<EventView>) -> (SweepView, Seq<Action>)
    decreases events.len(),
{
    if events.len() == 0 {
        (initial(root), Seq::empty())
    } else {
        let prev = run(root, events.drop_last());
        let step = next(prev.0, events.last());
        (step.0, prev.1.push(step.1))
    }
}

/// Whether `a` opens, signals or inspects the process `p`.
pub open spec fn targets(a: Action, p: i32) -> bool {
    a == Action::CheckKernelOwned(p) || a == Action::Open(p) || a == Action::Signal(p)
}

/// How far a sweep has come: not started, freezing, scanning candidates,
/// thawing, waiting, done.
pub open spec fn stage(p: Phase) -> int {
    match p {
        Phase::Ready => 0,
        Phase::Freezing => 1,
        Phase::Thawing => 3,
        Phase::Waiting => 4,
        Phase::Done => 5,
        _ => 2,
    }
}

/// The candidate a phase is handling, if any.
pub open spec fn candidate(p: Phase) -> Option<i32> {
    match p {
        Phase::Classifying(c) => Some(c),
        Phase::Opening(c) => Some(c),
        Phase::Signaling(c) => Some(c),
        _ => None,
    }
}

spec fn spares_root(root: i32, s: SweepView, acts: Seq<Action>) -> bool {
    &&& s.root == root
    &&& candidate(s.phase) != Some(root)
    &&& forall|k: int| 0 <= k < s.kept.len() ==> #[trigger] s.kept[k] != root
    &&& forall|i: int| 0 <= i < acts.len() ==> !targets(#[trigger] acts[i], root)
}

proof fn lemma_spares_root(root: i32, events: Seq<EventView>)
    ensures
        run(root, events).1.len() == events.len(),
        spares_root(root, run(root, events).0, run(root, events).1),
    decreases events.len(),
{
    if events.len() > 0 {
        let prev = run(root, events.drop_last());
        lemma_spares_root(root, events.drop_last());
        let step = next(prev.0, events.last());
        let acts = prev.1.push(step.1);
        assert forall|i: int| 0 <= i < acts.len() implies !targets(#[trigger] acts[i], root) by {
            if i < prev.1.len() {
                assert(acts[i] == prev.1[i]);
            }
        }
        assert forall|k: int| 0 <= k < step.0.kept.len() implies #[trigger] step.0.kept[k]
            != root by {
            if k < prev.0.kept.len() {
                assert(step.0.kept[k] == prev.0.kept[k]);
            }
        }
    }
}

/// The root process is never inspected, opened or signalled, and its handle
/// is never kept for the wait phase, whatever the listing holds.
pub proof fn lemma_root_never_targeted(root: i32, events: Seq<EventView>)
    ensures
        forall|i: int|
            0 <= i < run(root, events).1.len() ==> !targets(#[trigger] run(root, events).1[i], root),
        !run(root, events).0.kept.contains(root),
{
    lemma_spares_root(root, events);
}

proof fn lemma_stage_of_step(s: SweepView, e: EventView)
    ensures
        stage(next(s, e).0.phase) >= stage(s.phase),
        next(s, e).1 == Action::Freeze ==> stage(s.phase) == 0 && stage(next(s, e).0.phase) == 1,
        next(s, e).1 == Action::Thaw ==> stage(s.phase) == 2 && stage(next(s, e).0.phase) == 3,
        next(s, e).1 is Open || next(s, e).1 is Signal ==> stage(s.phase) == 2,
        next(s, e).1 is Finish && stage(s.phase) == 1 ==> next(s, e).1->Finish_0 == Err::<
            (),
            SweepError,
        >(SweepError::Freeze(e->Frozen_0->Err_0)),
        next(s, e).1 is Finish ==> 1 <= stage(s.phase) && stage(s.phase) != 2,
{
}

/// Whether `a` reports an outcome other than a failed freeze.
pub open spec fn finishes_after_freeze(a: Action) -> bool {
    a is Finish && !(a->Finish_0 is Err && a->Finish_0->Err_0 is Freeze)
}

spec fn ordered(s: SweepView, acts: Seq<Action>) -> bool {
    &&& stage(s.phase) >= 1 ==> exists|i: int| 0 <= i < acts.len() && acts[i] == Action::Freeze
    &&& forall|i: int| 0 <= i < acts.len() && acts[i] == Action::Thaw ==> stage(s.phase) >= 3
    &&& 3 <= stage(s.phase) <= 4 ==> exists|i: int|
        0 <= i < acts.len() && acts[i] == Action::Thaw
    &&& forall|j: int|
        0 <= j < acts.len() && (#[trigger] acts[j] is Signal || acts[j] is Open) ==> exists|i: int|
            0 <= i < j && acts[i] == Action::Freeze
    &&& forall|i: int, j: int|
        #![trigger acts[i], acts[j]]
        0 <= i < j < acts.len() && acts[i] == Action::Thaw ==> !(acts[j] is Signal) && !(
        acts[j] is Open)
    &&& forall|j: int|
        0 <= j < acts.len() && finishes_after_freeze(#[trigger] acts[j]) ==> exists|i: int|
            0 <= i < j && acts[i] == Action::Thaw
}

proof fn lemma_ordered(root: i32, events: Seq<EventView>)
    ensures
        ordered(run(root, events).0, run(root, events).1),
    decreases events.len(),
{
    if events.len() > 0 {
        let prev = run(root, events.drop_last());
        lemma_ordered(root, events.drop_last());
        lemma_spares_root(root, events.drop_last());
        let e = events.last();
        let step = next(prev.0, e);
        lemma_stage_of_step(prev.0, e);
        let acts = prev.1.push(step.1);
        let n = prev.1.len() as int;
        assert(acts[n] == step.1);
        assert forall|i: int| 0 <= i < n implies acts[i] == prev.1[i] by {}
        if stage(step.0.phase) >= 1 {
            if stage(prev.0.phase) >= 1 {
                let w = choose|i: int| 0 <= i < prev.1.len() && prev.1[i] == Action::Freeze;
                assert(acts[w] == Action::Freeze);
            } else {
                assert(acts[n] == Action::Freeze);
            }
        }
        if 3 <= stage(step.0.phase) <= 4 {
            if 3 <= stage(prev.0.phase) {
                let w = choose|i: int| 0 <= i < prev.1.len() && prev.1[i] == Action::Thaw;
                assert(acts[w] == Action::Thaw);
            } else {
                assert(acts[n] == Action::Thaw);
            }
        }
        assert forall|j: int|
            0 <= j < acts.len() && (#[trigger] acts[j] is Signal || acts[j] is Open) implies exists|
            i: int,
        | 0 <= i < j && acts[i] == Action::Freeze by {
            if j == n {
                let w = choose|i: int| 0 <= i < prev.1.len() && prev.1[i] == Action::Freeze;
                assert(acts[w] == Action::Freeze);
            } else {
                assert(acts[j] == prev.1[j]);
                let w = choose|i: int| 0 <= i < j && prev.1[i] == Action::Freeze;
                assert(acts[w] == Action::Freeze);
            }
        }
        assert forall|i: int, j: int|
            #![trigger acts[i], acts[j]]
            0 <= i < j < acts.len() && acts[i] == Action::Thaw implies !(acts[j] is Signal) && !(
            acts[j] is Open) by {
            assert(acts[i] == prev.1[i]);
            if j < n {
                assert(acts[j] == prev.1[j]);
            }
        }
        assert forall|j: int|
            0 <= j < acts.len() && finishes_after_freeze(#[trigger] acts[j]) implies exists|i: int|
            0 <= i < j && acts[i] == Action::Thaw by {
            if j == n {
                let w = choose|i: int| 0 <= i < prev.1.len() && prev.1[i] == Action::Thaw;
                assert(acts[w] == Action::Thaw);
            } else {
                assert(acts[j] == prev.1[j]);
                let w = choose|i: int| 0 <= i < j && prev.1[i] == Action::Thaw;
                assert(acts[w] == Action::Thaw);
            }
        }
    }
}

/// Freeze comes before any open or signal; no open or signal comes after the
/// thaw; and a sweep that got past the freeze has thawed before it reports
/// any outcome, whatever became of the candidates in between.
pub proof fn lemma_freeze_signal_thaw_order(root: i32, events: Seq<EventView>)
    ensures
        forall|j: int|
            0 <= j < run(root, events).1.len() && (#[trigger] run(root, events).1[j] is Signal
                || run(root, events).1[j] is Open) ==> exists|i: int|
                0 <= i < j && run(root, events).1[i] == Action::Freeze,
        forall|i: int, j: int|
            #![trigger run(root, events).1[i], run(root, events).1[j]]
            0 <= i < j < run(root, events).1.len() && run(root, events).1[i] == Action::Thaw
                ==> !(run(root, events).1[j] is Signal) && !(run(root, events).1[j] is Open),
        forall|j: int|
            0 <= j < run(root, events).1.len() && finishes_after_freeze(
                #[trigger] run(root, events).1[j],
            ) ==> exists|i: int| 0 <= i < j && run(root, events).1[i] == Action::Thaw,
{
    lemma_ordered(root, events);
}

/// Whether the `i`-th event reported the process as not kernel-owned and
/// the sweep answered by opening a handle to `p`.
pub open spec fn opened_after_check(acts: Seq<Action>, events: Seq<EventView>, i: int, p: i32) -> bool {
    &&& acts[i] == Action::Open(p)
    &&& events[i] == EventView::KernelOwned(Some(false))
}

/// Whether some event of the trace reported `p` as not kernel-owned and the
/// sweep answered by opening a handle to it.
pub open spec fn checked_open(acts: Seq<Action>, events: Seq<EventView>, p: i32) -> bool {
    exists|i: int| 0 <= i < acts.len() && opened_after_check(acts, events, i, p)
}

spec fn vetted(s: SweepView, acts: Seq<Action>, events: Seq<EventView>) -> bool {
    &&& forall|p: i32|
        s.phase == Phase::Opening(p) || s.phase == Phase::Signaling(p) ==> checked_open(
            acts,
            events,
            p,
        )
    &&& forall|k: int| 0 <= k < s.kept.len() ==> checked_open(acts, events, #[trigger] s.kept[k])
    &&& forall|i: int|
        0 <= i < acts.len() && (#[trigger] acts[i] is Open) ==> events[i]
            == EventView::KernelOwned(Some(false))
    &&& forall|j: int|
        0 <= j < acts.len() && (#[trigger] acts[j] is Signal) ==> checked_open(
            acts.take(j),
            events,
            acts[j]->Signal_0,
        )
}

proof fn lemma_checked_open_grows(acts: Seq<Action>, events: Seq<EventView>, m: int, p: i32)
    requires
        checked_open(acts.take(m), events, p),
        0 <= m <= acts.len(),
    ensures
        checked_open(acts, events, p),
{
    let w = choose|i: int| 0 <= i < acts.take(m).len() && opened_after_check(acts.take(m), events, i, p);
    assert(opened_after_check(acts, events, w, p));
}

proof fn lemma_vetted(root: i32, events: Seq<EventView>)
    ensures
        vetted(run(root, events).0, run(root, events).1, events),
    decreases events.len(),
{
    if events.len() > 0 {
        let pe = events.drop_last();
        let prev = run(root, pe);
        lemma_vetted(root, pe);
        lemma_spares_root(root, pe);
        let e = events.last();
        let step = next(prev.0, e);
        let acts = prev.1.push(step.1);
        let n = prev.1.len() as int;
        assert(run(root, events) == (step.0, acts));
        assert(acts[n] == step.1);
        assert(events[n] == e);
        assert(acts.take(n) =~= prev.1);
        assert forall|m: int, p: i32|
            0 <= m <= n && #[trigger] checked_open(prev.1.take(m), pe, p) implies checked_open(
            acts.take(m),
            events,
            p,
        ) by {
            let w = choose|i: int|
                0 <= i < prev.1.take(m).len() && opened_after_check(prev.1.take(m), pe, i, p);
            assert(acts.take(m)[w] == prev.1[w]);
            assert(events[w] == pe[w]);
            assert(opened_after_check(acts.take(m), events, w, p));
        }
        assert(prev.1.take(n) =~= prev.1);
        assert forall|p: i32|
            step.0.phase == Phase::Opening(p) || step.0.phase == Phase::Signaling(p) implies checked_open(
            acts,
            events,
            p,
        ) by {
            if prev.0.phase == Phase::Opening(p) || prev.0.phase == Phase::Signaling(p) {
                assert(checked_open(prev.1.take(n), pe, p));
                lemma_checked_open_grows(acts, events, n, p);
            } else {
                assert(opened_after_check(acts, events, n, p));
            }
        }
        assert forall|k: int| 0 <= k < step.0.kept.len() implies checked_open(
            acts,
            events,
            #[trigger] step.0.kept[k],
        ) by {
            let p = step.0.kept[k];
            if k < prev.0.kept.len() {
                assert(step.0.kept[k] == prev.0.kept[k]);
            } else {
                assert(prev.0.phase == Phase::Signaling(p));
            }
            assert(checked_open(prev.1.take(n), pe, p));
            lemma_checked_open_grows(acts, events, n, p);
        }
        assert forall|i: int|
            0 <= i < acts.len() && (#[trigger] acts[i] is Open) implies events[i]
            == EventView::KernelOwned(Some(false)) by {
            if i < n {
                assert(acts[i] == prev.1[i]);
                assert(events[i] == pe[i]);
            }
        }
        assert forall|j: int|
            0 <= j < acts.len() && (#[trigger] acts[j] is Signal) implies checked_open(
            acts.take(j),
            events,
            acts[j]->Signal_0,
        ) by {
            let p = acts[j]->Signal_0;
            if j == n {
                assert(prev.0.phase == Phase::Opening(p));
                assert(checked_open(prev.1.take(n), pe, p));
            } else {
                assert(acts[j] == prev.1[j]);
                assert(checked_open(prev.1.take(j), pe, p));
            }
        }
    }
}

/// A handle is opened only in answer to a report that the process is not
/// kernel-owned; every signal goes through a handle opened that way; and
/// every handle kept for the wait phase was opened that way. A process
/// reported as kernel-owned, or whose kind could not be determined, is
/// neither opened, signalled nor waited on.
pub proof fn lemma_kernel_owned_never_opened(root: i32, events: Seq<EventView>)
    ensures
        run(root, events).1.len() == events.len(),
        forall|i: int|
            0 <= i < run(root, events).1.len() && (#[trigger] run(root, events).1[i] is Open)
                ==> events[i] == EventView::KernelOwned(Some(false)),
        forall|j: int|
            0 <= j < run(root, events).1.len() && (#[trigger] run(root, events).1[j] is Signal)
                ==> checked_open(
                run(root, events).1.take(j),
                events,
                run(root, events).1[j]->Signal_0,
            ),
        forall|k: int|
            0 <= k < run(root, events).0.kept.len() ==> checked_open(
                run(root, events).1,
                events,
                #[trigger] run(root, events).0.kept[k],
            ),
{
    lemma_spares_root(root, events);
    lemma_vetted(root, events);
}

/// Whether `e` reports that the candidate handled in phase `p` cannot be
/// taken further: its entry is unreadable or names no process (or the root),
/// it is kernel-owned or its kind is unknown, or opening or signalling its
/// handle failed.
pub open spec fn candidate_dropped(root: i32, p: Phase, e: EventView) -> bool {
    match p {
        Phase::Scanning => match e {
            EventView::EntryUnreadable => true,
            EventView::Entry(name) => pid_of(name) is None || pid_of(name) == Some(root),
            _ => false,
        },
        Phase::Classifying(_) => e is KernelOwned && e != EventView::KernelOwned(Some(false)),
        Phase::Opening(_) => e is Opened && e->Opened_0 is Err,
        Phase::Signaling(_) => e is Signaled && e->Signaled_0 is Err,
        _ => false,
    }
}

/// A candidate that cannot be taken further is dropped and the scan goes on
/// with the next entry, keeping what it kept; and the scan of the listing
/// ends only when the listing does, always by a thaw.
pub proof fn lemma_candidate_failure_isolated(s: SweepView, e: EventView)
    requires
        stage(s.phase) == 2,
    ensures
        candidate_dropped(s.root, s.phase, e) ==> next(s, e) == (
        SweepView { phase: Phase::Scanning, ..s },
        Action::NextEntry,
        ),
        stage(next(s, e).0.phase) == 2 || next(s, e).1 == Action::Thaw,
        next(s, e).1 == Action::Thaw <==> s.phase == Phase::Scanning && e == EventView::ListingEnd,
{
}

/// When every wait completed before the deadline without failure, the sweep
/// succeeds.
pub proof fn lemma_all_exited_succeeds(s: SweepView, results: Seq<Result<(), i32>>)
    requires
        s.phase == Phase::Waiting,
        forall|i: int| 0 <= i < results.len() ==> (#[trigger] results[i]) is Ok,
    ensures
        next(s, EventView::WaitFinished(results)).1 == Action::Finish(Ok(())),
{
    lemma_no_failure(results);
}

proof fn lemma_no_failure(results: Seq<Result<(), i32>>)
    requires
        forall|i: int| 0 <= i < results.len() ==> (#[trigger] results[i]) is Ok,
    ensures
        first_failure(results) is None,
    decreases results.len(),
{
    if results.len() > 0 {
        let tail = results.drop_first();
        assert forall|i: int| 0 <= i < tail.len() implies (#[trigger] tail[i]) is Ok by {
            assert(tail[i] == results[i + 1]);
        }
        lemma_no_failure(tail);
    }
}

/// When the deadline elapses before every wait completed, the sweep fails
/// with a timeout and never reports success.
pub proof fn lemma_deadline_fails(s: SweepView)
    requires
        s.phase == Phase::Waiting,
    ensures
        next(s, EventView::WaitTimedOut).1 == Action::Finish(Err(SweepError::Timeout)),
{
}

} // verus!
