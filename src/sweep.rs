//! The shutdown sweep as a state machine. The caller performs each requested
//! action (a broadcast signal, a lookup, opening or signalling one process
//! handle, the bounded wait) and reports back what came of it as an event;
//! the machine decides what happens next.
use vstd::prelude::*;

use crate::entry::{parse_pid, pid_of};
use crate::outcome::{settle, settle_spec, SweepError};

verus! {

/// Where a sweep stands. The identifier in a candidate phase is the process
/// currently being handled.
#[derive(Clone, Copy, Debug, PartialEq, Eq, Structural)]
pub enum Phase {
    /// Not started.
    Ready,
    /// Waiting for the freeze broadcast to be done.
    Freezing,
    /// Waiting for the next listing entry.
    Scanning,
    /// Waiting to learn whether the candidate is a kernel-owned task.
    Classifying(i32),
    /// Waiting for a handle to the candidate to be opened.
    Opening(i32),
    /// Waiting for the candidate to be signalled through its handle.
    Signaling(i32),
    /// Waiting for the thaw broadcast to be done.
    Thawing,
    /// Waiting for every kept handle to report exit, or the deadline.
    Waiting,
    /// Finished; further events are ignored.
    Done,
}

/// What the caller reports back. Error codes are `errno` values.
#[derive(Debug)]
pub enum Event {
    /// Start the sweep.
    Begin,
    /// Outcome of stopping every process.
    Frozen(Result<(), i32>),
    /// The name of the next process-listing entry.
    Entry(Vec<u8>),
    /// The next listing entry could not be read.
    EntryUnreadable,
    /// The listing has no more entries, or could not be read at all.
    ListingEnd,
    /// Whether the candidate is a kernel-owned task; `None` when that could
    /// not be determined.
    KernelOwned(Option<bool>),
    /// Outcome of opening a handle to the candidate.
    Opened(Result<(), i32>),
    /// Outcome of signalling the candidate through its handle.
    Signaled(Result<(), i32>),
    /// Outcome of letting every process continue.
    Thawed(Result<(), i32>),
    /// The deadline elapsed before every wait completed.
    WaitTimedOut,
    /// Every wait completed in time; one result per kept handle, in the
    /// order in which the handles were kept.
    WaitFinished(Vec<Result<(), i32>>),
}

/// An event as the contracts see it.
pub enum EventView {
    Begin,
    Frozen(Result<(), i32>),
    Entry(Seq<u8>),
    EntryUnreadable,
    ListingEnd,
    KernelOwned(Option<bool>),
    Opened(Result<(), i32>),
    Signaled(Result<(), i32>),
    Thawed(Result<(), i32>),
    WaitTimedOut,
    WaitFinished(Seq<Result<(), i32>>),
}

impl View for Event {
    type V = EventView;

    open spec fn view(&self) -> EventView {
        match self {
            Event::Begin => EventView::Begin,
            Event::Frozen(r) => EventView::Frozen(*r),
            Event::Entry(name) => EventView::Entry(name@),
            Event::EntryUnreadable => EventView::EntryUnreadable,
            Event::ListingEnd => EventView::ListingEnd,
            Event::KernelOwned(k) => EventView::KernelOwned(*k),
            Event::Opened(r) => EventView::Opened(*r),
            Event::Signaled(r) => EventView::Signaled(*r),
            Event::Thawed(r) => EventView::Thawed(*r),
            Event::WaitTimedOut => EventView::WaitTimedOut,
            Event::WaitFinished(rs) => EventView::WaitFinished(rs@),
        }
    }
}

/// What the machine asks of the caller.
#[derive(Clone, Copy, Debug, PartialEq, Eq)]
pub enum Action {
    /// Stop every process, then report `Frozen`.
    Freeze,
    /// Release the handle of the current candidate, if one was opened, and
    /// report the next listing entry (or `ListingEnd`).
    NextEntry,
    /// Find out whether this process is a kernel-owned task, then report
    /// `KernelOwned`.
    CheckKernelOwned(i32),
    /// Open a handle to this process, then report `Opened`.
    Open(i32),
    /// Send the termination signal through the handle just opened to this
    /// process, then report `Signaled`.
    Signal(i32),
    /// Keep the handle just signalled for the wait phase, then report the
    /// next listing entry (or `ListingEnd`).
    Keep,
    /// Let every process continue, then report `Thawed`.
    Thaw,
    /// Wait on every kept handle under the one deadline, then report
    /// `WaitFinished` or `WaitTimedOut`.
    AwaitAll,
    /// The sweep is over, with this outcome.
    Finish(Result<(), SweepError>),
    /// The event does not fit the current phase; nothing changed.
    Ignored,
}

/// One termination sweep: the root identifier it spares, where it stands,
/// and the identifiers whose handles it keeps for the wait phase.
pub struct Sweep {
    root: i32,
    phase: Phase,
    kept: Vec<i32>,
}

/// A sweep as the contracts see it.
pub struct SweepView {
    pub root: i32,
    pub phase: Phase,
    pub kept: Seq<i32>,
}

impl View for Sweep {
    type V = SweepView;

    closed spec fn view(&self) -> SweepView {
        SweepView { root: self.root, phase: self.phase, kept: self.kept@ }
    }
}

/// A sweep that spares `root` and has not started.
pub open spec fn initial(root: i32) -> SweepView {
    SweepView { root, phase: Phase::Ready, kept: Seq::empty() }
}

/// `s` in phase `phase`, with its root and kept handles as they were.
pub open spec fn moved(s: SweepView, phase: Phase) -> SweepView {
    SweepView { phase, ..s }
}

/// The decision for a listing entry while scanning.
pub open spec fn on_entry(s: SweepView, name: Seq<u8>) -> (SweepView, Action) {
    match pid_of(name) {
        Some(p) => if p != s.root {
            (moved(s, Phase::Classifying(p)), Action::CheckKernelOwned(p))
        } else {
            (s, Action::NextEntry)
        },
        None => (s, Action::NextEntry),
    }
}

/// The transition taken on event `e` in state `s`, with the action it asks
/// for.
pub open spec fn next(s: SweepView, e: EventView) -> (SweepView, Action) {
    match s.phase {
        Phase::Ready => match e {
            EventView::Begin => (moved(s, Phase::Freezing), Action::Freeze),
            _ => (s, Action::Ignored),
        },
        Phase::Freezing => match e {
            EventView::Frozen(Ok(())) => (moved(s, Phase::Scanning), Action::NextEntry),
            EventView::Frozen(Err(c)) => (
                moved(s, Phase::Done),
                Action::Finish(Err(SweepError::Freeze(c))),
            ),
            _ => (s, Action::Ignored),
        },
        Phase::Scanning => match e {
            EventView::Entry(name) => on_entry(s, name),
            EventView::EntryUnreadable => (s, Action::NextEntry),
            EventView::ListingEnd => (moved(s, Phase::Thawing), Action::Thaw),
            _ => (s, Action::Ignored),
        },
        Phase::Classifying(p) => match e {
            EventView::KernelOwned(k) => if k == Some(false) {
                (moved(s, Phase::Opening(p)), Action::Open(p))
            } else {
                (moved(s, Phase::Scanning), Action::NextEntry)
            },
            _ => (s, Action::Ignored),
        },
        Phase::Opening(p) => match e {
            EventView::Opened(Ok(())) => (moved(s, Phase::Signaling(p)), Action::Signal(p)),
            EventView::Opened(Err(_)) => (moved(s, Phase::Scanning), Action::NextEntry),
            _ => (s, Action::Ignored),
        },
        Phase::Signaling(p) => match e {
            EventView::Signaled(Ok(())) => (
                SweepView { phase: Phase::Scanning, kept: s.kept.push(p), ..s },
                Action::Keep,
            ),
            EventView::Signaled(Err(_)) => (moved(s, Phase::Scanning), Action::NextEntry),
            _ => (s, Action::Ignored),
        },
        Phase::Thawing => match e {
            EventView::Thawed(Ok(())) => (moved(s, Phase::Waiting), Action::AwaitAll),
            EventView::Thawed(Err(c)) => (
                moved(s, Phase::Done),
                Action::Finish(Err(SweepError::Thaw(c))),
            ),
            _ => (s, Action::Ignored),
        },
        Phase::Waiting => match e {
            EventView::WaitTimedOut => (
                moved(s, Phase::Done),
                Action::Finish(Err(SweepError::Timeout)),
            ),
            EventView::WaitFinished(rs) => (moved(s, Phase::Done), Action::Finish(settle_spec(rs))),
            _ => (s, Action::Ignored),
        },
        Phase::Done => (s, Action::Ignored),
    }
}

impl Sweep {
    /// A sweep that will spare the process `root`.
    pub fn new(root: i32) -> (r: Sweep)
        ensures
            r@ == initial(root),
    {
        Sweep { root, phase: Phase::Ready, kept: Vec::new() }
    }

    /// The identifier this sweep never signals.
    pub fn root(&self) -> (r: i32)
        ensures
            r == self@.root,
    {
        self.root
    }

    /// Where the sweep stands.
    pub fn phase(&self) -> (r: Phase)
        ensures
            r == self@.phase,
    {
        self.phase
    }

    /// The identifiers whose handles are kept for the wait phase, in the
    /// order they were kept.
    pub fn kept(&self) -> (r: &Vec<i32>)
        ensures
            r@ == self@.kept,
    {
        &self.kept
    }

    /// Takes in what came of the last action and returns the next one.
    pub fn step(&mut self, ev: Event) -> (a: Action)
        ensures
            (final(self)@, a) == next(old(self)@, ev@),
    {
        match self.phase {
            Phase::Ready => match ev {
                Event::Begin => {
                    self.phase = Phase::Freezing;
                    Action::Freeze
                },
                _ => Action::Ignored,
            },
            Phase::Freezing => match ev {
                Event::Frozen(Ok(())) => {
                    self.phase = Phase::Scanning;
                    Action::NextEntry
                },
                Event::Frozen(Err(c)) => {
                    self.phase = Phase::Done;
                    Action::Finish(Err(SweepError::Freeze(c)))
                },
                _ => Action::Ignored,
            },
            Phase::Scanning => match ev {
                Event::Entry(name) => match parse_pid(name.as_slice()) {
                    Some(p) => if p != self.root {
                        self.phase = Phase::Classifying(p);
                        Action::CheckKernelOwned(p)
                    } else {
                        Action::NextEntry
                    },
                    None => Action::NextEntry,
                },
                Event::EntryUnreadable => Action::NextEntry,
                Event::ListingEnd => {
                    self.phase = Phase::Thawing;
                    Action::Thaw
                },
                _ => Action::Ignored,
            },
            Phase::Classifying(p) => match ev {
                Event::KernelOwned(Some(false)) => {
                    self.phase = Phase::Opening(p);
                    Action::Open(p)
                },
                Event::KernelOwned(_) => {
                    self.phase = Phase::Scanning;
                    Action::NextEntry
                },
                _ => Action::Ignored,
            },
            Phase::Opening(p) => match ev {
                Event::Opened(Ok(())) => {
                    self.phase = Phase::Signaling(p);
                    Action::Signal(p)
                },
                Event::Opened(Err(_)) => {
                    self.phase = Phase::Scanning;
                    Action::NextEntry
                },
                _ => Action::Ignored,
            },
            Phase::Signaling(p) => match ev {
                Event::Signaled(Ok(())) => {
                    self.phase = Phase::Scanning;
                    self.kept.push(p);
                    Action::Keep
                },
                Event::Signaled(Err(_)) => {
                    self.phase = Phase::Scanning;
                    Action::NextEntry
                },
                _ => Action::Ignored,
            },
            Phase::Thawing => match ev {
                Event::Thawed(Ok(())) => {
                    self.phase = Phase::Waiting;
                    Action::AwaitAll
                },
                Event::Thawed(Err(c)) => {
                    self.phase = Phase::Done;
                    Action::Finish(Err(SweepError::Thaw(c)))
                },
                _ => Action::Ignored,
            },
            Phase::Waiting => match ev {
                Event::WaitTimedOut => {
                    self.phase = Phase::Done;
                    Action::Finish(Err(SweepError::Timeout))
                },
                Event::WaitFinished(rs) => {
                    self.phase = Phase::Done;
                    Action::Finish(settle(&rs))
                },
                _ => Action::Ignored,
            },
            Phase::Done => Action::Ignored,
        }
    }
}

} // verus!
