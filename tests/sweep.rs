use pidsweep::entry::{parse_pid, INIT_PID};
use pidsweep::outcome::{settle, SweepError};
use pidsweep::sweep::{Action, Event, Phase, Sweep};

fn drive(sweep: &mut Sweep, events: Vec<Event>) -> Vec<Action> {
    let mut actions = Vec::new();
    for e in events {
        actions.push(sweep.step(e));
    }
    actions
}

fn entry(name: &str) -> Event {
    Event::Entry(name.as_bytes().to_vec())
}

fn started(sweep: &mut Sweep) {
    assert_eq!(sweep.step(Event::Begin), Action::Freeze);
    assert_eq!(sweep.step(Event::Frozen(Ok(()))), Action::NextEntry);
}

#[test]
fn parse_pid_reads_plain_decimal() {
    assert_eq!(parse_pid(b"42"), Some(42));
    assert_eq!(parse_pid(b"1"), Some(1));
    assert_eq!(parse_pid(b"2147483647"), Some(2147483647));
    assert_eq!(parse_pid(b"007"), Some(7));
}

#[test]
fn parse_pid_rejects_other_names() {
    assert_eq!(parse_pid(b""), None);
    assert_eq!(parse_pid(b"self"), None);
    assert_eq!(parse_pid(b"12a"), None);
    assert_eq!(parse_pid(b"-3"), None);
    assert_eq!(parse_pid(b"0"), None);
    assert_eq!(parse_pid(b"2147483648"), None);
    assert_eq!(parse_pid(b"99999999999999999999"), None);
}

#[test]
fn settle_reports_first_failure() {
    assert_eq!(settle(&vec![]), Ok(()));
    assert_eq!(settle(&vec![Ok(()), Ok(())]), Ok(()));
    assert_eq!(settle(&vec![Ok(()), Err(4), Err(9)]), Err(SweepError::Wait(4)));
}

#[test]
fn scenario_root_and_kernel_task_skipped() {
    let mut s = Sweep::new(INIT_PID);
    let actions = drive(
        &mut s,
        vec![
            Event::Begin,
            Event::Frozen(Ok(())),
            entry("2"),
            Event::KernelOwned(Some(false)),
            Event::Opened(Ok(())),
            Event::Signaled(Ok(())),
            entry("7"),
            Event::KernelOwned(Some(true)),
            entry("1"),
            entry("42"),
            Event::KernelOwned(Some(false)),
            Event::Opened(Ok(())),
            Event::Signaled(Ok(())),
            Event::ListingEnd,
            Event::Thawed(Ok(())),
            Event::WaitFinished(vec![Ok(()), Ok(())]),
        ],
    );
    assert_eq!(
        actions,
        vec![
            Action::Freeze,
            Action::NextEntry,
            Action::CheckKernelOwned(2),
            Action::Open(2),
            Action::Signal(2),
            Action::Keep,
            Action::CheckKernelOwned(7),
            Action::NextEntry,
            Action::NextEntry,
            Action::CheckKernelOwned(42),
            Action::Open(42),
            Action::Signal(42),
            Action::Keep,
            Action::Thaw,
            Action::AwaitAll,
            Action::Finish(Ok(())),
        ]
    );
    assert_eq!(s.kept(), &vec![2, 42]);
    assert_eq!(s.phase(), Phase::Done);
}

#[test]
fn scenario_open_failure_is_skipped() {
    let mut s = Sweep::new(INIT_PID);
    let actions = drive(
        &mut s,
        vec![
            Event::Begin,
            Event::Frozen(Ok(())),
            entry("5"),
            Event::KernelOwned(Some(false)),
            Event::Opened(Err(3)),
            entry("6"),
            Event::KernelOwned(Some(false)),
            Event::Opened(Ok(())),
            Event::Signaled(Ok(())),
            Event::ListingEnd,
            Event::Thawed(Ok(())),
            Event::WaitFinished(vec![Ok(())]),
        ],
    );
    assert_eq!(actions[4], Action::NextEntry);
    assert_eq!(actions[5], Action::CheckKernelOwned(6));
    assert_eq!(*actions.last().unwrap(), Action::Finish(Ok(())));
    assert_eq!(s.kept(), &vec![6]);
}

#[test]
fn root_is_never_inspected() {
    let mut s = Sweep::new(9);
    started(&mut s);
    assert_eq!(s.step(entry("9")), Action::NextEntry);
    assert_eq!(s.step(entry("1")), Action::CheckKernelOwned(1));
    assert_eq!(s.root(), 9);
}

#[test]
fn unknown_kind_is_not_opened() {
    let mut s = Sweep::new(INIT_PID);
    started(&mut s);
    assert_eq!(s.step(entry("3")), Action::CheckKernelOwned(3));
    assert_eq!(s.step(Event::KernelOwned(None)), Action::NextEntry);
    assert_eq!(s.phase(), Phase::Scanning);
    assert!(s.kept().is_empty());
}

#[test]
fn signal_failure_drops_candidate_and_scan_goes_on() {
    let mut s = Sweep::new(INIT_PID);
    started(&mut s);
    s.step(entry("3"));
    s.step(Event::KernelOwned(Some(false)));
    assert_eq!(s.step(Event::Opened(Ok(()))), Action::Signal(3));
    assert_eq!(s.step(Event::Signaled(Err(3))), Action::NextEntry);
    assert_eq!(s.step(Event::EntryUnreadable), Action::NextEntry);
    assert_eq!(s.step(entry("self")), Action::NextEntry);
    assert_eq!(s.step(Event::ListingEnd), Action::Thaw);
    assert!(s.kept().is_empty());
}

#[test]
fn freeze_failure_ends_sweep_at_once() {
    let mut s = Sweep::new(INIT_PID);
    s.step(Event::Begin);
    assert_eq!(s.step(Event::Frozen(Err(1))), Action::Finish(Err(SweepError::Freeze(1))));
    assert_eq!(s.step(entry("2")), Action::Ignored);
    assert_eq!(s.phase(), Phase::Done);
}

#[test]
fn thaw_failure_is_fatal() {
    let mut s = Sweep::new(INIT_PID);
    started(&mut s);
    assert_eq!(s.step(Event::ListingEnd), Action::Thaw);
    assert_eq!(s.step(Event::Thawed(Err(1))), Action::Finish(Err(SweepError::Thaw(1))));
}

#[test]
fn deadline_elapsed_is_timeout() {
    let mut s = Sweep::new(INIT_PID);
    started(&mut s);
    s.step(entry("2"));
    s.step(Event::KernelOwned(Some(false)));
    s.step(Event::Opened(Ok(())));
    s.step(Event::Signaled(Ok(())));
    s.step(Event::ListingEnd);
    assert_eq!(s.step(Event::Thawed(Ok(()))), Action::AwaitAll);
    assert_eq!(s.step(Event::WaitTimedOut), Action::Finish(Err(SweepError::Timeout)));
}

#[test]
fn wait_error_is_reported() {
    let mut s = Sweep::new(INIT_PID);
    started(&mut s);
    s.step(Event::ListingEnd);
    s.step(Event::Thawed(Ok(())));
    assert_eq!(
        s.step(Event::WaitFinished(vec![Ok(()), Err(5), Err(6)])),
        Action::Finish(Err(SweepError::Wait(5)))
    );
}

#[test]
fn events_out_of_turn_are_ignored() {
    let mut s = Sweep::new(INIT_PID);
    assert_eq!(s.step(Event::ListingEnd), Action::Ignored);
    assert_eq!(s.phase(), Phase::Ready);
    started(&mut s);
    assert_eq!(s.step(Event::Opened(Ok(()))), Action::Ignored);
    assert_eq!(s.phase(), Phase::Scanning);
}
