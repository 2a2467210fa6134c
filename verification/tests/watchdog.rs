use aginxbrowser::watchdog::{arm, disarm, watchdog_tick, Disarmed, Slot, WakeAction, Watchdog};

#[test]
fn arm_sets_slot_with_fresh_generation() {
    let mut w = Watchdog::new();
    assert_eq!(w.slot, None);
    let a = arm(&mut w, 100, 50);
    assert_eq!(a.gen, 1);
    assert_eq!(w.slot, Some(Slot { deadline: 150, gen: 1 }));
    let b = arm(&mut w, 200, 10);
    assert_eq!(b.gen, 2);
    assert_eq!(w.gen, 2);
}

#[test]
fn arm_then_disarm_before_deadline() {
    let mut w = Watchdog::new();
    let a = arm(&mut w, 0, 1_000);
    assert_eq!(watchdog_tick(&mut w, 400), WakeAction::WaitFor(600));
    assert_eq!(disarm(&mut w, a), Disarmed { fired: false, cleared: true });
    assert_eq!(w.slot, None);
    assert_eq!(watchdog_tick(&mut w, 5_000), WakeAction::Wait);
}

#[test]
fn overrun_terminates_once_and_disarm_reports_it() {
    let mut w = Watchdog::new();
    let a = arm(&mut w, 10, 5);
    assert_eq!(watchdog_tick(&mut w, 14), WakeAction::WaitFor(1));
    assert_eq!(watchdog_tick(&mut w, 15), WakeAction::Terminate(1));
    assert_eq!(w.slot, None);
    assert_eq!(watchdog_tick(&mut w, 16), WakeAction::Wait);
    assert_eq!(disarm(&mut w, a), Disarmed { fired: true, cleared: false });
    assert!(w.terminated.is_empty());
}

#[test]
fn stale_disarm_keeps_newer_slot() {
    let mut w = Watchdog::new();
    let old = arm(&mut w, 0, 10);
    let new = arm(&mut w, 5, 10);
    assert_eq!(disarm(&mut w, old), Disarmed { fired: false, cleared: false });
    assert_eq!(w.slot, Some(Slot { deadline: 15, gen: 2 }));
    assert_eq!(disarm(&mut w, new), Disarmed { fired: false, cleared: true });
    assert_eq!(w.slot, None);
}

#[test]
fn overlapping_armings_keep_their_own_termination() {
    let mut w = Watchdog::new();
    let first = arm(&mut w, 0, 1);
    assert_eq!(watchdog_tick(&mut w, 1), WakeAction::Terminate(1));
    let second = arm(&mut w, 2, 1);
    assert_eq!(watchdog_tick(&mut w, 3), WakeAction::Terminate(2));
    assert_eq!(disarm(&mut w, first), Disarmed { fired: true, cleared: false });
    assert_eq!(disarm(&mut w, second), Disarmed { fired: true, cleared: false });
}

#[test]
fn zero_budget_is_due_at_once() {
    let mut w = Watchdog::new();
    arm(&mut w, 7, 0);
    assert_eq!(watchdog_tick(&mut w, 7), WakeAction::Terminate(1));
}
