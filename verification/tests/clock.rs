use s2n_quic_sync::clock::{FastWakeup, SleepAction, TimerPoll, TimerState, WakeupPoll};

#[test]
fn fast_wakeup_fires_then_cools_down() {
    let mut w = FastWakeup::Idle;
    assert_eq!(w.poll(), WakeupPoll::Pending);
    w.enable();
    assert_eq!(w, FastWakeup::Ready);
    assert_eq!(w.poll(), WakeupPoll::Ready);
    assert_eq!(w, FastWakeup::Cooldown);
    assert_eq!(w.poll(), WakeupPoll::Pending);
    // enabling while cooling down yields once before firing again
    w.enable();
    assert_eq!(w, FastWakeup::Yield);
    assert_eq!(w.poll(), WakeupPoll::PendingWake);
    assert_eq!(w.poll(), WakeupPoll::Ready);
    w.idle();
    assert_eq!(w, FastWakeup::Idle);
}

#[test]
fn timer_rearms_for_future_targets() {
    let mut t = TimerState::new();
    // the initial target is one second after the epoch
    assert_eq!(t.update(1_000_999, 0), SleepAction::Keep);
    // a later target re-arms the sleep, floored to milliseconds
    assert_eq!(t.update(5_000_500, 1_000), SleepAction::Reset(5_000));
    assert_eq!(t.poll(), TimerPoll::Sleep { wake: false });
    // the same millisecond again changes nothing
    assert_eq!(t.update(5_000_001, 2_000), SleepAction::Keep);
    assert_eq!(t.poll(), TimerPoll::Sleep { wake: false });
}

#[test]
fn timer_fires_fast_for_passed_targets() {
    let mut t = TimerState::new();
    // the target already passed: no re-arm, the next poll fires
    assert_eq!(t.update(3_000, 10_000), SleepAction::Keep);
    assert_eq!(t.poll(), TimerPoll::Ready);
    // and the one after that waits on the sleep
    assert_eq!(t.poll(), TimerPoll::Sleep { wake: false });
    // another passed target while cooling down: the poll asks for a wake first
    assert_eq!(t.update(4_000, 10_000), SleepAction::Keep);
    assert_eq!(t.poll(), TimerPoll::Sleep { wake: true });
    assert_eq!(t.poll(), TimerPoll::Ready);
}

#[test]
fn timer_without_target_is_pending() {
    let mut t = TimerState::new();
    t.on_sleep_fired();
    assert_eq!(t.poll(), TimerPoll::Pending);
    // a target equal to the current millisecond counts as passed
    assert_eq!(t.update(7_000, 7_999), SleepAction::Keep);
    assert_eq!(t.poll(), TimerPoll::Ready);
}
