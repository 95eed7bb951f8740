//! The decisions of an endpoint timer: when to re-arm the runtime's sleep,
//! and when a target that already passed fires on the next poll instead.
//!
//! Times are offsets from the clock's epoch; the runtime's sleep and waker
//! are driven by the caller.

use vstd::prelude::*;

verus! {

/// The state of the fast wakeup used for targets that already passed.
#[derive(Copy, Clone, Debug, PartialEq, Eq, Structural)]
pub enum FastWakeup {
    Idle,
    Yield,
    Ready,
    Cooldown,
}

/// What polling the fast wakeup gives.
#[derive(Copy, Clone, Debug, PartialEq, Eq, Structural)]
pub enum WakeupPoll {
    /// Not ready.
    Pending,
    /// Not ready yet; the task must be woken to poll again.
    PendingWake,
    /// Ready.
    Ready,
}

/// The state after enabling the fast wakeup: a wakeup cooling down yields
/// once before it fires again, any other becomes ready.
pub open spec fn enable_spec(s: FastWakeup) -> FastWakeup {
    if s == FastWakeup::Cooldown {
        FastWakeup::Yield
    } else {
        FastWakeup::Ready
    }
}

/// The state after a poll, and what the poll gives.
pub open spec fn wakeup_poll_spec(s: FastWakeup) -> (FastWakeup, WakeupPoll) {
    match s {
        FastWakeup::Idle => (FastWakeup::Idle, WakeupPoll::Pending),
        FastWakeup::Cooldown => (FastWakeup::Cooldown, WakeupPoll::Pending),
        FastWakeup::Yield => (FastWakeup::Ready, WakeupPoll::PendingWake),
        FastWakeup::Ready => (FastWakeup::Cooldown, WakeupPoll::Ready),
    }
}

impl FastWakeup {
    /// Arms the fast wakeup.
    pub fn enable(&mut self)
        ensures
            *final(self) == enable_spec(*old(self)),
    {
        match self {
            FastWakeup::Cooldown => *self = FastWakeup::Yield,
            _ => *self = FastWakeup::Ready,
        }
    }

    /// Disarms the fast wakeup.
    pub fn idle(&mut self)
        ensures
            *final(self) == FastWakeup::Idle,
    {
        *self = FastWakeup::Idle;
    }

    /// Polls the fast wakeup.
    pub fn poll(&mut self) -> (r: WakeupPoll)
        ensures
            (*final(self), r) == wakeup_poll_spec(*old(self)),
    {
        match *self {
            FastWakeup::Idle | FastWakeup::Cooldown => WakeupPoll::Pending,
            FastWakeup::Yield => {
                *self = FastWakeup::Ready;
                WakeupPoll::PendingWake
            },
            FastWakeup::Ready => {
                *self = FastWakeup::Cooldown;
                WakeupPoll::Ready
            },
        }
    }
}

/// What the caller does with the runtime's sleep after an update.
#[derive(Copy, Clone, Debug, PartialEq, Eq, Structural)]
pub enum SleepAction {
    /// Leave the sleep as it is.
    Keep,
    /// Re-arm the sleep to fire this many milliseconds after the epoch.
    Reset(u64),
}

/// What a poll of the timer gives.
#[derive(Copy, Clone, Debug, PartialEq, Eq, Structural)]
pub enum TimerPoll {
    /// No target is set: pending.
    Pending,
    /// The timer fired.
    Ready,
    /// The caller polls the runtime's sleep; `wake` asks it to wake the task first.
    Sleep { wake: bool },
}

/// The first target of a timer, in milliseconds after the epoch: the runtime
/// cannot make a sleep without arming it.
pub const INITIAL_TIMEOUT_MS: u64 = 1000;

/// The target (milliseconds after the epoch) and the fast wakeup of a timer.
pub struct TimerState {
    target: Option<u64>,
    fast_wakeup: FastWakeup,
}

impl TimerState {
    /// The expiration target, in milliseconds after the epoch.
    pub closed spec fn target(&self) -> Option<u64> {
        self.target
    }

    /// The fast wakeup.
    pub closed spec fn wakeup(&self) -> FastWakeup {
        self.fast_wakeup
    }

    /// A timer armed one second after the epoch.
    pub fn new() -> (t: Self)
        ensures
            t.target() == Some(INITIAL_TIMEOUT_MS),
            t.wakeup() == FastWakeup::Idle,
    {
        TimerState { target: Some(INITIAL_TIMEOUT_MS), fast_wakeup: FastWakeup::Idle }
    }

    /// Moves the target to `timestamp_us` at time `now_us` (microseconds after
    /// the epoch), both floored to milliseconds to reduce churn.
    ///
    /// An unchanged target does nothing. A target that already passed arms the
    /// fast wakeup; a later one disarms it and re-arms the sleep.
    pub fn update(&mut self, timestamp_us: u64, now_us: u64) -> (r: SleepAction)
        ensures
            ({
                let delay = timestamp_us / 1000;
                let now = now_us / 1000;
                if old(self).target() == Some(delay as u64) {
                    r == SleepAction::Keep && final(self).target() == old(self).target()
                        && final(self).wakeup() == old(self).wakeup()
                } else if delay <= now {
                    r == SleepAction::Keep && final(self).target() == Some(delay as u64)
                        && final(self).wakeup() == enable_spec(old(self).wakeup())
                } else {
                    r == SleepAction::Reset(delay as u64) && final(self).target() == Some(
                        delay as u64,
                    ) && final(self).wakeup() == FastWakeup::Idle
                }
            }),
    {
        // floor the durations to milliseconds to reduce timer churn
        let delay = timestamp_us / 1000;
        let now = now_us / 1000;

        // If the target hasn't changed then don't do anything
        if let Some(target) = self.target {
            if target == delay {
                return SleepAction::Keep;
            }
        }

        // remember the target time
        self.target = Some(delay);

        // check if the target has already passed, if so yield and wakeup on the next loop
        if delay <= now {
            self.fast_wakeup.enable();
            SleepAction::Keep
        } else {
            self.fast_wakeup.idle();
            // if the clock has changed let the sleep future know
            SleepAction::Reset(delay)
        }
    }

    /// The first step of polling the timer.
    pub fn poll(&mut self) -> (r: TimerPoll)
        ensures
            final(self).target() == old(self).target(),
            old(self).target() is None ==> r == TimerPoll::Pending && final(self).wakeup() == old(
                self).wakeup(),
            old(self).target() is Some ==> final(self).wakeup() == wakeup_poll_spec(
                old(self).wakeup(),
            ).0 && r == match wakeup_poll_spec(old(self).wakeup()).1 {
                WakeupPoll::Ready => TimerPoll::Ready,
                WakeupPoll::PendingWake => TimerPoll::Sleep { wake: true },
                WakeupPoll::Pending => TimerPoll::Sleep { wake: false },
            },
    {
        // Only poll the inner timer if we have a target set
        if self.target.is_none() {
            return TimerPoll::Pending;
        }

        // check if the fast wakeup is ready
        match self.fast_wakeup.poll() {
            WakeupPoll::Ready => TimerPoll::Ready,
            WakeupPoll::PendingWake => TimerPoll::Sleep { wake: true },
            WakeupPoll::Pending => TimerPoll::Sleep { wake: false },
        }
    }

    /// The runtime's sleep fired: the target is cleared, otherwise the task
    /// would wake endlessly.
    pub fn on_sleep_fired(&mut self)
        ensures
            final(self).target() is None,
            final(self).wakeup() == old(self).wakeup(),
    {
        self.target = None;
    }
}

/// A fast wakeup fires at most every other poll: after it fires it cools
/// down, and re-enabling it then makes the next poll only yield.
pub proof fn law_fast_wakeup_cools_down(s: FastWakeup)
    ensures
        wakeup_poll_spec(s).1 == WakeupPoll::Ready ==> wakeup_poll_spec(s).0
            == FastWakeup::Cooldown && wakeup_poll_spec(enable_spec(wakeup_poll_spec(s).0)).1
            == WakeupPoll::PendingWake,
        wakeup_poll_spec(enable_spec(s)).1 != WakeupPoll::Pending,
{
}

} // verus!
