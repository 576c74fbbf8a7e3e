//! The decisions of a timer future polled by a small executor: when to
//! start the timer thread, when to swap the stored waker, how long the
//! timer sleeps, and when the future is ready. Time is counted in
//! nanoseconds from a fixed origin chosen by the caller.
use vstd::prelude::*;

verus! {

/// What the future knows between polls.
#[derive(PartialEq, Eq, Structural, Debug, Clone, Copy)]
pub struct DelayState {
    /// The instant at which the delay ends.
    pub when: u128,
    /// Whether a waker is stored and a timer thread was started for it.
    pub registered: bool,
}

/// What a poll does with the waker it was given.
#[derive(PartialEq, Eq, Structural, Debug, Clone, Copy)]
pub enum WakerAction {
    /// Store the waker and start the timer thread that wakes it.
    StartTimer,
    /// Replace the stored waker, which would not wake the poller.
    ReplaceWaker,
    /// Keep the stored waker, which already wakes the poller.
    KeepWaker,
}

/// The outcome of one poll.
#[derive(PartialEq, Eq, Structural, Debug, Clone, Copy)]
pub struct PollStep {
    /// The state after the poll.
    pub state: DelayState,
    /// What to do with the waker.
    pub action: WakerAction,
    /// Whether the delay is over.
    pub ready: bool,
}

/// The instant at which a delay of `duration` started at `now` ends.
pub open spec fn spec_deadline(now: u128, duration: u128) -> int {
    now + duration
}

/// One poll of the delay at instant `now`, where `same_waker` tells
/// whether the stored waker would wake the polling task.
pub open spec fn poll_spec(state: DelayState, same_waker: bool, now: u128) -> PollStep {
    PollStep {
        state: DelayState { when: state.when, registered: true },
        action: if !state.registered {
            WakerAction::StartTimer
        } else if same_waker {
            WakerAction::KeepWaker
        } else {
            WakerAction::ReplaceWaker
        },
        ready: now >= state.when,
    }
}

/// How long the timer thread started at `now` sleeps before it wakes the task.
pub open spec fn wait_spec(now: u128, when: u128) -> u128 {
    if now < when {
        (when - now) as u128
    } else {
        0
    }
}

/// A fresh delay of `duration` started at `now`, with no waker stored.
/// The end instant must be representable.
pub fn new_delay(now: u128, duration: u128) -> (r: DelayState)
    requires
        now + duration <= u128::MAX,
    ensures
        r.when == spec_deadline(now, duration),
        r.when == now + duration,
        !r.registered,
{
    DelayState { when: now + duration, registered: false }
}

/// Decides one poll of the delay.
pub fn poll_delay(state: DelayState, same_waker: bool, now: u128) -> (r: PollStep)
    ensures
        r == poll_spec(state, same_waker, now),
        r.state == (DelayState { when: state.when, registered: true }),
        r.ready <==> now >= state.when,
        !state.registered ==> r.action == WakerAction::StartTimer,
        state.registered && same_waker ==> r.action == WakerAction::KeepWaker,
        state.registered && !same_waker ==> r.action == WakerAction::ReplaceWaker,
{
    let action = if !state.registered {
        WakerAction::StartTimer
    } else if same_waker {
        WakerAction::KeepWaker
    } else {
        WakerAction::ReplaceWaker
    };
    PollStep {
        state: DelayState { when: state.when, registered: true },
        action,
        ready: now >= state.when,
    }
}

/// How long the timer thread started at `now` sleeps before it wakes the task.
pub fn timer_wait(now: u128, when: u128) -> (r: u128)
    ensures
        r == wait_spec(now, when),
        now < when ==> now + r == when,
        now >= when ==> r == 0,
{
    if now < when {
        when - now
    } else {
        0
    }
}

/// A fresh delay ends exactly `duration` after the instant it was started.
pub proof fn lemma_deadline_is_now_plus_duration(now: u128, duration: u128)
    ensures
        spec_deadline(now, duration) == now as int + duration as int,
{
}

/// What a poll does with the waker it is given: an unregistered delay
/// starts its timer; a registered one keeps its stored waker exactly when
/// that waker would wake the poller and replaces it otherwise, whatever
/// the time left. The delay is ready exactly from its end on, and a poll
/// leaves it registered with the same end.
pub proof fn lemma_poll_decisions(state: DelayState, same_waker: bool, now: u128)
    ensures
        !state.registered ==> poll_spec(state, same_waker, now).action == WakerAction::StartTimer,
        state.registered && same_waker ==> poll_spec(state, same_waker, now).action
            == WakerAction::KeepWaker,
        state.registered && !same_waker ==> poll_spec(state, same_waker, now).action
            == WakerAction::ReplaceWaker,
        poll_spec(state, same_waker, now).ready <==> now >= state.when,
        poll_spec(state, same_waker, now).state.when == state.when,
        poll_spec(state, same_waker, now).state.registered,
{
}

/// The timer thread sleeps for exactly the time left before the end, and
/// not at all once the end has passed.
pub proof fn lemma_wait_is_time_left(now: u128, when: u128)
    ensures
        now < when ==> now + wait_spec(now, when) == when,
        now >= when ==> wait_spec(now, when) == 0,
{
}

/// A delay starts its timer thread on its first poll and never again,
/// however often it is polled afterwards.
pub proof fn lemma_timer_started_once(state: DelayState, same_waker: bool, now: u128, later_same: bool, later: u128)
    ensures
        (poll_spec(state, same_waker, now).action == WakerAction::StartTimer) == !state.registered,
        poll_spec(poll_spec(state, same_waker, now).state, later_same, later).action != WakerAction::StartTimer,
{
}

/// Once a delay is ready it stays ready at every later instant, and a
/// poll never moves its end.
pub proof fn lemma_ready_stays_ready(state: DelayState, same_waker: bool, now: u128, later_same: bool, later: u128)
    requires
        poll_spec(state, same_waker, now).ready,
        now <= later,
    ensures
        poll_spec(poll_spec(state, same_waker, now).state, later_same, later).ready,
        poll_spec(state, same_waker, now).state.when == state.when,
{
}

/// The timer thread wakes the task exactly when the delay ends: a poll at
/// `now + timer_wait(now, when)` finds the delay over, and when the delay
/// is not over yet, any earlier poll finds it pending.
pub proof fn lemma_timer_wakes_at_deadline(state: DelayState, same_waker: bool, now: u128)
    ensures
        now + wait_spec(now, state.when) <= u128::MAX,
        poll_spec(state, same_waker, (now + wait_spec(now, state.when)) as u128).ready,
        forall|t: u128| now <= t < now + wait_spec(now, state.when) ==> !(#[trigger] poll_spec(state, same_waker, t)).ready,
{
}

} // verus!
