//! When a reminder is due, and the decisions of the background scheduler that
//! checks every community once per period.

use vstd::prelude::*;
use crate::codec::{decoded, parse_config_code, Config, Interval};
use crate::store::StoreError;

verus! {

/// A moment of the wall clock, as far as schedules read it.
#[derive(Clone, Copy, Debug, PartialEq, Eq, Structural)]
pub struct WallClock {
    /// Hour of the day, 0 to 23.
    pub hour: u8,
    /// Day of the week, 1 (Monday) to 7 (Sunday).
    pub weekday: u8,
    /// Day of the month, from 1.
    pub day: u8,
    /// How many days the current month has.
    pub days_in_month: u8,
}

/// Whether a schedule is due at `now`: at its hour, and for a weekly one on its
/// weekday, for a monthly one on its day of the month. A monthly day that the
/// current month lacks (the 31st in April) falls on the month's last day.
/// A weekly schedule without a weekday, or a monthly one without a day, is never due.
pub open spec fn due(c: Config, now: WallClock) -> bool {
    c.time == now.hour && match c.interval {
        Interval::Daily => true,
        Interval::Weekly => c.weekday == Some(now.weekday),
        Interval::Monthly => match c.day {
            Some(d) => d == now.day || (d > now.days_in_month && now.day == now.days_in_month),
            None => false,
        },
    }
}

pub fn is_due(config: &Config, now: &WallClock) -> (r: bool)
    ensures
        r == due(*config, *now),
{
    if config.time != now.hour {
        return false;
    }
    match config.interval {
        Interval::Daily => true,
        Interval::Weekly => match config.weekday {
            Some(w) => w == now.weekday,
            None => false,
        },
        Interval::Monthly => match config.day {
            Some(d) => d == now.day || (d > now.days_in_month && now.day == now.days_in_month),
            None => false,
        },
    }
}

/// What one tick decides for one community.
#[derive(Clone, Copy, Debug, PartialEq, Eq, Structural)]
pub enum GuildOutcome {
    /// Its reminder is due now, on this schedule.
    Due(Config),
    /// It has a schedule, not due now.
    NotDue,
    /// It has no config message: skipped this tick.
    NoConfig,
}

/// Decides for one community from what the store found for it.
pub fn evaluate_guild(located: Result<String, StoreError>, now: &WallClock) -> (r: GuildOutcome)
    ensures
        match located {
            Ok(code) => if due(decoded(code@), *now) {
                r == GuildOutcome::Due(decoded(code@))
            } else {
                r == GuildOutcome::NotDue
            },
            Err(_) => r == GuildOutcome::NoConfig,
        },
{
    match located {
        Ok(code) => {
            let config = parse_config_code(code);
            if is_due(&config, now) {
                GuildOutcome::Due(config)
            } else {
                GuildOutcome::NotDue
            }
        },
        Err(_) => GuildOutcome::NoConfig,
    }
}

/// Seconds between two looks at whether the session is ready.
pub const SESSION_POLL_SECONDS: u64 = 1;

/// Seconds between two ticks.
pub const TICK_PERIOD_SECONDS: u64 = 3600;

#[derive(Clone, Copy, Debug, PartialEq, Eq, Structural)]
pub enum SchedulerState {
    WaitingForSession,
    Ticking,
}

#[derive(Clone, Copy, Debug, PartialEq, Eq, Structural)]
pub enum SchedulerEvent {
    /// The session to the chat platform is ready.
    SessionReady,
    /// There is no session (yet, or any more).
    SessionUnavailable,
    /// The wait that the last action asked for is over.
    PeriodElapsed,
    /// A tick went through every community.
    TickDone,
    /// A tick could not list the communities.
    TickFailed,
}

#[derive(Clone, Copy, Debug, PartialEq, Eq, Structural)]
pub enum SchedulerAction {
    /// Wait this many seconds, then report `PeriodElapsed` (or the session's state).
    Wait { seconds: u64 },
    /// Check every community now, then report `TickDone` or `TickFailed`.
    RunTick,
}

/// The scheduler's next state and action. It waits for the session, polling
/// it, then ticks once per period; a tick that fails is retried at the next
/// period, and a lost session is waited for again: it never stops.
pub open spec fn next_step(state: SchedulerState, event: SchedulerEvent) -> (
    SchedulerState,
    SchedulerAction,
) {
    match (state, event) {
        (_, SchedulerEvent::SessionUnavailable) => (
            SchedulerState::WaitingForSession,
            SchedulerAction::Wait { seconds: SESSION_POLL_SECONDS },
        ),
        (SchedulerState::WaitingForSession, SchedulerEvent::SessionReady) => (
            SchedulerState::Ticking,
            SchedulerAction::Wait { seconds: TICK_PERIOD_SECONDS },
        ),
        (SchedulerState::WaitingForSession, _) => (
            SchedulerState::WaitingForSession,
            SchedulerAction::Wait { seconds: SESSION_POLL_SECONDS },
        ),
        (SchedulerState::Ticking, SchedulerEvent::PeriodElapsed) => (
            SchedulerState::Ticking,
            SchedulerAction::RunTick,
        ),
        (SchedulerState::Ticking, _) => (
            SchedulerState::Ticking,
            SchedulerAction::Wait { seconds: TICK_PERIOD_SECONDS },
        ),
    }
}

pub fn scheduler_step(state: SchedulerState, event: SchedulerEvent) -> (r: (
    SchedulerState,
    SchedulerAction,
))
    ensures
        r == next_step(state, event),
{
    match (state, event) {
        (_, SchedulerEvent::SessionUnavailable) => (
            SchedulerState::WaitingForSession,
            SchedulerAction::Wait { seconds: SESSION_POLL_SECONDS },
        ),
        (SchedulerState::WaitingForSession, SchedulerEvent::SessionReady) => (
            SchedulerState::Ticking,
            SchedulerAction::Wait { seconds: TICK_PERIOD_SECONDS },
        ),
        (SchedulerState::WaitingForSession, _) => (
            SchedulerState::WaitingForSession,
            SchedulerAction::Wait { seconds: SESSION_POLL_SECONDS },
        ),
        (SchedulerState::Ticking, SchedulerEvent::PeriodElapsed) => (
            SchedulerState::Ticking,
            SchedulerAction::RunTick,
        ),
        (SchedulerState::Ticking, _) => (
            SchedulerState::Ticking,
            SchedulerAction::Wait { seconds: TICK_PERIOD_SECONDS },
        ),
    }
}

/// A failed tick does not stop the scheduler: it waits one period and ticks again.
pub proof fn lemma_failed_tick_retries()
    ensures
        next_step(SchedulerState::Ticking, SchedulerEvent::TickFailed) == (
            SchedulerState::Ticking,
            SchedulerAction::Wait { seconds: TICK_PERIOD_SECONDS },
        ),
        next_step(SchedulerState::Ticking, SchedulerEvent::PeriodElapsed).1
            == SchedulerAction::RunTick,
{
}

} // verus!
