use slacker_slayer::codec::{Config, Interval};
use slacker_slayer::schedule::{
    evaluate_guild, is_due, scheduler_step, GuildOutcome, SchedulerAction, SchedulerEvent,
    SchedulerState, WallClock,
};
use slacker_slayer::store::StoreError;

fn at(hour: u8, weekday: u8, day: u8) -> WallClock {
    WallClock { hour, weekday, day, days_in_month: 30 }
}

fn schedule(interval: Interval, time: u8, weekday: Option<u8>, day: Option<u8>) -> Config {
    Config { interval, time, weekday, day, channel_id: None }
}

#[test]
fn daily_is_due_at_its_hour() {
    let c = schedule(Interval::Daily, 9, None, None);
    assert!(is_due(&c, &at(9, 3, 12)));
    assert!(!is_due(&c, &at(10, 3, 12)));
}

#[test]
fn weekly_is_due_on_its_weekday() {
    let c = schedule(Interval::Weekly, 9, Some(1), None);
    assert!(is_due(&c, &at(9, 1, 12)));
    assert!(!is_due(&c, &at(9, 2, 13)));
    assert!(!is_due(&c, &at(10, 1, 12)));
}

#[test]
fn monthly_is_due_on_its_day() {
    let c = schedule(Interval::Monthly, 9, None, Some(15));
    assert!(is_due(&c, &at(9, 4, 15)));
    assert!(!is_due(&c, &at(9, 5, 16)));
}

#[test]
fn monthly_day_past_month_end_falls_on_last_day() {
    let c = schedule(Interval::Monthly, 9, None, Some(31));
    assert!(is_due(&c, &at(9, 2, 30)));
    assert!(!is_due(&c, &at(9, 1, 29)));
    let february = WallClock { hour: 9, weekday: 5, day: 28, days_in_month: 28 };
    assert!(is_due(&c, &february));
}

#[test]
fn schedule_missing_its_field_is_never_due() {
    assert!(!is_due(&schedule(Interval::Weekly, 9, None, None), &at(9, 1, 1)));
    assert!(!is_due(&schedule(Interval::Monthly, 9, None, None), &at(9, 1, 1)));
}

#[test]
fn guild_outcomes() {
    assert_eq!(evaluate_guild(Err(StoreError::ConfigNotFound), &at(9, 1, 1)), GuildOutcome::NoConfig);
    assert_eq!(
        evaluate_guild(Ok("ssc.daily.09".to_string()), &at(9, 1, 1)),
        GuildOutcome::Due(schedule(Interval::Daily, 9, None, None))
    );
    assert_eq!(evaluate_guild(Ok("ssc.daily.09".to_string()), &at(8, 1, 1)), GuildOutcome::NotDue);
    assert_eq!(
        evaluate_guild(Ok("ssc.weekly.14.5.x.321".to_string()), &at(14, 5, 1)),
        GuildOutcome::Due(Config {
            interval: Interval::Weekly,
            time: 14,
            weekday: Some(5),
            day: None,
            channel_id: Some(321),
        })
    );
}

#[test]
fn scheduler_waits_for_session_then_ticks_hourly() {
    let (s, a) = scheduler_step(SchedulerState::WaitingForSession, SchedulerEvent::SessionUnavailable);
    assert_eq!((s, a), (SchedulerState::WaitingForSession, SchedulerAction::Wait { seconds: 1 }));
    let (s, a) = scheduler_step(s, SchedulerEvent::SessionReady);
    assert_eq!((s, a), (SchedulerState::Ticking, SchedulerAction::Wait { seconds: 3600 }));
    let (s, a) = scheduler_step(s, SchedulerEvent::PeriodElapsed);
    assert_eq!((s, a), (SchedulerState::Ticking, SchedulerAction::RunTick));
    let (s, a) = scheduler_step(s, SchedulerEvent::TickDone);
    assert_eq!((s, a), (SchedulerState::Ticking, SchedulerAction::Wait { seconds: 3600 }));
}

#[test]
fn failed_tick_is_retried_next_period() {
    let (s, a) = scheduler_step(SchedulerState::Ticking, SchedulerEvent::TickFailed);
    assert_eq!((s, a), (SchedulerState::Ticking, SchedulerAction::Wait { seconds: 3600 }));
    let (s, a) = scheduler_step(SchedulerState::Ticking, SchedulerEvent::SessionUnavailable);
    assert_eq!((s, a), (SchedulerState::WaitingForSession, SchedulerAction::Wait { seconds: 1 }));
}
