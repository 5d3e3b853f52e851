use rdumper::schedule::{parse_cron, next_after, CronPattern, ScheduleError};

const DAY: u64 = 86400;

#[test]
fn parses_every_minute() {
    assert_eq!(parse_cron("* * * * *"), Ok(CronPattern::EveryMinute));
}

#[test]
fn parses_top_of_hour() {
    assert_eq!(parse_cron("0 * * * *"), Ok(CronPattern::TopOfHour));
}

#[test]
fn parses_daily_midnight() {
    assert_eq!(parse_cron("0 0 * * *"), Ok(CronPattern::DailyAt { minute: 0, hour: 0 }));
}

#[test]
fn parses_daily_at_time() {
    assert_eq!(parse_cron("30 14 * * *"), Ok(CronPattern::DailyAt { minute: 30, hour: 14 }));
    assert_eq!(parse_cron("0 2 * * *"), Ok(CronPattern::DailyAt { minute: 0, hour: 2 }));
}

#[test]
fn parses_weekly() {
    assert_eq!(parse_cron("0 0 * * 1"), Ok(CronPattern::WeeklyAt { weekday: 1 }));
    assert_eq!(parse_cron("0 0 * * 0"), Ok(CronPattern::WeeklyAt { weekday: 0 }));
}

#[test]
fn parses_intervals() {
    assert_eq!(parse_cron("*/5 * * * *"), Ok(CronPattern::EveryNMinutes { n: 5 }));
    assert_eq!(parse_cron("0 */2 * * *"), Ok(CronPattern::EveryNHours { n: 2 }));
}

#[test]
fn rejects_wrong_field_count() {
    assert_eq!(parse_cron("* * * *"), Err(ScheduleError::WrongFieldCount { found: 4 }));
    assert_eq!(parse_cron("* * * * * *"), Err(ScheduleError::WrongFieldCount { found: 6 }));
    assert_eq!(parse_cron(""), Err(ScheduleError::WrongFieldCount { found: 0 }));
}

#[test]
fn rejects_unsupported_patterns() {
    assert_eq!(parse_cron("61 2 * * *"), Err(ScheduleError::Unsupported));
    assert_eq!(parse_cron("0 24 * * *"), Err(ScheduleError::Unsupported));
    assert_eq!(parse_cron("a b * * *"), Err(ScheduleError::Unsupported));
    assert_eq!(parse_cron("0 0 1 * *"), Err(ScheduleError::Unsupported));
    // A zero step would never advance, so it is rejected at validation.
    assert_eq!(parse_cron("*/0 * * * *"), Err(ScheduleError::Unsupported));
}

#[test]
fn tolerates_extra_whitespace() {
    assert_eq!(parse_cron("  0   2 * *   *  "), Ok(CronPattern::DailyAt { minute: 0, hour: 2 }));
}

#[test]
fn next_every_minute_is_sixty_seconds_later() {
    let now = 1_000_123;
    assert_eq!(next_after(&CronPattern::EveryMinute, now), now + 60);
}

#[test]
fn next_top_of_hour_truncates() {
    // 10:17:23 on some day: the next whole hour is 11:00:00.
    let now = 100 * DAY + 10 * 3600 + 17 * 60 + 23;
    assert_eq!(next_after(&CronPattern::TopOfHour, now), 100 * DAY + 11 * 3600);
    // Exactly on the hour: a full hour is added.
    let on_hour = 100 * DAY + 10 * 3600;
    assert_eq!(next_after(&CronPattern::TopOfHour, on_hour), 100 * DAY + 11 * 3600);
}

#[test]
fn next_daily_picks_today_or_tomorrow() {
    let p = CronPattern::DailyAt { minute: 0, hour: 2 };
    // Before 02:00: today at 02:00.
    let before = 100 * DAY + 3600;
    assert_eq!(next_after(&p, before), 100 * DAY + 2 * 3600);
    // Exactly 02:00: tomorrow, strictly after now.
    let exact = 100 * DAY + 2 * 3600;
    assert_eq!(next_after(&p, exact), 101 * DAY + 2 * 3600);
    // After 02:00: tomorrow.
    let after = 100 * DAY + 5 * 3600;
    assert_eq!(next_after(&p, after), 101 * DAY + 2 * 3600);
}

#[test]
fn next_weekly_lands_on_the_weekday() {
    // The epoch fell on a Thursday; the Monday after it starts on day 4.
    let p = CronPattern::WeeklyAt { weekday: 1 };
    assert_eq!(next_after(&p, 0), 4 * DAY);
    // From that Monday midnight, the next run is a week later.
    assert_eq!(next_after(&p, 4 * DAY), 11 * DAY);
}

#[test]
fn next_is_strictly_after_now() {
    let patterns = [
        CronPattern::EveryMinute,
        CronPattern::TopOfHour,
        CronPattern::DailyAt { minute: 0, hour: 0 },
        CronPattern::WeeklyAt { weekday: 6 },
        CronPattern::EveryNMinutes { n: 1 },
        CronPattern::EveryNHours { n: 24 },
    ];
    for now in [0u64, 1, 59, 60, 86399, 86400, 1_700_000_000] {
        for p in &patterns {
            assert!(next_after(p, now) > now);
        }
    }
}

#[test]
fn daily_advances_by_one_day() {
    let p = CronPattern::DailyAt { minute: 30, hour: 14 };
    let now = 1_700_000_000;
    let first = next_after(&p, now);
    let second = next_after(&p, first);
    assert_eq!(second, first + DAY);
}

#[test]
fn intervals_advance_by_their_step() {
    let now = 1_700_000_000;
    let m = CronPattern::EveryNMinutes { n: 15 };
    assert_eq!(next_after(&m, now), now + 15 * 60);
    let h = CronPattern::EveryNHours { n: 6 };
    assert_eq!(next_after(&h, now), now + 6 * 3600);
}
