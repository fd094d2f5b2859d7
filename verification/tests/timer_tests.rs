use wings_rs::schedule::CronWait;
use wings_rs::timer::{cron_timer_step, schedule_timezone, LAST_TIMESTAMP};

// 2023-11-14 22:13:20 UTC, 23:13:20 in Berlin.
const NOW: i64 = 1_700_000_000;

#[test]
fn container_zone_wins_over_system_zone() {
    assert_eq!(schedule_timezone(Some("Europe/Berlin"), "America/New_York"), "Europe/Berlin");
    assert_eq!(schedule_timezone(None, "America/New_York"), "America/New_York");
}

#[test]
fn unknown_zone_falls_back_to_utc() {
    assert_eq!(schedule_timezone(None, "Nowhere/Land"), "UTC");
    assert_eq!(schedule_timezone(Some("not a zone"), "Europe/Berlin"), "UTC");
}

#[test]
fn timer_waits_until_the_next_firing() {
    assert_eq!(cron_timer_step("0 0 * * * *", "UTC", NOW), Some(CronWait::Fire { seconds: 2800 }));
    assert_eq!(cron_timer_step("0 0 0 * * *", "UTC", NOW), Some(CronWait::Fire { seconds: 6400 }));
}

#[test]
fn timer_reads_the_expression_in_its_zone() {
    assert_eq!(cron_timer_step("0 0 0 * * *", "Europe/Berlin", NOW), Some(CronWait::Fire { seconds: 2800 }));
}

#[test]
fn timer_stops_when_nothing_fires() {
    assert_eq!(cron_timer_step("not cron", "UTC", NOW), Some(CronWait::Stop));
    assert_eq!(cron_timer_step("0 0 0 1 1 * 2000", "UTC", NOW), Some(CronWait::Stop));
}

#[test]
fn timer_works_up_to_the_last_second_before_the_limit() {
    assert_eq!(LAST_TIMESTAMP, chrono::DateTime::<chrono::Utc>::MAX_UTC.timestamp());
    assert_eq!(cron_timer_step("* * * * * *", "UTC", LAST_TIMESTAMP - 1), Some(CronWait::Stop));
}
