use prayer_tracker::schedule::{
    format_countdown, get_nearest_prayer, get_time_until_next_prayer, nearest_index,
    soonest_countdown, ClockTime, DailySchedule, Prayer, ScheduleError,
};

fn schedule(times: [&str; 5]) -> DailySchedule {
    DailySchedule {
        fajr: Some(times[0].to_string()),
        dhuhr: Some(times[1].to_string()),
        asr: Some(times[2].to_string()),
        maghrib: Some(times[3].to_string()),
        isha: Some(times[4].to_string()),
    }
}

fn standard() -> DailySchedule {
    schedule(["05:00", "12:30", "16:00", "19:00", "20:30"])
}

fn at(hour: u32, minute: u32, second: u32) -> ClockTime {
    ClockTime { hour, minute, second }
}

#[test]
fn just_passed_prayer_is_nearest_and_now() {
    assert_eq!(get_nearest_prayer(&standard(), &at(12, 40, 0)), Ok(Prayer::Dhuhr));
    assert_eq!(get_time_until_next_prayer(&standard(), &at(12, 40, 0)), Ok("Now".to_string()));
}

#[test]
fn prayer_past_grace_period_wraps_to_tomorrow() {
    assert_eq!(get_nearest_prayer(&standard(), &at(13, 10, 0)), Ok(Prayer::Asr));
    assert_eq!(get_time_until_next_prayer(&standard(), &at(13, 10, 0)), Ok("-2:50:00".to_string()));
}

#[test]
fn unreadable_entry_is_skipped() {
    let mut s = standard();
    s.dhuhr = Some("half past noon".to_string());
    assert_eq!(get_nearest_prayer(&s, &at(12, 40, 0)), Ok(Prayer::Asr));
    assert_eq!(get_time_until_next_prayer(&s, &at(12, 40, 0)), Ok("-3:20:00".to_string()));
    s.asr = None;
    assert_eq!(get_nearest_prayer(&s, &at(12, 40, 0)), Ok(Prayer::Maghrib));
}

#[test]
fn all_entries_unreadable_is_unavailable() {
    let s = schedule(["x", "25:00", "", "7pm", "12:75"]);
    assert_eq!(get_nearest_prayer(&s, &at(12, 0, 0)), Err(ScheduleError::ScheduleUnavailable));
    assert_eq!(get_time_until_next_prayer(&s, &at(12, 0, 0)), Err(ScheduleError::ScheduleUnavailable));
    let none = DailySchedule { fajr: None, dhuhr: None, asr: None, maghrib: None, isha: None };
    assert_eq!(get_nearest_prayer(&none, &at(12, 0, 0)), Err(ScheduleError::ScheduleUnavailable));
}

#[test]
fn exactly_at_prayer_time() {
    assert_eq!(get_nearest_prayer(&standard(), &at(16, 0, 0)), Ok(Prayer::Asr));
    assert_eq!(get_time_until_next_prayer(&standard(), &at(16, 0, 0)), Ok("Now".to_string()));
}

#[test]
fn grace_period_boundary() {
    // 35 minutes after Dhuhr is still within the grace period.
    assert_eq!(get_nearest_prayer(&standard(), &at(13, 5, 0)), Ok(Prayer::Dhuhr));
    assert_eq!(get_time_until_next_prayer(&standard(), &at(13, 5, 0)), Ok("Now".to_string()));
    // One second later it is not.
    assert_eq!(get_nearest_prayer(&standard(), &at(13, 5, 1)), Ok(Prayer::Asr));
    assert_eq!(get_time_until_next_prayer(&standard(), &at(13, 5, 1)), Ok("-2:54:59".to_string()));
}

#[test]
fn after_last_prayer_wraps_to_fajr() {
    assert_eq!(get_nearest_prayer(&standard(), &at(23, 0, 0)), Ok(Prayer::Fajr));
    assert_eq!(get_time_until_next_prayer(&standard(), &at(23, 0, 0)), Ok("-6:00:00".to_string()));
}

#[test]
fn tie_goes_to_earlier_prayer() {
    // Fajr 10 minutes past and Dhuhr 10 minutes ahead.
    let s = schedule(["11:50", "12:10", "16:00", "19:00", "20:30"]);
    assert_eq!(get_nearest_prayer(&s, &at(12, 0, 0)), Ok(Prayer::Fajr));
    assert_eq!(nearest_index(&vec![None, Some(600), Some(600)], 0), Some(1));
}

#[test]
fn nearest_index_on_seconds() {
    assert_eq!(nearest_index(&vec![None, None], 100), None);
    assert_eq!(nearest_index(&vec![Some(0), Some(50_000)], 10_000), Some(1));
    assert_eq!(nearest_index(&vec![Some(9_000), Some(50_000)], 10_000), Some(0));
}

#[test]
fn soonest_countdown_on_seconds() {
    assert_eq!(soonest_countdown(&vec![None, None], 100), None);
    assert_eq!(soonest_countdown(&vec![Some(9_000), Some(50_000)], 10_000), Some(0));
    assert_eq!(soonest_countdown(&vec![Some(0), Some(50_000)], 10_000), Some(40_000));
    assert_eq!(soonest_countdown(&vec![Some(0)], 10_000), Some(76_400));
}

#[test]
fn countdown_text() {
    assert_eq!(format_countdown(0), "Now");
    assert_eq!(format_countdown(1), "-0:00:01");
    assert_eq!(format_countdown(3_600 * 10 + 61), "-10:01:01");
    assert_eq!(format_countdown(86_399), "-23:59:59");
}
