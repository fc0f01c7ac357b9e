use prayer_tracker::calendar::{get_monthly_prayer_data, get_prayer_data_in_range, build_range, DayEntry, RangeError};
use prayer_tracker::date::{days_in_month, is_leap, CivilDate};
use prayer_tracker::store::{add_or_update_prayer_record, PrayerRecord, RecordStore};

fn day(year: i32, month: u32, day: u32) -> CivilDate {
    CivilDate { year, month, day }
}

fn blank(date: CivilDate) -> DayEntry {
    DayEntry { date, fajr: false, dhuhr: false, asr: false, maghrib: false, isha: false }
}

fn store_with_one() -> RecordStore {
    let mut store = RecordStore::new();
    let r = PrayerRecord {
        user_id: 4,
        date: day(2024, 3, 7),
        fajr: true,
        dhuhr: false,
        asr: true,
        maghrib: true,
        isha: false,
    };
    add_or_update_prayer_record(&mut store, &r);
    store
}

#[test]
fn leap_february_has_29_days() {
    let v = get_monthly_prayer_data(&RecordStore::new(), 1, 2024, 2);
    assert_eq!(v.days.len(), 29);
    assert_eq!(v.days[28].date, day(2024, 2, 29));
}

#[test]
fn common_february_has_28_days() {
    let v = get_monthly_prayer_data(&RecordStore::new(), 1, 2023, 2);
    assert_eq!(v.days.len(), 28);
    assert_eq!(v.days[27].date, day(2023, 2, 28));
}

#[test]
fn december_has_31_days() {
    let v = get_monthly_prayer_data(&RecordStore::new(), 1, 2024, 12);
    assert_eq!(v.days.len(), 31);
    assert_eq!(v.days[0].date, day(2024, 12, 1));
    assert_eq!(v.days[30].date, day(2024, 12, 31));
}

#[test]
fn thirty_day_month() {
    assert_eq!(get_monthly_prayer_data(&RecordStore::new(), 1, 2024, 4).days.len(), 30);
}

#[test]
fn month_number_out_of_range_gives_31_entries() {
    let v = get_monthly_prayer_data(&RecordStore::new(), 1, 2024, 13);
    assert_eq!(v.days.len(), 31);
    assert_eq!(v.days[30], blank(day(2024, 13, 31)));
}

#[test]
fn month_view_fills_missing_days_with_unset_flags() {
    let store = store_with_one();
    let v = get_monthly_prayer_data(&store, 4, 2024, 3);
    assert_eq!(v.days.len(), 31);
    for (i, e) in v.days.iter().enumerate() {
        if i == 6 {
            assert_eq!(*e, DayEntry { date: day(2024, 3, 7), fajr: true, dhuhr: false, asr: true, maghrib: true, isha: false });
        } else {
            assert_eq!(*e, blank(day(2024, 3, i as u32 + 1)));
        }
    }
    let other = get_monthly_prayer_data(&store, 5, 2024, 3);
    assert_eq!(other.days[6], blank(day(2024, 3, 7)));
}

#[test]
fn reversed_range_is_empty() {
    let r = get_prayer_data_in_range(&RecordStore::new(), 1, "2024-03-10", "2024-03-05");
    assert!(r.unwrap().days.is_empty());
}

#[test]
fn single_day_range() {
    let v = get_prayer_data_in_range(&store_with_one(), 4, "2024-03-07", "2024-03-07").unwrap();
    assert_eq!(v.days, vec![DayEntry { date: day(2024, 3, 7), fajr: true, dhuhr: false, asr: true, maghrib: true, isha: false }]);
}

#[test]
fn range_crosses_year_end() {
    let v = get_prayer_data_in_range(&RecordStore::new(), 1, "2023-12-30", "2024-01-02").unwrap();
    let dates: Vec<CivilDate> = v.days.iter().map(|e| e.date).collect();
    assert_eq!(dates, vec![day(2023, 12, 30), day(2023, 12, 31), day(2024, 1, 1), day(2024, 1, 2)]);
    assert!(v.days.iter().all(|e| *e == blank(e.date)));
}

#[test]
fn range_crosses_leap_day() {
    let v = get_prayer_data_in_range(&store_with_one(), 4, "2024-02-28", "2024-03-08").unwrap();
    assert_eq!(v.days.len(), 10);
    assert_eq!(v.days[1].date, day(2024, 2, 29));
    assert_eq!(v.days[2].date, day(2024, 3, 1));
    assert!(v.days[8].fajr && v.days[8].asr && v.days[8].maghrib);
    assert_eq!(v.days[9], blank(day(2024, 3, 8)));
}

#[test]
fn malformed_start_is_reported() {
    let r = get_prayer_data_in_range(&RecordStore::new(), 1, "2024/03/01", "bad");
    assert_eq!(r.unwrap_err(), RangeError::InvalidDate("2024/03/01".to_string()));
}

#[test]
fn malformed_end_is_reported() {
    let r = get_prayer_data_in_range(&RecordStore::new(), 1, "2024-03-01", "2024-02-30");
    assert_eq!(r.unwrap_err(), RangeError::InvalidDate("2024-02-30".to_string()));
}

#[test]
fn build_range_on_dates() {
    let v = build_range(&RecordStore::new(), 2, &day(2023, 2, 27), &day(2023, 3, 1));
    let dates: Vec<CivilDate> = v.days.iter().map(|e| e.date).collect();
    assert_eq!(dates, vec![day(2023, 2, 27), day(2023, 2, 28), day(2023, 3, 1)]);
}

#[test]
fn leap_years_and_month_lengths() {
    assert!(is_leap(2024));
    assert!(!is_leap(2023));
    assert!(!is_leap(1900));
    assert!(is_leap(2000));
    assert!(is_leap(-4));
    assert!(!is_leap(-100));
    assert_eq!(days_in_month(1900, 2), 28);
    assert_eq!(days_in_month(2000, 2), 29);
    assert_eq!(days_in_month(2023, 9), 30);
    assert_eq!(days_in_month(2023, 1), 31);
}

#[test]
fn next_day_rolls_over() {
    assert_eq!(day(2024, 12, 31).next_day(), day(2025, 1, 1));
    assert_eq!(day(2024, 2, 28).next_day(), day(2024, 2, 29));
    assert_eq!(day(2023, 2, 28).next_day(), day(2023, 3, 1));
    assert_eq!(day(2024, 4, 30).next_day(), day(2024, 5, 1));
    assert!(day(2024, 4, 30).is_on_or_before(&day(2024, 5, 1)));
    assert!(!day(2024, 5, 1).is_on_or_before(&day(2024, 4, 30)));
}
