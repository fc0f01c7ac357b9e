use prayer_tracker::calendar::get_monthly_prayer_data;
use prayer_tracker::date::CivilDate;
use prayer_tracker::heatmap::{heatmap_layout, HeatCell, RowLabel};
use prayer_tracker::store::{add_or_update_prayer_record, PrayerRecord, RecordStore};

#[test]
fn layout_of_a_month() {
    let mut store = RecordStore::new();
    let date = CivilDate { year: 2023, month: 2, day: 2 };
    add_or_update_prayer_record(
        &mut store,
        &PrayerRecord { user_id: 1, date, fajr: false, dhuhr: true, asr: false, maghrib: false, isha: true },
    );
    let view = get_monthly_prayer_data(&store, 1, 2023, 2);
    let l = heatmap_layout(&view);
    assert_eq!(l.width, 650);
    assert_eq!(l.height, 28 * 50 + 110);
    assert_eq!(l.legend_x, 480);
    assert_eq!(l.legend_y, 28 * 50 + 10);
    assert_eq!(l.cells.len(), 140);
    assert_eq!(l.cells[0], HeatCell { x: 100, y: 100, done: false });
    assert_eq!(l.cells[6], HeatCell { x: 150, y: 150, done: true });
    assert_eq!(l.cells[9], HeatCell { x: 300, y: 150, done: true });
    assert_eq!(l.cells[8], HeatCell { x: 250, y: 150, done: false });
    assert_eq!(l.rows.len(), 28);
    assert_eq!(l.rows[1], RowLabel { y: 165, date });
}

#[test]
fn layout_of_empty_view() {
    let view = prayer_tracker::calendar::CalendarView { days: Vec::new() };
    let l = heatmap_layout(&view);
    assert_eq!(l.height, 110);
    assert!(l.cells.is_empty());
    assert!(l.rows.is_empty());
}
