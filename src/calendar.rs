//! Calendar views: one entry per day of a month or of a date range, with the
//! stored flags of that day, or all flags unset where nothing is stored.

use crate::date::{
    date_of_parts, days_in_month, month_length, parse_iso_date, parsed_iso_date, CivilDate,
};
use crate::store::{contains_key, get_prayer_record, lookup, PrayerRecord, RecordStore};
use vstd::prelude::*;

verus! {

/// One day of a calendar view.
#[derive(Clone, Copy, Debug, PartialEq, Eq, Structural)]
pub struct DayEntry {
    pub date: CivilDate,
    pub fajr: bool,
    pub dhuhr: bool,
    pub asr: bool,
    pub maghrib: bool,
    pub isha: bool,
}

/// Consecutive days in ascending order, each with its completion flags.
#[derive(Clone, Debug)]
pub struct CalendarView {
    pub days: Vec<DayEntry>,
}

/// Why a range could not be built.
#[derive(Clone, Debug, PartialEq, Eq)]
pub enum RangeError {
    /// The text is not a date of the form `YYYY-MM-DD`.
    InvalidDate(String),
}

/// The entry of `date` for `user_id`: the stored flags, or all unset.
pub open spec fn entry_for(s: Seq<PrayerRecord>, user_id: i32, date: CivilDate) -> DayEntry {
    match lookup(s, user_id, date) {
        Some(r) => DayEntry {
            date,
            fajr: r.fajr,
            dhuhr: r.dhuhr,
            asr: r.asr,
            maghrib: r.maghrib,
            isha: r.isha,
        },
        None => DayEntry {
            date,
            fajr: false,
            dhuhr: false,
            asr: false,
            maghrib: false,
            isha: false,
        },
    }
}

/// Number of entries of a month view: the month's length, or 31 for a month
/// number outside 1 to 12.
pub open spec fn month_span(year: int, month: int) -> int {
    if 1 <= month <= 12 {
        month_length(year, month)
    } else {
        31
    }
}

/// `days` is the view of `user_id`'s records in `s` for the month.
pub open spec fn is_month_view(
    s: Seq<PrayerRecord>,
    user_id: i32,
    year: i32,
    month: u32,
    days: Seq<DayEntry>,
) -> bool {
    &&& days.len() == month_span(year as int, month as int)
    &&& forall|i: int|
        0 <= i < days.len() ==> days[i] == entry_for(
            s,
            user_id,
            CivilDate { year, month, day: (i + 1) as u32 },
        )
}

/// `days` is the view of `user_id`'s records in `s` from `start` to `end`:
/// it begins at `start`, steps one day at a time, and ends at `end`; it is
/// empty exactly when `start` comes after `end`.
pub open spec fn is_range_view(
    s: Seq<PrayerRecord>,
    user_id: i32,
    start: CivilDate,
    end: CivilDate,
    days: Seq<DayEntry>,
) -> bool {
    &&& days.len() == 0 <==> !start.on_or_before(end)
    &&& days.len() > 0 ==> days[0].date == start && days.last().date == end
    &&& forall|i: int| 1 <= i < days.len() ==> #[trigger] days[i].date == days[i - 1].date.successor()
    &&& forall|i: int|
        0 <= i < days.len() ==> start.on_or_before(#[trigger] days[i].date) && days[i].date.on_or_before(end)
    &&& forall|i: int| 0 <= i < days.len() ==> days[i] == entry_for(s, user_id, days[i].date)
}

/// The entry of `date` for `user_id`.
fn day_entry(store: &RecordStore, user_id: i32, date: &CivilDate) -> (r: DayEntry)
    requires
        store.wf(),
    ensures
        r == entry_for(store@, user_id, *date),
{
    match get_prayer_record(store, user_id, date) {
        Some(rec) => DayEntry {
            date: *date,
            fajr: rec.fajr,
            dhuhr: rec.dhuhr,
            asr: rec.asr,
            maghrib: rec.maghrib,
            isha: rec.isha,
        },
        None => DayEntry {
            date: *date,
            fajr: false,
            dhuhr: false,
            asr: false,
            maghrib: false,
            isha: false,
        },
    }
}

/// The view of every day of `month` in `year` for `user_id`.
pub fn get_monthly_prayer_data(store: &RecordStore, user_id: i32, year: i32, month: u32) -> (r:
    CalendarView)
    requires
        store.wf(),
    ensures
        is_month_view(store@, user_id, year, month, r.days@),
{
    let n: u32 = if 1 <= month && month <= 12 {
        days_in_month(year, month)
    } else {
        31
    };
    let mut days: Vec<DayEntry> = Vec::new();
    let mut d: u32 = 1;
    while d <= n
        invariant
            store.wf(),
            n == month_span(year as int, month as int),
            1 <= d <= n + 1,
            n <= 31,
            days@.len() == d - 1,
            forall|i: int|
                0 <= i < days@.len() ==> days@[i] == entry_for(
                    store@,
                    user_id,
                    CivilDate { year, month, day: (i + 1) as u32 },
                ),
        decreases n + 1 - d,
    {
        let date = CivilDate { year, month, day: d };
        let e = day_entry(store, user_id, &date);
        days.push(e);
        d = d + 1;
    }
    CalendarView { days }
}

/// The view of every day from `start` to `end` inclusive for `user_id`;
/// empty when `start` comes after `end`.
pub fn build_range(store: &RecordStore, user_id: i32, start: &CivilDate, end: &CivilDate) -> (r:
    CalendarView)
    requires
        store.wf(),
        start.is_valid(),
        end.is_valid(),
        end.year < i32::MAX,
    ensures
        is_range_view(store@, user_id, *start, *end, r.days@),
{
    let mut days: Vec<DayEntry> = Vec::new();
    let mut cur = *start;
    while cur.is_on_or_before(end)
        invariant
            store.wf(),
            start.is_valid(),
            end.is_valid(),
            end.year < i32::MAX,
            cur.is_valid(),
            days@.len() == 0 ==> cur == *start,
            days@.len() > 0 ==> start.on_or_before(*end),
            start.on_or_before(cur),
            forall|i: int|
                0 <= i < days@.len() ==> start.on_or_before(#[trigger] days@[i].date)
                    && days@[i].date.on_or_before(*end),
            days@.len() > 0 ==> days@[0].date == *start && days@.last().date.successor() == cur
                && days@.last().date.on_or_before(*end) && days@.last().date.is_valid(),
            forall|i: int| 1 <= i < days@.len() ==> #[trigger] days@[i].date == days@[i - 1].date.successor(),
            forall|i: int| 0 <= i < days@.len() ==> days@[i] == entry_for(store@, user_id, days@[i].date),
        days@.len() > 0 ==> cur.year <= end.year + 1,
        decreases (end.year - cur.year + 1) * 400 + (13 - cur.month) * 32 + (32 - cur.day),
    {
        let e = day_entry(store, user_id, &cur);
        let ghost prev = days@;
        days.push(e);
        proof {
            assert forall|i: int| 1 <= i < days@.len() implies #[trigger] days@[i].date
                == days@[i - 1].date.successor() by {
                if i < prev.len() {
                    assert(days@[i] == prev[i]);
                    assert(days@[i - 1] == prev[i - 1]);
                }
            }
        }
        proof {
            crate::date::lemma_successor_after(cur);
        }
        cur = cur.next_day();
    }
    proof {
        if days@.len() > 0 {
            crate::date::lemma_last_before_successor(days@.last().date, *end);
        }
    }
    CalendarView { days }
}

/// The view of every day from the date `start_date` to the date `end_date`
/// (both `YYYY-MM-DD`) for `user_id`. A text that is not such a date is
/// reported, the start first.
pub fn get_prayer_data_in_range(
    store: &RecordStore,
    user_id: i32,
    start_date: &str,
    end_date: &str,
) -> (r: Result<CalendarView, RangeError>)
    requires
        store.wf(),
    ensures
        date_of_parts(parsed_iso_date(start_date@)) is None ==> (r matches Err(
            RangeError::InvalidDate(v),
        ) && v@ == start_date@),
        date_of_parts(parsed_iso_date(start_date@)) is Some && date_of_parts(
            parsed_iso_date(end_date@),
        ) is None ==> (r matches Err(RangeError::InvalidDate(v)) && v@ == end_date@),
        date_of_parts(parsed_iso_date(start_date@)) matches Some(a) ==> date_of_parts(
            parsed_iso_date(end_date@),
        ) matches Some(b) ==> (r matches Ok(v) && is_range_view(store@, user_id, a, b, v.days@)),
{
    let start = match parse_iso_date(start_date) {
        Some(d) => d,
        None => {
            return Err(RangeError::InvalidDate(start_date.to_owned()));
        },
    };
    let end = match parse_iso_date(end_date) {
        Some(d) => d,
        None => {
            return Err(RangeError::InvalidDate(end_date.to_owned()));
        },
    };
    Ok(build_range(store, user_id, &start, &end))
}

/// Every date of a range view is a valid date.
proof fn lemma_range_view_valid(
    s: Seq<PrayerRecord>,
    user_id: i32,
    start: CivilDate,
    end: CivilDate,
    days: Seq<DayEntry>,
    k: int,
)
    requires
        start.is_valid(),
        end.year < i32::MAX,
        is_range_view(s, user_id, start, end, days),
        0 <= k < days.len(),
    ensures
        days[k].date.is_valid(),
    decreases k,
{
    if k > 0 {
        lemma_range_view_valid(s, user_id, start, end, days, k - 1);
        assert(days[k - 1].date.on_or_before(end));
        crate::date::lemma_successor_valid(days[k - 1].date);
    }
}

/// A range view lists each day once, in strictly ascending order.
pub proof fn lemma_range_view_ascending(
    s: Seq<PrayerRecord>,
    user_id: i32,
    start: CivilDate,
    end: CivilDate,
    days: Seq<DayEntry>,
    i: int,
    j: int,
)
    requires
        start.is_valid(),
        end.year < i32::MAX,
        is_range_view(s, user_id, start, end, days),
        0 <= i < j < days.len(),
    ensures
        days[i].date.on_or_before(days[j].date),
        !days[j].date.on_or_before(days[i].date),
    decreases j - i,
{
    lemma_range_view_valid(s, user_id, start, end, days, j - 1);
    assert(days[j - 1].date.on_or_before(end));
    crate::date::lemma_successor_after(days[j - 1].date);
    assert(days[j].date == days[j - 1].date.successor());
    if i < j - 1 {
        lemma_range_view_ascending(s, user_id, start, end, days, i, j - 1);
    }
}

/// A day without a stored record appears with all five flags unset.
pub proof fn lemma_missing_day_is_blank(s: Seq<PrayerRecord>, user_id: i32, date: CivilDate)
    requires
        !contains_key(s, user_id, date),
    ensures
        entry_for(s, user_id, date) == (DayEntry {
            date,
            fajr: false,
            dhuhr: false,
            asr: false,
            maghrib: false,
            isha: false,
        }),
{
}

} // verus!
