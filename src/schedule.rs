//! The nearest prayer of a day's schedule and the time until the next one,
//! measured against a clock time with a grace period after each prayer.

use chrono::Timelike;
use vstd::prelude::*;

verus! {

/// Seconds in a day.
pub const DAY_SECONDS: u32 = 86400;

/// Grace period after a prayer's time during which it is still current:
/// 35 minutes.
pub const TOLERANCE_SECONDS: u32 = 2100;

/// The five daily prayers, in their fixed order.
#[derive(Clone, Copy, Debug, PartialEq, Eq, Structural)]
pub enum Prayer {
    Fajr,
    Dhuhr,
    Asr,
    Maghrib,
    Isha,
}

/// The prayer at position `k` of the fixed order.
pub open spec fn prayer_at(k: int) -> Prayer {
    if k == 0 {
        Prayer::Fajr
    } else if k == 1 {
        Prayer::Dhuhr
    } else if k == 2 {
        Prayer::Asr
    } else if k == 3 {
        Prayer::Maghrib
    } else {
        Prayer::Isha
    }
}

/// Why no prayer could be picked.
#[derive(Clone, Copy, Debug, PartialEq, Eq, Structural)]
pub enum ScheduleError {
    /// No prayer time of the schedule could be read.
    ScheduleUnavailable,
}

/// A time of day to the second.
#[derive(Clone, Copy, Debug, PartialEq, Eq, Structural)]
pub struct ClockTime {
    pub hour: u32,
    pub minute: u32,
    pub second: u32,
}

impl ClockTime {
    pub open spec fn is_valid(self) -> bool {
        self.hour < 24 && self.minute < 60 && self.second < 60
    }

    /// Seconds since midnight.
    pub open spec fn seconds(self) -> int {
        self.hour * 3600 + self.minute * 60 + self.second
    }
}

/// A day's prayer times as the provider gave them (`HH:MM`); a missing
/// entry is `None`.
#[derive(Clone, Debug)]
pub struct DailySchedule {
    pub fajr: Option<String>,
    pub dhuhr: Option<String>,
    pub asr: Option<String>,
    pub maghrib: Option<String>,
    pub isha: Option<String>,
}

/// How far the prayer at `t` is from `now` (seconds since midnight) when
/// ranking: the gap ahead for a prayer still to come, the time elapsed for
/// one within the grace period, and the gap to tomorrow's occurrence for one
/// further past.
pub open spec fn rank_distance(t: int, now: int) -> int {
    if t > now {
        t - now
    } else if now - t <= TOLERANCE_SECONDS {
        now - t
    } else {
        DAY_SECONDS - (now - t)
    }
}

/// The same as `rank_distance`, except that a prayer within its grace
/// period is at distance zero: it is happening now.
pub open spec fn countdown_distance(t: int, now: int) -> int {
    if t > now {
        t - now
    } else if now - t <= TOLERANCE_SECONDS {
        0
    } else {
        DAY_SECONDS - (now - t)
    }
}

/// Every time is a time of day.
pub open spec fn times_in_day(times: Seq<Option<u32>>) -> bool {
    forall|i: int| 0 <= i < times.len() ==> (#[trigger] times[i] matches Some(t) ==> t < DAY_SECONDS)
}

/// No time is known.
pub open spec fn all_absent(times: Seq<Option<u32>>) -> bool {
    forall|i: int| 0 <= i < times.len() ==> #[trigger] times[i] is None
}

/// Position `k` holds a time of least rank distance, and no earlier position
/// holds one as near.
pub open spec fn is_nearest(times: Seq<Option<u32>>, now: int, k: int) -> bool {
    &&& 0 <= k < times.len()
    &&& times[k] is Some
    &&& forall|j: int|
        0 <= j < times.len() && #[trigger] times[j] is Some ==> rank_distance(
            times[k]->0 as int,
            now,
        ) <= rank_distance(times[j]->0 as int, now)
    &&& forall|j: int|
        0 <= j < k && #[trigger] times[j] is Some ==> rank_distance(times[k]->0 as int, now)
            < rank_distance(times[j]->0 as int, now)
}

/// `d` is the least countdown distance of the known times.
pub open spec fn is_soonest(times: Seq<Option<u32>>, now: int, d: int) -> bool {
    &&& exists|k: int|
        0 <= k < times.len() && #[trigger] times[k] is Some && d == countdown_distance(
            times[k]->0 as int,
            now,
        )
    &&& forall|j: int|
        0 <= j < times.len() && #[trigger] times[j] is Some ==> d <= countdown_distance(
            times[j]->0 as int,
            now,
        )
}

/// The position of the nearest prayer, if any time is known.
pub open spec fn nearest_spec(times: Seq<Option<u32>>, now: int) -> Option<int> {
    if exists|k: int| is_nearest(times, now, k) {
        Some(choose|k: int| is_nearest(times, now, k))
    } else {
        None
    }
}

/// The least countdown distance, if any time is known.
pub open spec fn soonest_spec(times: Seq<Option<u32>>, now: int) -> Option<int> {
    if exists|d: int| is_soonest(times, now, d) {
        Some(choose|d: int| is_soonest(times, now, d))
    } else {
        None
    }
}

/// Rank distance of the prayer at `t` from `now`.
fn rank_gap(t: u32, now: u32) -> (r: u32)
    requires
        t < DAY_SECONDS,
        now < DAY_SECONDS,
    ensures
        r == rank_distance(t as int, now as int),
        r < DAY_SECONDS,
{
    if t > now {
        t - now
    } else if now - t <= TOLERANCE_SECONDS {
        now - t
    } else {
        DAY_SECONDS - (now - t)
    }
}

/// Countdown distance of the prayer at `t` from `now`.
fn countdown_gap(t: u32, now: u32) -> (r: u32)
    requires
        t < DAY_SECONDS,
        now < DAY_SECONDS,
    ensures
        r == countdown_distance(t as int, now as int),
        r < DAY_SECONDS,
{
    if t > now {
        t - now
    } else if now - t <= TOLERANCE_SECONDS {
        0
    } else {
        DAY_SECONDS - (now - t)
    }
}

/// The position of the prayer nearest to `now` among the known times
/// (seconds since midnight); the first such position on a tie. `None` when no
/// time is known.
pub fn nearest_index(times: &Vec<Option<u32>>, now: u32) -> (r: Option<usize>)
    requires
        times_in_day(times@),
        now < DAY_SECONDS,
    ensures
        r is None <==> all_absent(times@),
        r matches Some(k) ==> is_nearest(times@, now as int, k as int),
{
    let mut best: Option<usize> = None;
    let mut best_gap: u32 = DAY_SECONDS;
    let mut i: usize = 0;
    while i < times.len()
        invariant
            times_in_day(times@),
            now < DAY_SECONDS,
            i <= times@.len(),
            best is None ==> best_gap == DAY_SECONDS && forall|j: int|
                0 <= j < i ==> #[trigger] times@[j] is None,
            best matches Some(k) ==> k < i && is_nearest(times@.subrange(0, i as int), now as int, k as int)
                && best_gap == rank_distance(times@[k as int]->0 as int, now as int),
        decreases times@.len() - i,
    {
        let ghost prefix = times@.subrange(0, i as int);
        let ghost next = times@.subrange(0, i + 1);
        assert(forall|j: int| 0 <= j < i ==> next[j] == prefix[j]);
        match times[i] {
            Some(t) => {
                let g = rank_gap(t, now);
                if g < best_gap {
                    best = Some(i);
                    best_gap = g;
                }
            },
            None => {},
        }
        i = i + 1;
    }
    assert(times@.subrange(0, times@.len() as int) == times@);
    best
}

/// The least countdown distance from `now` among the known times
/// (seconds since midnight). `None` when no time is known.
pub fn soonest_countdown(times: &Vec<Option<u32>>, now: u32) -> (r: Option<u32>)
    requires
        times_in_day(times@),
        now < DAY_SECONDS,
    ensures
        r is None <==> all_absent(times@),
        r matches Some(d) ==> is_soonest(times@, now as int, d as int) && d < DAY_SECONDS,
{
    let mut best: Option<u32> = None;
    let ghost mut best_k: int = 0;
    let mut i: usize = 0;
    while i < times.len()
        invariant
            times_in_day(times@),
            now < DAY_SECONDS,
            i <= times@.len(),
            best is None ==> forall|j: int| 0 <= j < i ==> #[trigger] times@[j] is None,
            best matches Some(d) ==> d < DAY_SECONDS && 0 <= best_k < i && times@[best_k] is Some
                && d == countdown_distance(times@[best_k]->0 as int, now as int) && forall|j: int|
                0 <= j < i && #[trigger] times@[j] is Some ==> d <= countdown_distance(
                    times@[j]->0 as int,
                    now as int,
                ),
        decreases times@.len() - i,
    {
        match times[i] {
            Some(t) => {
                let g = countdown_gap(t, now);
                match best {
                    Some(d) => {
                        if g < d {
                            best = Some(g);
                            proof {
                                best_k = i as int;
                            }
                        }
                    },
                    None => {
                        best = Some(g);
                        proof {
                            best_k = i as int;
                        }
                    },
                }
            },
            None => {},
        }
        i = i + 1;
    }
    proof {
        if best is Some {
            assert(times@[best_k] is Some);
        }
    }
    best
}

/// Hour and minute of the time of day that the text `s` spells as `HH:MM`,
/// if it spells one.
pub uninterp spec fn parsed_hour_minute(s: Seq<char>) -> Option<(u32, u32)>;

/// Relies on chrono::NaiveTime::parse_from_str with the pattern "%H:%M": its
/// result depends on the text alone, and a time that it returns has an hour
/// below 24 and a minute below 60.
#[verifier::external_body]
fn parse_hour_minute(s: &str) -> (r: Option<(u32, u32)>)
    ensures
        r == parsed_hour_minute(s@),
        r matches Some((h, m)) ==> h < 24 && m < 60,
{
    match chrono::NaiveTime::parse_from_str(s, "%H:%M") {
        Ok(t) => Some((t.hour(), t.minute())),
        Err(_) => None,
    }
}

/// Seconds since midnight of a schedule entry, when it is present and reads
/// as a time of day.
pub open spec fn entry_seconds(e: Option<String>) -> Option<u32> {
    match e {
        Some(s) => match parsed_hour_minute(s@) {
            Some((h, m)) => Some((h * 3600 + m * 60) as u32),
            None => None,
        },
        None => None,
    }
}

/// The known times of a schedule, in the fixed prayer order.
pub open spec fn schedule_times(s: DailySchedule) -> Seq<Option<u32>> {
    seq![
        entry_seconds(s.fajr),
        entry_seconds(s.dhuhr),
        entry_seconds(s.asr),
        entry_seconds(s.maghrib),
        entry_seconds(s.isha),
    ]
}

/// Seconds since midnight of one schedule entry.
fn read_entry(e: &Option<String>) -> (r: Option<u32>)
    ensures
        r == entry_seconds(*e),
        r matches Some(t) ==> t < DAY_SECONDS,
{
    match e {
        Some(s) => match parse_hour_minute(s.as_str()) {
            Some((h, m)) => Some(h * 3600 + m * 60),
            None => None,
        },
        None => None,
    }
}

/// The known times of `schedule`; an entry that does not read as a time is
/// left out rather than failing the whole schedule.
fn read_schedule(schedule: &DailySchedule) -> (r: Vec<Option<u32>>)
    ensures
        r@ == schedule_times(*schedule),
        times_in_day(r@),
{
    let r = vec![
        read_entry(&schedule.fajr),
        read_entry(&schedule.dhuhr),
        read_entry(&schedule.asr),
        read_entry(&schedule.maghrib),
        read_entry(&schedule.isha),
    ];
    assert(r@ == schedule_times(*schedule));
    r
}

/// The prayer nearest to `now`, a prayer within its grace period counting by
/// the time elapsed since it; the earlier prayer on a tie. Fails when no entry
/// of the schedule reads as a time.
pub fn get_nearest_prayer(schedule: &DailySchedule, now: &ClockTime) -> (r: Result<
    Prayer,
    ScheduleError,
>)
    requires
        now.is_valid(),
    ensures
        r == match nearest_spec(schedule_times(*schedule), now.seconds()) {
            Some(k) => Ok(prayer_at(k)),
            None => Err(ScheduleError::ScheduleUnavailable),
        },
        r is Err <==> all_absent(schedule_times(*schedule)),
        r matches Ok(p) ==> exists|k: int|
            0 <= k < 5 && #[trigger] schedule_times(*schedule)[k] is Some && p == prayer_at(k),
{
    let times = read_schedule(schedule);
    let now_s = now.hour * 3600 + now.minute * 60 + now.second;
    match nearest_index(&times, now_s) {
        Some(k) => {
            proof {
                lemma_nearest_unique(times@, now_s as int, k as int);
                assert(times@[k as int] is Some);
            }
            Ok(
                if k == 0 {
                    Prayer::Fajr
                } else if k == 1 {
                    Prayer::Dhuhr
                } else if k == 2 {
                    Prayer::Asr
                } else if k == 3 {
                    Prayer::Maghrib
                } else {
                    Prayer::Isha
                },
            )
        },
        None => {
            proof {
                assert forall|k: int| !is_nearest(times@, now_s as int, k) by {
                    if 0 <= k < times@.len() {
                        assert(times@[k] is None);
                    }
                }
            }
            Err(ScheduleError::ScheduleUnavailable)
        },
    }
}

/// Only one position is the nearest.
proof fn lemma_nearest_unique(times: Seq<Option<u32>>, now: int, k: int)
    requires
        is_nearest(times, now, k),
    ensures
        nearest_spec(times, now) == Some(k),
{
    let c = choose|c: int| is_nearest(times, now, c);
    assert(is_nearest(times, now, c));
    if c < k {
        assert(times[c] is Some);
    } else if k < c {
        assert(times[k] is Some);
    }
}

/// The time until the next prayer from `now`: "Now" while a prayer is within
/// its grace period, else the countdown as `-H:MM:SS`. Fails when no entry of
/// the schedule reads as a time.
pub fn get_time_until_next_prayer(schedule: &DailySchedule, now: &ClockTime) -> (r: Result<
    String,
    ScheduleError,
>)
    requires
        now.is_valid(),
    ensures
        soonest_spec(schedule_times(*schedule), now.seconds()) is None ==> r == Err::<
            String,
            ScheduleError,
        >(ScheduleError::ScheduleUnavailable),
        soonest_spec(schedule_times(*schedule), now.seconds()) matches Some(d) ==> (r matches Ok(
            text,
        ) && text@ == countdown_text(d)),
        r is Err <==> all_absent(schedule_times(*schedule)),
{
    let times = read_schedule(schedule);
    let now_s = now.hour * 3600 + now.minute * 60 + now.second;
    match soonest_countdown(&times, now_s) {
        Some(d) => {
            proof {
                let c = choose|c: int| is_soonest(times@, now_s as int, c);
                assert(is_soonest(times@, now_s as int, d as int));
                assert(is_soonest(times@, now_s as int, c));
                let kc = choose|kc: int|
                    0 <= kc < times@.len() && #[trigger] times@[kc] is Some && c == countdown_distance(
                        times@[kc]->0 as int,
                        now_s as int,
                    );
                let kd = choose|kd: int|
                    0 <= kd < times@.len() && #[trigger] times@[kd] is Some && d == countdown_distance(
                        times@[kd]->0 as int,
                        now_s as int,
                    );
                assert(c <= d);
                assert(d <= c);
            }
            Ok(format_countdown(d))
        },
        None => {
            proof {
                assert forall|d: int| !is_soonest(times@, now_s as int, d) by {
                    if is_soonest(times@, now_s as int, d) {
                        let k = choose|k: int|
                            0 <= k < times@.len() && #[trigger] times@[k] is Some && d
                                == countdown_distance(times@[k]->0 as int, now_s as int);
                        assert(times@[k] is None);
                    }
                }
            }
            Err(ScheduleError::ScheduleUnavailable)
        },
    }
}

/// Decimal digits of `n`, without leading zeros.
pub open spec fn decimal(n: nat) -> Seq<char>
    decreases n,
{
    if n < 10 {
        seq![digit(n)]
    } else {
        decimal(n / 10).push(digit(n % 10))
    }
}

/// The digit character of `n` below 10.
pub open spec fn digit(n: nat) -> char {
    seq!['0', '1', '2', '3', '4', '5', '6', '7', '8', '9'][n as int]
}

/// `n` below 100 as two digits.
pub open spec fn two_digits(n: nat) -> Seq<char> {
    seq![digit(n / 10), digit(n % 10)]
}

/// The display of a countdown of `d` seconds: "Now" at zero, else
/// `-H:MM:SS`.
pub open spec fn countdown_text(d: int) -> Seq<char> {
    if d == 0 {
        seq!['N', 'o', 'w']
    } else {
        seq!['-'] + decimal((d / 3600) as nat) + seq![':'] + two_digits(((d % 3600) / 60) as nat)
            + seq![':'] + two_digits((d % 60) as nat)
    }
}

/// Relies on std's format! with "-{}:{:02}:{:02}": an unsigned integer is
/// written in decimal without leading zeros, and `{:02}` pads one below 100
/// to two digits.
#[verifier::external_body]
fn render_hms(h: u32, m: u32, s: u32) -> (r: String)
    requires
        m < 60,
        s < 60,
    ensures
        r@ == seq!['-'] + decimal(h as nat) + seq![':'] + two_digits(m as nat) + seq![':']
            + two_digits(s as nat),
{
    format!("-{}:{:02}:{:02}", h, m, s)
}

/// The display of a countdown of `d` seconds.
pub fn format_countdown(d: u32) -> (r: String)
    ensures
        r@ == countdown_text(d as int),
{
    if d == 0 {
        let r = "Now".to_owned();
        proof {
            reveal_strlit("Now");
        }
        r
    } else {
        render_hms(d / 3600, (d % 3600) / 60, d % 60)
    }
}

} // verus!
