//! The record store: at most one completion record per user and date.

use crate::date::CivilDate;
use vstd::prelude::*;

verus! {

/// Which of the five daily prayers a user completed on one date.
#[derive(Clone, Copy, Debug, PartialEq, Eq, Structural)]
pub struct PrayerRecord {
    pub user_id: i32,
    pub date: CivilDate,
    pub fajr: bool,
    pub dhuhr: bool,
    pub asr: bool,
    pub maghrib: bool,
    pub isha: bool,
}

impl PrayerRecord {
    /// The record belongs to `user_id` on `date`.
    pub open spec fn has_key(self, user_id: i32, date: CivilDate) -> bool {
        self.user_id == user_id && self.date == date
    }
}

/// No two records share a user and a date.
pub open spec fn keys_unique(s: Seq<PrayerRecord>) -> bool {
    forall|i: int, j: int|
        0 <= i < s.len() && 0 <= j < s.len() && i != j ==> !s[i].has_key(s[j].user_id, s[j].date)
}

/// Some record of `s` belongs to `user_id` on `date`.
pub open spec fn contains_key(s: Seq<PrayerRecord>, user_id: i32, date: CivilDate) -> bool {
    exists|i: int| 0 <= i < s.len() && s[i].has_key(user_id, date)
}

/// The position of the record of `user_id` on `date`, where there is one.
pub open spec fn key_position(s: Seq<PrayerRecord>, user_id: i32, date: CivilDate) -> int {
    choose|i: int| 0 <= i < s.len() && s[i].has_key(user_id, date)
}

/// The record of `user_id` on `date`, if any.
pub open spec fn lookup(s: Seq<PrayerRecord>, user_id: i32, date: CivilDate) -> Option<
    PrayerRecord,
> {
    if contains_key(s, user_id, date) {
        Some(s[key_position(s, user_id, date)])
    } else {
        None
    }
}

/// The records after writing `r`: the record with `r`'s key is replaced in
/// place, or `r` is appended when there is none.
pub open spec fn upserted(s: Seq<PrayerRecord>, r: PrayerRecord) -> Seq<PrayerRecord> {
    if contains_key(s, r.user_id, r.date) {
        s.update(key_position(s, r.user_id, r.date), r)
    } else {
        s.push(r)
    }
}

/// The records of `s` dated `date`, in the order in which they are stored.
pub open spec fn records_on(s: Seq<PrayerRecord>, date: CivilDate) -> Seq<PrayerRecord>
    decreases s.len(),
{
    if s.len() == 0 {
        Seq::empty()
    } else {
        let before = records_on(s.drop_last(), date);
        if s.last().date == date {
            before.push(s.last())
        } else {
            before
        }
    }
}

/// Completion records in insertion order.
pub struct RecordStore {
    records: Vec<PrayerRecord>,
}

impl View for RecordStore {
    type V = Seq<PrayerRecord>;

    closed spec fn view(&self) -> Seq<PrayerRecord> {
        self.records@
    }
}

impl RecordStore {
    /// The store holds at most one record per user and date.
    pub open spec fn wf(&self) -> bool {
        keys_unique(self@)
    }

    /// An empty store.
    pub fn new() -> (r: RecordStore)
        ensures
            r.wf(),
            r@ == Seq::<PrayerRecord>::empty(),
    {
        RecordStore { records: Vec::new() }
    }

    /// Number of stored records.
    pub fn len(&self) -> (r: usize)
        ensures
            r == self@.len(),
    {
        self.records.len()
    }

    /// Position of the record of `user_id` on `date`.
    fn find(&self, user_id: i32, date: &CivilDate) -> (r: Option<usize>)
        requires
            self.wf(),
        ensures
            r matches Some(i) ==> i < self@.len() && self@[i as int].has_key(user_id, *date)
                && i == key_position(self@, user_id, *date),
            r is None <==> !contains_key(self@, user_id, *date),
    {
        let mut i: usize = 0;
        while i < self.records.len()
            invariant
                i <= self@.len(),
                self.wf(),
                forall|j: int| 0 <= j < i ==> !self@[j].has_key(user_id, *date),
            decreases self@.len() - i,
        {
            let r = &self.records[i];
            if r.user_id == user_id && r.date == *date {
                let ghost k = key_position(self@, user_id, *date);
                assert(self@[k].has_key(user_id, *date));
                return Some(i);
            }
            i = i + 1;
        }
        None
    }
}

/// Writes `record`: overwrites the five flags of the record with the same
/// user and date, or inserts it when there is none.
pub fn add_or_update_prayer_record(store: &mut RecordStore, record: &PrayerRecord)
    requires
        old(store).wf(),
    ensures
        final(store).wf(),
        final(store)@ == upserted(old(store)@, *record),
{
    match store.find(record.user_id, &record.date) {
        Some(i) => {
            store.records.set(i, *record);
        },
        None => {
            store.records.push(*record);
        },
    }
    proof {
        lemma_upserted_unique(old(store)@, *record);
    }
}

/// The record of `user_id` on `date`, if there is one.
pub fn get_prayer_record(store: &RecordStore, user_id: i32, date: &CivilDate) -> (r: Option<PrayerRecord>)
    requires
        store.wf(),
    ensures
        r == lookup(store@, user_id, *date),
{
    match store.find(user_id, date) {
        Some(i) => Some(store.records[i]),
        None => None,
    }
}

/// Every user's record on `date`, in insertion order.
pub fn get_prayer_records_by_date(store: &RecordStore, date: &CivilDate) -> (r: Vec<PrayerRecord>)
    ensures
        r@ == records_on(store@, *date),
{
    let mut out: Vec<PrayerRecord> = Vec::new();
    let mut i: usize = 0;
    while i < store.records.len()
        invariant
            i <= store@.len(),
            out@ == records_on(store@.subrange(0, i as int), *date),
        decreases store@.len() - i,
    {
        let r = store.records[i];
        proof {
            assert(store@.subrange(0, i + 1).drop_last() == store@.subrange(0, i as int));
        }
        if r.date == *date {
            out.push(r);
        }
        i = i + 1;
    }
    proof {
        assert(store@.subrange(0, store@.len() as int) == store@);
    }
    out
}

/// Writing a record keeps keys unique.
pub proof fn lemma_upserted_unique(s: Seq<PrayerRecord>, r: PrayerRecord)
    requires
        keys_unique(s),
    ensures
        keys_unique(upserted(s, r)),
{
    if contains_key(s, r.user_id, r.date) {
        let k = key_position(s, r.user_id, r.date);
        let t = upserted(s, r);
        assert forall|i: int, j: int|
            0 <= i < t.len() && 0 <= j < t.len() && i != j implies !t[i].has_key(
                t[j].user_id,
                t[j].date,
            ) by {
            if i == k {
                assert(!s[j].has_key(s[k].user_id, s[k].date));
            } else if j == k {
                assert(!s[i].has_key(s[k].user_id, s[k].date));
            }
        }
    } else {
        let t = upserted(s, r);
        assert forall|i: int, j: int|
            0 <= i < t.len() && 0 <= j < t.len() && i != j implies !t[i].has_key(
                t[j].user_id,
                t[j].date,
            ) by {
            if i == s.len() {
                assert(!s[j].has_key(r.user_id, r.date));
            } else if j == s.len() {
                assert(!s[i].has_key(r.user_id, r.date));
            }
        }
    }
}

/// Write-then-read: after a record is written, looking up its user and date
/// gives that record back.
pub proof fn lemma_write_then_read(s: Seq<PrayerRecord>, r: PrayerRecord)
    requires
        keys_unique(s),
    ensures
        lookup(upserted(s, r), r.user_id, r.date) == Some(r),
{
    lemma_upserted_unique(s, r);
    let t = upserted(s, r);
    let k = if contains_key(s, r.user_id, r.date) {
        key_position(s, r.user_id, r.date)
    } else {
        s.len() as int
    };
    assert(t[k] == r);
    assert(contains_key(t, r.user_id, r.date));
    let p = key_position(t, r.user_id, r.date);
    assert(p == k);
}

/// Writing twice for one user and date leaves a single record for them,
/// holding the second write, and no more records than one write would.
pub proof fn lemma_second_write_overwrites(s: Seq<PrayerRecord>, r1: PrayerRecord, r2: PrayerRecord)
    requires
        keys_unique(s),
        r1.user_id == r2.user_id,
        r1.date == r2.date,
    ensures
        keys_unique(upserted(upserted(s, r1), r2)),
        upserted(upserted(s, r1), r2).len() == upserted(s, r1).len(),
        upserted(s, r1).len() == s.len() + if contains_key(s, r1.user_id, r1.date) { 0int } else { 1int },
        lookup(upserted(upserted(s, r1), r2), r2.user_id, r2.date) == Some(r2),
        forall|i: int, j: int|
            #![trigger upserted(upserted(s, r1), r2)[i], upserted(upserted(s, r1), r2)[j]]
            0 <= i < upserted(upserted(s, r1), r2).len() && 0 <= j < upserted(
                upserted(s, r1),
                r2,
            ).len() && upserted(upserted(s, r1), r2)[i].has_key(r2.user_id, r2.date)
                && upserted(upserted(s, r1), r2)[j].has_key(r2.user_id, r2.date) ==> i == j,
{
    lemma_upserted_unique(s, r1);
    let t = upserted(s, r1);
    lemma_write_then_read(s, r1);
    assert(contains_key(t, r2.user_id, r2.date));
    lemma_upserted_unique(t, r2);
    lemma_write_then_read(t, r2);
}

} // verus!
