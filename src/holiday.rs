//! Holiday records and the merge of newly published holidays into the store.
use vstd::prelude::*;
use crate::calendar::{holiday_key, spec_holiday_key};
use crate::exchange::Exchange;

verus! {

/// One non-trading day of one exchange, under its composite key.
#[derive(Clone, Copy, Debug, PartialEq, Eq, Structural)]
pub struct HolidayRecord {
    /// `YYYYMMDD` followed by the exchange's discriminator digits.
    pub id: u64,
    pub year: u16,
    pub month: u8,
    pub day: u8,
}

/// Answer to "is this a holiday".
#[derive(Clone, Copy, Debug, PartialEq, Eq, Structural)]
pub struct HolidayQueryResult {
    pub is_holiday: bool,
}

impl HolidayRecord {
    /// The record of `exchange`'s holiday on `year`-`month`-`day`.
    pub fn new(year: u16, month: u8, day: u8, exchange: Exchange) -> (r: HolidayRecord)
        requires
            1 <= year <= 9999,
            1 <= month <= 12,
            1 <= day <= 31,
        ensures
            r.id == spec_holiday_key(year * 10000 + month * 100 + day, exchange),
            r.year == year,
            r.month == month,
            r.day == day,
    {
        let date: u64 = year as u64 * 10000 + month as u64 * 100 + day as u64;
        HolidayRecord { id: holiday_key(date, exchange), year, month, day }
    }
}

/// Some record of `s` has key `id`.
pub open spec fn has_id(s: Seq<HolidayRecord>, id: u64) -> bool {
    exists|i: int| 0 <= i < s.len() && (#[trigger] s[i]).id == id
}

/// The published records to write: those whose key is neither stored nor
/// taken by an earlier published record, in published order.
pub open spec fn spec_new_holidays(stored: Seq<u64>, published: Seq<HolidayRecord>) -> Seq<HolidayRecord>
    decreases published.len(),
{
    if published.len() == 0 {
        Seq::empty()
    } else {
        let rest = spec_new_holidays(stored, published.drop_last());
        let r = published.last();
        if stored.contains(r.id) || has_id(rest, r.id) { rest } else { rest.push(r) }
    }
}

fn contains_id(s: &Vec<HolidayRecord>, id: u64) -> (r: bool)
    ensures
        r == has_id(s@, id),
{
    let mut i: usize = 0;
    while i < s.len()
        invariant
            i <= s@.len(),
            forall|j: int| 0 <= j < i ==> (#[trigger] s@[j]).id != id,
        decreases s@.len() - i,
    {
        if s[i].id == id {
            assert(s@[i as int].id == id);
            return true;
        }
        i = i + 1;
    }
    false
}

fn contains_key(s: &Vec<u64>, id: u64) -> (r: bool)
    ensures
        r == s@.contains(id),
{
    let mut i: usize = 0;
    while i < s.len()
        invariant
            i <= s@.len(),
            forall|j: int| 0 <= j < i ==> s@[j] != id,
        decreases s@.len() - i,
    {
        if s[i] == id {
            return true;
        }
        i = i + 1;
    }
    false
}

/// The published holidays that are not yet stored; holiday records are
/// written once and never updated, so a stored key is left alone.
pub fn new_holidays(stored: &Vec<u64>, published: &Vec<HolidayRecord>) -> (r: Vec<HolidayRecord>)
    ensures
        r@ == spec_new_holidays(stored@, published@),
{
    let mut r: Vec<HolidayRecord> = Vec::new();
    let mut i: usize = 0;
    while i < published.len()
        invariant
            i <= published@.len(),
            r@ == spec_new_holidays(stored@, published@.subrange(0, i as int)),
        decreases published@.len() - i,
    {
        let h = published[i];
        assert(published@.subrange(0, i + 1).drop_last() == published@.subrange(0, i as int));
        assert(published@.subrange(0, i + 1).last() == published@[i as int]);
        if !contains_key(stored, h.id) && !contains_id(&r, h.id) {
            r.push(h);
        }
        i = i + 1;
    }
    assert(published@.subrange(0, published@.len() as int) == published@);
    r
}

/// A merge never rewrites a stored holiday and never writes a key twice.
pub proof fn lemma_new_holidays_are_new(stored: Seq<u64>, published: Seq<HolidayRecord>)
    ensures
        forall|k: int| 0 <= k < spec_new_holidays(stored, published).len() ==>
            !stored.contains(#[trigger] spec_new_holidays(stored, published)[k].id),
        forall|i: int, j: int| 0 <= i < j < spec_new_holidays(stored, published).len() ==>
            (#[trigger] spec_new_holidays(stored, published)[i]).id != (#[trigger] spec_new_holidays(stored, published)[j]).id,
    decreases published.len(),
{
    if published.len() > 0 {
        let rest = spec_new_holidays(stored, published.drop_last());
        lemma_new_holidays_are_new(stored, published.drop_last());
        let r = spec_new_holidays(stored, published);
        let last = published.last();
        if !(stored.contains(last.id) || has_id(rest, last.id)) {
            assert(r == rest.push(last));
            assert forall|i: int, j: int| 0 <= i < j < r.len() implies (#[trigger] r[i]).id != (#[trigger] r[j]).id by {
                if j == rest.len() {
                    assert(r[i] == rest[i]);
                    if rest[i].id == last.id {
                        assert(has_id(rest, last.id));
                    }
                } else {
                    assert(r[i] == rest[i] && r[j] == rest[j]);
                }
            }
            assert forall|k: int| 0 <= k < r.len() implies !stored.contains(#[trigger] r[k].id) by {
                if k < rest.len() {
                    assert(r[k] == rest[k]);
                }
            }
        }
    }
}

/// The batch job that merges newly published holidays of every exchange.
pub struct SyncHolidayJob;

} // verus!
