//! Index constituents: what changed between the stored and the published
//! list, and how changes are batched into notifications.
use vstd::prelude::*;

verus! {

/// Largest number of changed constituents in one notification.
pub const NOTIFICATION_BATCH: usize = 10;

/// One constituent stock of an index.
#[derive(Debug)]
pub struct Constituent {
    pub stock_code: String,
    pub stock_name: String,
}

impl Clone for Constituent {
    fn clone(&self) -> (r: Self)
        ensures
            r == *self,
    {
        Constituent { stock_code: self.stock_code.clone(), stock_name: self.stock_name.clone() }
    }
}

/// Some constituent of `s` has stock code `code`.
pub open spec fn has_code(s: Seq<Constituent>, code: Seq<char>) -> bool {
    exists|i: int| 0 <= i < s.len() && (#[trigger] s[i]).stock_code@ == code
}

/// The constituents of `from` whose code does not occur in `other`, in order.
pub open spec fn missing_from(from: Seq<Constituent>, other: Seq<Constituent>) -> Seq<Constituent>
    decreases from.len(),
{
    if from.len() == 0 {
        Seq::empty()
    } else {
        let rest = missing_from(from.drop_last(), other);
        if has_code(other, from.last().stock_code@) { rest } else { rest.push(from.last()) }
    }
}

fn contains_code(s: &Vec<Constituent>, code: &String) -> (r: bool)
    ensures
        r == has_code(s@, code@),
{
    let mut i: usize = 0;
    while i < s.len()
        invariant
            i <= s@.len(),
            forall|j: int| 0 <= j < i ==> (#[trigger] s@[j]).stock_code@ != code@,
        decreases s@.len() - i,
    {
        if s[i].stock_code == *code {
            assert(s@[i as int].stock_code@ == code@);
            return true;
        }
        i = i + 1;
    }
    false
}

/// The constituents of `from` that `other` lacks, compared by stock code.
pub fn constituents_missing(from: &Vec<Constituent>, other: &Vec<Constituent>) -> (r: Vec<Constituent>)
    ensures
        r@ == missing_from(from@, other@),
{
    let mut r: Vec<Constituent> = Vec::new();
    let mut i: usize = 0;
    while i < from.len()
        invariant
            i <= from@.len(),
            r@ == missing_from(from@.subrange(0, i as int), other@),
        decreases from@.len() - i,
    {
        assert(from@.subrange(0, i + 1).drop_last() == from@.subrange(0, i as int));
        assert(from@.subrange(0, i + 1).last() == from@[i as int]);
        if !contains_code(other, &from[i].stock_code) {
            r.push(from[i].clone());
        }
        i = i + 1;
    }
    assert(from@.subrange(0, from@.len() as int) == from@);
    r
}

fn copy_constituents(v: &Vec<Constituent>) -> (r: Vec<Constituent>)
    ensures
        r@ == v@,
{
    let mut r: Vec<Constituent> = Vec::new();
    let mut i: usize = 0;
    while i < v.len()
        invariant
            i <= v@.len(),
            r@ == v@.subrange(0, i as int),
        decreases v@.len() - i,
    {
        r.push(v[i].clone());
        assert(v@.subrange(0, i + 1) == v@.subrange(0, i as int).push(v@[i as int]));
        i = i + 1;
    }
    assert(v@.subrange(0, v@.len() as int) == v@);
    r
}

/// Changes between the stored constituents of an index and the published ones.
pub struct ConstituentChanges {
    /// Stored before the sync; empty on an index's first sync.
    pub old: Vec<Constituent>,
    /// Published but not stored.
    pub added: Vec<Constituent>,
    /// Stored but no longer published.
    pub removed: Vec<Constituent>,
}

/// Compares the stored constituents with the published ones by stock code,
/// keeping the stored list as it was.
pub fn constituent_changes(stored: &Vec<Constituent>, published: &Vec<Constituent>) -> (r: ConstituentChanges)
    ensures
        r.old@ == stored@,
        r.added@ == missing_from(published@, stored@),
        r.removed@ == missing_from(stored@, published@),
{
    ConstituentChanges {
        old: copy_constituents(stored),
        added: constituents_missing(published, stored),
        removed: constituents_missing(stored, published),
    }
}

/// The `k`-th notification batch over `n` items: items `10k` up to
/// `min(10k + 10, n)`, end excluded.
pub open spec fn spec_batch(k: int, n: int) -> (usize, usize) {
    let start = k * NOTIFICATION_BATCH;
    let end = if start + NOTIFICATION_BATCH < n { start + NOTIFICATION_BATCH } else { n };
    (start as usize, end as usize)
}

/// Splits `n` changed items into notification batches of at most ten,
/// given as index ranges (start included, end excluded) that cover the items
/// in order; only the last batch may be short.
pub fn notification_batches(n: usize) -> (r: Vec<(usize, usize)>)
    ensures
        r@.len() == (n + NOTIFICATION_BATCH - 1) / NOTIFICATION_BATCH as int,
        forall|k: int| 0 <= k < r@.len() ==> #[trigger] r@[k] == spec_batch(k, n as int),
{
    let mut r: Vec<(usize, usize)> = Vec::new();
    let mut start: usize = 0;
    while start < n
        invariant
            start <= n,
            start < n ==> start == r@.len() * NOTIFICATION_BATCH,
            r@.len() * NOTIFICATION_BATCH >= start,
            r@.len() == 0 || (r@.len() - 1) * NOTIFICATION_BATCH < start,
            forall|k: int| 0 <= k < r@.len() ==> #[trigger] r@[k] == spec_batch(k, n as int),
        decreases n - start,
    {
        let end = if n - start > NOTIFICATION_BATCH { start + NOTIFICATION_BATCH } else { n };
        assert(spec_batch(r@.len() as int, n as int) == (start, end));
        r.push((start, end));
        start = end;
    }
    let ghost len = r@.len() as int;
    assert(len == (n + 9) / 10) by (nonlinear_arith)
        requires
            len * 10 >= n,
            len == 0 || (len - 1) * 10 < n,
            n >= 0,
            len >= 0;
    r
}

/// The batch job that refreshes every index's constituents and notifies
/// the changes.
pub struct SyncIndexStocksJob;

} // verus!
