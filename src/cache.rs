//! Result-cache policy: keys, lifetimes, and when a daily price series may
//! be served from or written to the cache.
use vstd::prelude::*;
use crate::calendar::{LocalTime, SECONDS_PER_DAY};
use crate::sync::{SyncState, spec_is_complete, is_complete};

verus! {

/// Lifetime of a cached market status, in seconds.
pub const MARKET_STATUS_TTL_SECS: u64 = 300;

/// Cache key of the market status of an exchange or instrument code.
pub fn market_status_key(code: &str) -> (r: String)
    ensures
        r@ == "MarketStatus:"@ + code@,
{
    String::from_str("MarketStatus:").concat(code)
}

/// Cache key of the daily price series of an instrument.
pub fn daily_price_key(code: &str) -> (r: String)
    ensures
        r@ == "Stock:Price:K:D:"@ + code@,
{
    String::from_str("Stock:Price:K:D:").concat(code)
}

/// Seconds from local time of day `seconds` until the next local midnight.
pub open spec fn spec_daily_price_ttl(seconds: u32) -> int {
    SECONDS_PER_DAY as int - seconds as int
}

/// Lifetime of a cached daily price series written at local time `local`:
/// the entry expires when the exchange-local day rolls over.
pub fn daily_price_ttl(local: &LocalTime) -> (r: u64)
    requires
        local.wf(),
    ensures
        r == spec_daily_price_ttl(local.seconds),
        1 <= r <= SECONDS_PER_DAY,
{
    (SECONDS_PER_DAY - local.seconds) as u64
}

/// A daily price entry written at local time `T` lives exactly `24:00 - T`,
/// so it expires at the exchange-local midnight that ends the day.
pub proof fn lemma_daily_price_entry_expires_at_midnight(local: LocalTime)
    requires
        local.wf(),
    ensures
        local.seconds + spec_daily_price_ttl(local.seconds) == SECONDS_PER_DAY,
        0 < spec_daily_price_ttl(local.seconds) <= SECONDS_PER_DAY,
{
}

/// Where a daily price query is answered from.
#[derive(Clone, Copy, Debug, PartialEq, Eq, Structural)]
pub enum DailyPriceRead {
    /// Serve the cached series.
    Cached,
    /// Serve the stored series and cache it for `ttl_secs`.
    StoredAndCache { ttl_secs: u64 },
    /// Not final for today: fetch from the price source.
    Upstream,
}

/// The read plan of a daily price query.
pub open spec fn spec_plan_daily_price_read(
    use_cache: bool,
    cache_hit: bool,
    state: Option<SyncState>,
    today: u64,
    local: LocalTime,
) -> DailyPriceRead {
    if !use_cache {
        DailyPriceRead::Upstream
    } else if cache_hit {
        DailyPriceRead::Cached
    } else if spec_is_complete(state, today) {
        DailyPriceRead::StoredAndCache { ttl_secs: spec_daily_price_ttl(local.seconds) as u64 }
    } else {
        DailyPriceRead::Upstream
    }
}

/// Decides how to answer a daily price query: the cache only when asked
/// for; on a miss, the stored series (which is then cached until local
/// midnight) only when the sync record is final for today; else upstream.
pub fn plan_daily_price_read(
    use_cache: bool,
    cache_hit: bool,
    state: Option<SyncState>,
    today: u64,
    local: &LocalTime,
) -> (r: DailyPriceRead)
    requires
        local.wf(),
    ensures
        r == spec_plan_daily_price_read(use_cache, cache_hit, state, today, *local),
{
    if !use_cache {
        DailyPriceRead::Upstream
    } else if cache_hit {
        DailyPriceRead::Cached
    } else if is_complete(state, today) {
        DailyPriceRead::StoredAndCache { ttl_secs: daily_price_ttl(local) }
    } else {
        DailyPriceRead::Upstream
    }
}

/// A series is written to the cache only when it is final for today.
pub proof fn lemma_cache_fill_needs_finalized(
    use_cache: bool,
    cache_hit: bool,
    state: Option<SyncState>,
    today: u64,
    local: LocalTime,
)
    ensures
        spec_plan_daily_price_read(use_cache, cache_hit, state, today, local) is StoredAndCache
            ==> spec_is_complete(state, today),
{
}

} // verus!
