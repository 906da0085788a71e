use market_sync::cache::{daily_price_key, daily_price_ttl, market_status_key, plan_daily_price_read, DailyPriceRead, MARKET_STATUS_TTL_SECS};
use market_sync::calendar::LocalTime;
use market_sync::holiday::{new_holidays, HolidayRecord};
use market_sync::index::{constituent_changes, notification_batches, Constituent};
use market_sync::exchange::Exchange;
use market_sync::job::{action_for, job_step, JobAction, JobEvent, JobOutcome, JobState, SyncFundPriceJob, SyncAllIndexStockPriceJob, JOB_LOCK_TTL_SECS};
use market_sync::sync::SyncState;

fn at(seconds: u32) -> LocalTime {
    LocalTime { year: 2024, month: 1, day: 9, weekday: 2, seconds }
}

fn member(code: &str) -> Constituent {
    Constituent { stock_code: code.to_string(), stock_name: format!("name of {}", code) }
}

#[test]
fn cache_keys() {
    assert_eq!(market_status_key("SSE"), "MarketStatus:SSE");
    assert_eq!(daily_price_key("X.SH"), "Stock:Price:K:D:X.SH");
    assert_eq!(MARKET_STATUS_TTL_SECS, 300);
}

#[test]
fn daily_price_entry_lives_until_midnight() {
    assert_eq!(daily_price_ttl(&at(0)), 86400);
    assert_eq!(daily_price_ttl(&at(15 * 3600 + 30 * 60)), 8 * 3600 + 30 * 60);
    assert_eq!(daily_price_ttl(&at(86399)), 1);
}

#[test]
fn daily_price_read_plans() {
    let done = Some(SyncState { date: 20240109, finalized: true });
    let stale = Some(SyncState { date: 20240108, finalized: true });
    assert_eq!(plan_daily_price_read(true, true, None, 20240109, &at(0)), DailyPriceRead::Cached);
    assert_eq!(plan_daily_price_read(true, false, done, 20240109, &at(72000)), DailyPriceRead::StoredAndCache { ttl_secs: 14400 });
    assert_eq!(plan_daily_price_read(true, false, stale, 20240109, &at(72000)), DailyPriceRead::Upstream);
    assert_eq!(plan_daily_price_read(false, true, done, 20240109, &at(72000)), DailyPriceRead::Upstream);
}

#[test]
fn held_lock_skips_the_job() {
    assert_eq!(SyncFundPriceJob::lock_key(), "Sync:Fund:Price");
    let start = JobState::Acquiring;
    assert_eq!(action_for(start), JobAction::TryAcquireLock { ttl_secs: JOB_LOCK_TTL_SECS });
    let (s, a) = job_step(start, JobEvent::LockAcquired { acquired: false });
    assert_eq!(s, JobState::Finished { outcome: JobOutcome::LockUnavailable });
    assert_eq!(a, JobAction::Stop { outcome: JobOutcome::LockUnavailable });
    for stray in [JobEvent::InstrumentsListed { total: 3 }, JobEvent::InstrumentSynced { ok: true }, JobEvent::LockReleased] {
        let (s2, a2) = job_step(s, stray);
        assert_eq!(s2, s);
        assert_eq!(a2, a);
    }
}

#[test]
fn acquired_lock_lists_syncs_every_instrument_and_releases() {
    assert_eq!(SyncAllIndexStockPriceJob::lock_key(), "Sync:Index:Price");
    let (s, a) = job_step(JobState::Acquiring, JobEvent::LockAcquired { acquired: true });
    assert_eq!(a, JobAction::ListInstruments);
    let (s, a) = job_step(s, JobEvent::InstrumentsListed { total: 2 });
    assert_eq!(a, JobAction::SyncInstrument { index: 0 });
    let (s, a) = job_step(s, JobEvent::InstrumentSynced { ok: false });
    assert_eq!(a, JobAction::SyncInstrument { index: 1 });
    let (s, a) = job_step(s, JobEvent::InstrumentSynced { ok: true });
    assert_eq!(a, JobAction::ReleaseLock);
    let (_, a) = job_step(s, JobEvent::LockReleased);
    assert_eq!(a, JobAction::Stop { outcome: JobOutcome::Completed { failed: 1 } });
}

#[test]
fn no_listing_before_the_lock() {
    let (s, a) = job_step(JobState::Acquiring, JobEvent::InstrumentsListed { total: 2 });
    assert_eq!(s, JobState::Acquiring);
    assert_eq!(a, JobAction::TryAcquireLock { ttl_secs: JOB_LOCK_TTL_SECS });
}

#[test]
fn syncing_ignores_stray_lock_reports() {
    let (s, _) = job_step(JobState::Acquiring, JobEvent::LockAcquired { acquired: true });
    let (s, _) = job_step(s, JobEvent::InstrumentsListed { total: 2 });
    let (s2, a2) = job_step(s, JobEvent::LockAcquired { acquired: false });
    assert_eq!(s2, s);
    assert_eq!(a2, JobAction::SyncInstrument { index: 0 });
}

#[test]
fn empty_listing_releases_at_once() {
    let (s, _) = job_step(JobState::Acquiring, JobEvent::LockAcquired { acquired: true });
    let (_, a) = job_step(s, JobEvent::InstrumentsListed { total: 0 });
    assert_eq!(a, JobAction::ReleaseLock);
}

#[test]
fn holidays_are_merged_once() {
    let new_year = HolidayRecord::new(2024, 1, 1, Exchange::SSE);
    assert_eq!(new_year.id, 2024010110);
    let spring = HolidayRecord::new(2024, 2, 12, Exchange::SSE);
    let hk = HolidayRecord::new(2024, 1, 1, Exchange::HKEX);
    let merged = new_holidays(&vec![2024010110], &vec![new_year, spring, hk, spring]);
    assert_eq!(merged, vec![spring, hk]);
    assert!(new_holidays(&Vec::new(), &Vec::new()).is_empty());
}

#[test]
fn constituent_changes_by_code() {
    let stored = vec![member("A"), member("B"), member("C")];
    let published = vec![member("B"), member("D"), member("C")];
    let changes = constituent_changes(&stored, &published);
    assert_eq!(changes.added.iter().map(|c| c.stock_code.clone()).collect::<Vec<_>>(), vec!["D"]);
    assert_eq!(changes.removed.iter().map(|c| c.stock_code.clone()).collect::<Vec<_>>(), vec!["A"]);
    assert_eq!(changes.old.iter().map(|c| c.stock_code.clone()).collect::<Vec<_>>(), vec!["A", "B", "C"]);
    let first = constituent_changes(&Vec::new(), &published);
    assert!(first.old.is_empty());
    assert_eq!(first.added.len(), 3);
}

#[test]
fn notifications_hold_at_most_ten() {
    assert_eq!(notification_batches(0), vec![]);
    assert_eq!(notification_batches(10), vec![(0, 10)]);
    assert_eq!(notification_batches(23), vec![(0, 10), (10, 20), (20, 23)]);
}
