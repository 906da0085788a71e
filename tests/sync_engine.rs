use bigdecimal::BigDecimal;
use market_sync::price::{create_stock_daily_price, parse_date_key, DailyPriceBar, PriceError, StockDailyPriceDTO};
use market_sync::price::create_daily_prices;
use market_sync::sync::{
    contains_date, latest_date, mark_finalized, mark_pending, one_bar_per_date, reconcile, should_finalize,
    sync_start, sync_stock_daily_price, PriceHistory, SyncAction, SyncEvent, SyncPhase, SyncRun, SyncStart,
    SyncState,
};
use std::str::FromStr;

fn bar(code: &str, date: u64, close: &str) -> DailyPriceBar {
    let d = |s: &str| BigDecimal::from_str(s).unwrap();
    DailyPriceBar {
        code: code.to_string(),
        date,
        open: d("10"),
        close: d(close),
        high: d("11"),
        low: d("9"),
        volume: Some(d("1000")),
        amount: None,
    }
}

fn dto(d: &str, v: &str, e: &str) -> StockDailyPriceDTO {
    StockDailyPriceDTO {
        d: d.to_string(),
        o: "10.5".to_string(),
        h: "11".to_string(),
        l: "9.75".to_string(),
        c: "10.25".to_string(),
        v: v.to_string(),
        e: e.to_string(),
        zd: String::new(),
        zdf: String::new(),
        hs: String::new(),
    }
}

fn dates(h: &PriceHistory) -> Vec<u64> {
    h.bars.iter().map(|b| b.date).collect()
}

#[test]
fn sse_sync_keeps_stored_bar_and_inserts_new_one() {
    let mut history = PriceHistory::new();
    history.insert_batch(&vec![bar("X.SH", 20240104, "10"), bar("X.SH", 20240105, "10.5")]);
    let state = Some(SyncState { date: 20240108, finalized: false });
    let fetched = vec![bar("X.SH", 20240105, "10.1"), bar("X.SH", 20240108, "10.8")];
    let r = sync_stock_daily_price(&mut history, state, &fetched, 20240109, false, false);
    assert_eq!(dates(&history), vec![20240104, 20240105, 20240108]);
    assert_eq!(history.bars[1].close, BigDecimal::from_str("10.5").unwrap());
    assert_eq!(history.bars[2].close, BigDecimal::from_str("10.8").unwrap());
    assert_eq!(r, SyncState { date: 20240108, finalized: false });
    let first = sync_stock_daily_price(&mut PriceHistory::new(), None, &fetched, 20240109, false, false);
    assert_eq!(first, SyncState { date: 20240109, finalized: false });
}

#[test]
fn hkex_sync_overwrites_latest_stored_bar() {
    let mut history = PriceHistory::new();
    history.insert_batch(&vec![bar("700.HK", 20240104, "300"), bar("700.HK", 20240105, "301")]);
    let fetched = vec![bar("700.HK", 20240104, "299"), bar("700.HK", 20240105, "302")];
    let r = sync_stock_daily_price(&mut history, None, &fetched, 20240105, false, true);
    assert_eq!(history.bars[0].close, BigDecimal::from_str("300").unwrap());
    assert_eq!(history.bars[1].close, BigDecimal::from_str("302").unwrap());
    assert_eq!(r, SyncState { date: 20240105, finalized: true });
}

#[test]
fn sync_twice_changes_nothing_more() {
    let mut history = PriceHistory::new();
    history.insert_batch(&vec![bar("700.HK", 20240105, "301")]);
    let fetched = vec![bar("700.HK", 20240105, "302"), bar("700.HK", 20240108, "303")];
    let s1 = sync_stock_daily_price(&mut history, None, &fetched, 20240109, false, true);
    let after_first: Vec<String> = history.bars.iter().map(|b| format!("{} {}", b.date, b.close)).collect();
    let s2 = sync_stock_daily_price(&mut history, Some(s1), &fetched, 20240109, false, true);
    let after_second: Vec<String> = history.bars.iter().map(|b| format!("{} {}", b.date, b.close)).collect();
    assert_eq!(after_first, after_second);
    assert_eq!(s1, s2);
    assert_eq!(s1, SyncState { date: 20240109, finalized: false });
}

#[test]
fn complete_sync_does_nothing() {
    let mut history = PriceHistory::new();
    let state = Some(SyncState { date: 20240109, finalized: true });
    let fetched = vec![bar("X.SH", 20240109, "1")];
    assert_eq!(sync_start(state, 20240109), SyncStart::Complete);
    let r = sync_stock_daily_price(&mut history, state, &fetched, 20240109, false, false);
    assert!(history.bars.is_empty());
    assert_eq!(r, SyncState { date: 20240109, finalized: true });
}

#[test]
fn non_trading_day_finalizes_without_todays_bar() {
    let mut history = PriceHistory::new();
    let r = sync_stock_daily_price(&mut history, None, &vec![bar("X.SH", 20240105, "1")], 20240106, true, false);
    assert_eq!(r, SyncState { date: 20240106, finalized: true });
    assert_eq!(dates(&history), vec![20240105]);
}

#[test]
fn finalized_record_is_not_reset() {
    let done = SyncState { date: 20240105, finalized: true };
    assert_eq!(mark_pending(Some(done), 20240108), done);
    assert_eq!(mark_pending(None, 20240108), SyncState { date: 20240108, finalized: false });
    assert_eq!(mark_finalized(20240108), SyncState { date: 20240108, finalized: true });
    assert_eq!(sync_start(None, 20240108), SyncStart::Create(SyncState { date: 20240108, finalized: false }));
    assert_eq!(sync_start(Some(done), 20240108), SyncStart::Continue);
}

#[test]
fn concurrent_syncs_store_each_date_once() {
    let mut history = PriceHistory::new();
    history.insert_batch(&vec![bar("X.SH", 20240104, "1")]);
    let snapshot = history.bars.clone();
    let fetched = vec![bar("X.SH", 20240104, "1"), bar("X.SH", 20240105, "2")];
    let a = reconcile(&snapshot, &fetched, false);
    let b = reconcile(&snapshot, &fetched, false);
    history.insert_batch(&a.inserts);
    history.insert_batch(&b.inserts);
    assert_eq!(dates(&history), vec![20240104, 20240105]);
    history.insert_batch(&Vec::new());
    assert_eq!(history.bars.len(), 2);
}

#[test]
fn reconcile_plans() {
    let stored = vec![bar("A.HK", 20240103, "1"), bar("A.HK", 20240105, "2"), bar("A.HK", 20240104, "3")];
    let fetched = vec![bar("A.HK", 20240104, "4"), bar("A.HK", 20240105, "5"), bar("A.HK", 20240108, "6")];
    let plan = reconcile(&stored, &fetched, true);
    assert_eq!(plan.inserts.iter().map(|b| b.date).collect::<Vec<_>>(), vec![20240108]);
    assert_eq!(plan.updates.iter().map(|b| b.date).collect::<Vec<_>>(), vec![20240105]);
    let plain = reconcile(&stored, &fetched, false);
    assert!(plain.updates.is_empty());
    assert_eq!(latest_date(&stored), Some(20240105));
    assert_eq!(latest_date(&Vec::new()), None);
    assert!(contains_date(&fetched, 20240108));
    assert!(should_finalize(&fetched, 20240108, false));
    assert!(!should_finalize(&fetched, 20240109, false));
    assert!(should_finalize(&fetched, 20240109, true));
}

#[test]
fn source_records_become_bars() {
    let b = create_stock_daily_price("X.SH", &dto("20240105", "1200", "")).unwrap();
    assert_eq!(b.code, "X.SH");
    assert_eq!(b.date, 20240105);
    assert_eq!(b.open, BigDecimal::from_str("10.5").unwrap());
    assert_eq!(b.close, BigDecimal::from_str("10.25").unwrap());
    assert_eq!(b.high, BigDecimal::from_str("11").unwrap());
    assert_eq!(b.low, BigDecimal::from_str("9.75").unwrap());
    assert_eq!(b.volume, Some(BigDecimal::from_str("1200").unwrap()));
    assert_eq!(b.amount, None);
    let with_amount = create_stock_daily_price("X.SH", &dto("20240105", "", "3.5e3")).unwrap();
    assert_eq!(with_amount.volume, None);
    assert_eq!(with_amount.amount, Some(BigDecimal::from_str("3500").unwrap()));
}

#[test]
fn malformed_source_records_are_rejected() {
    assert_eq!(create_stock_daily_price("X.SH", &dto("2024-01-05", "1", "")).err(), Some(PriceError::MalformedDate));
    assert_eq!(create_stock_daily_price("X.SH", &dto("20240105", "lots", "")).err(), Some(PriceError::MalformedDecimal));
    assert_eq!(parse_date_key("20240105"), Some(20240105));
    assert_eq!(parse_date_key("2024010"), None);
    assert_eq!(parse_date_key("2024a105"), None);
}

#[test]
fn repeated_dates_keep_the_last_bar() {
    let fetched = vec![bar("700.HK", 20240108, "1"), bar("700.HK", 20240105, "2"), bar("700.HK", 20240108, "3")];
    let one = one_bar_per_date(&fetched);
    assert_eq!(one.iter().map(|b| b.date).collect::<Vec<_>>(), vec![20240105, 20240108]);
    assert_eq!(one[1].close, BigDecimal::from_str("3").unwrap());
}

#[test]
fn sync_twice_with_repeated_dates_changes_nothing_more() {
    let mut history = PriceHistory::new();
    let fetched = vec![bar("700.HK", 20240105, "1"), bar("700.HK", 20240105, "2")];
    let s1 = sync_stock_daily_price(&mut history, None, &fetched, 20240109, false, true);
    assert_eq!(history.bars[0].close, BigDecimal::from_str("2").unwrap());
    let s2 = sync_stock_daily_price(&mut history, Some(s1), &fetched, 20240109, false, true);
    assert_eq!(history.bars.len(), 1);
    assert_eq!(history.bars[0].close, BigDecimal::from_str("2").unwrap());
    assert_eq!(s1, s2);
}

#[test]
fn records_convert_in_order_until_the_first_bad_one() {
    let good = create_daily_prices("X.SH", &vec![dto("20240104", "1", ""), dto("20240105", "", "2")]).unwrap();
    assert_eq!(good.iter().map(|b| b.date).collect::<Vec<_>>(), vec![20240104, 20240105]);
    let bad = create_daily_prices("X.SH", &vec![dto("20240104", "1", ""), dto("x", "1", ""), dto("20240106", "?", "")]);
    assert_eq!(bad.err(), Some((1, PriceError::MalformedDate)));
    assert!(create_daily_prices("X.SH", &Vec::new()).unwrap().is_empty());
}

#[test]
fn sync_run_goes_through_its_steps() {
    let (run, action) = SyncRun::new(20240109, false);
    assert!(matches!(action, SyncAction::ReadState));
    let (run, action) = run.step(SyncEvent::StateRead { state: None });
    assert!(matches!(action, SyncAction::CreateRecord { record } if record == SyncState { date: 20240109, finalized: false }));
    let (run, action) = run.step(SyncEvent::RecordCreated);
    assert!(matches!(action, SyncAction::Load));
    let stored = vec![bar("X.SH", 20240105, "1")];
    let fetched = vec![bar("X.SH", 20240105, "2"), bar("X.SH", 20240108, "3")];
    let (run, action) = run.step(SyncEvent::Loaded { stored, fetched });
    match action {
        SyncAction::Write { plan } => {
            assert_eq!(plan.inserts.iter().map(|b| b.date).collect::<Vec<_>>(), vec![20240108]);
            assert!(plan.updates.is_empty());
        }
        _ => panic!("expected a write"),
    }
    let (run, action) = run.step(SyncEvent::Written);
    assert!(matches!(action, SyncAction::CheckNonTradingDay));
    let (run, action) = run.step(SyncEvent::DayChecked { non_trading: false });
    assert!(matches!(action, SyncAction::Done));
    assert_eq!(run.phase, SyncPhase::Done);
    let (same, ignored) = run.step(SyncEvent::Finalized);
    assert_eq!(same, run);
    assert!(matches!(ignored, SyncAction::Ignored));
}

#[test]
fn sync_run_stops_when_complete_and_finalizes_on_todays_bar() {
    let (run, _) = SyncRun::new(20240109, false);
    let (_, action) = run.step(SyncEvent::StateRead { state: Some(SyncState { date: 20240109, finalized: true }) });
    assert!(matches!(action, SyncAction::Done));
    let (run, _) = SyncRun::new(20240109, false);
    let (run, action) = run.step(SyncEvent::StateRead { state: Some(SyncState { date: 20240108, finalized: false }) });
    assert!(matches!(action, SyncAction::Load));
    let (run, _) = run.step(SyncEvent::Loaded { stored: Vec::new(), fetched: vec![bar("X.SH", 20240109, "1")] });
    let (run, action) = run.step(SyncEvent::Written);
    assert!(matches!(action, SyncAction::MarkFinalized { record } if record == SyncState { date: 20240109, finalized: true }));
    let (_, action) = run.step(SyncEvent::Finalized);
    assert!(matches!(action, SyncAction::Done));
}
