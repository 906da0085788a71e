use market_sync::calendar::{holiday_key, is_non_trading_day, local_time, CalendarError, LocalTime};
use market_sync::exchange::{Exchange, ExchangeError};
use market_sync::market::{evaluate, status_at, MarketStatus, SessionWindow};

fn two_sessions() -> Vec<SessionWindow> {
    vec![
        SessionWindow { start: 9 * 3600 + 30 * 60, end: 11 * 3600 + 30 * 60 },
        SessionWindow { start: 13 * 3600, end: 15 * 3600 },
    ]
}

fn friday_at(seconds: u32) -> LocalTime {
    LocalTime { year: 2024, month: 1, day: 5, weekday: 5, seconds }
}

#[test]
fn exchange_attributes() {
    assert_eq!(Exchange::SSE.int_code(), 10);
    assert_eq!(Exchange::SZSE.int_code(), 20);
    assert_eq!(Exchange::HKEX.int_code(), 30);
    assert_eq!(Exchange::NASDAQ.int_code(), 40);
    assert_eq!(Exchange::SSE.stock_code_suffix(), ".SH");
    assert_eq!(Exchange::SZSE.stock_code_suffix(), ".SZ");
    assert_eq!(Exchange::HKEX.stock_code_suffix(), ".HK");
    assert_eq!(Exchange::NASDAQ.stock_code_suffix(), ".NS");
    assert_eq!(Exchange::HKEX.as_str(), "HKEX");
    assert_eq!(Exchange::NASDAQ.time_zone(), "America/New_York");
    assert!(Exchange::HKEX.delayed_finalization());
    assert!(!Exchange::SSE.delayed_finalization());
    assert_eq!(Exchange::values().len(), 4);
}

#[test]
fn exchange_codes_ignore_case() {
    assert_eq!(Exchange::from_code("sse"), Ok(Exchange::SSE));
    assert_eq!(Exchange::from_code("Hkex"), Ok(Exchange::HKEX));
    assert_eq!(Exchange::from_code("NASDAQ"), Ok(Exchange::NASDAQ));
    assert_eq!(Exchange::from_code("LSE"), Err(ExchangeError::UnknownCode));
    assert_eq!(Exchange::from_upper_code("szse"), Err(ExchangeError::UnknownCode));
    assert_eq!(Exchange::from_upper_code("SZSE"), Ok(Exchange::SZSE));
}

#[test]
fn local_time_in_exchange_zone() {
    // 2024-01-05 02:00:00 UTC
    let t = local_time(Exchange::SSE, 1_704_420_000).unwrap();
    assert_eq!(t, LocalTime { year: 2024, month: 1, day: 5, weekday: 5, seconds: 36000 });
    assert_eq!(t.date_key(), 20240105);
    let ny = local_time(Exchange::NASDAQ, 1_704_420_000).unwrap();
    assert_eq!(ny, LocalTime { year: 2024, month: 1, day: 4, weekday: 4, seconds: 75600 });
    let hk = local_time(Exchange::HKEX, 1_704_420_000).unwrap();
    assert_eq!(hk.seconds, 36000);
}

#[test]
fn local_time_out_of_range() {
    assert_eq!(local_time(Exchange::SSE, i64::MAX), Err(CalendarError::OutOfRange));
}

#[test]
fn holiday_keys_append_discriminator() {
    assert_eq!(holiday_key(20240101, Exchange::SSE), 2024010110);
    assert_eq!(holiday_key(20240101, Exchange::NASDAQ), 2024010140);
}

#[test]
fn weekends_and_holidays_are_non_trading() {
    let saturday = LocalTime { year: 2024, month: 1, day: 6, weekday: 6, seconds: 36000 };
    assert!(is_non_trading_day(&saturday, false));
    assert!(is_non_trading_day(&friday_at(36000), true));
    assert!(!is_non_trading_day(&friday_at(36000), false));
}

#[test]
fn sessions_with_lunch_break() {
    for w in [false] {
        let windows = two_sessions();
        assert_eq!(status_at(w, &windows, 10 * 3600), MarketStatus::Trading);
        assert_eq!(status_at(w, &windows, 14 * 3600), MarketStatus::Trading);
        assert_eq!(status_at(w, &windows, 12 * 3600), MarketStatus::Closed);
        assert_eq!(status_at(w, &windows, 16 * 3600), MarketStatus::Closed);
        assert_eq!(status_at(w, &windows, 9 * 3600), MarketStatus::Closed);
        assert_eq!(status_at(w, &windows, 15 * 3600), MarketStatus::Trading);
    }
}

#[test]
fn holiday_closes_market_at_any_time() {
    let windows = two_sessions();
    for seconds in [0, 36000, 50400, 86399] {
        assert_eq!(evaluate(&friday_at(seconds), true, &windows), MarketStatus::Closed);
    }
    assert_eq!(evaluate(&friday_at(36000), false, &windows), MarketStatus::Trading);
}

#[test]
fn no_sessions_means_open() {
    assert_eq!(evaluate(&friday_at(3), false, &Vec::new()), MarketStatus::Trading);
    let sunday = LocalTime { year: 2024, month: 1, day: 7, weekday: 7, seconds: 3 };
    assert_eq!(evaluate(&sunday, false, &Vec::new()), MarketStatus::Closed);
}

#[test]
fn status_text_round_trip() {
    assert_eq!(MarketStatus::Trading.as_str(), "MarketTrading");
    assert_eq!(MarketStatus::Closed.as_str(), "MarketClosed");
    assert_eq!(MarketStatus::from_text("MarketClosed"), Some(MarketStatus::Closed));
    assert_eq!(MarketStatus::from_text("open"), None);
}
