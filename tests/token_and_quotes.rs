use bigdecimal::BigDecimal;
use market_sync::exchange::{Exchange, ExchangeError, StockKind, SyncStocksJob};
use market_sync::price::{create_stock_price, PriceError, StockPriceDTO};
use market_sync::token::{chars_of, extract_hkex_token, find, TokenCache};
use std::str::FromStr;

const PAGE: &str = "var x = 1;\nfunction getToken(){ \"Base64-AES-Encrypted-Token\";\n return \"evLtsLsBNAUVTPxtGqVeG+abc/Q==\";\n}";

fn quote(o: &str, p: &str) -> StockPriceDTO {
    StockPriceDTO {
        h: "12".to_string(),
        l: String::new(),
        o: o.to_string(),
        pc: "1.5".to_string(),
        p: p.to_string(),
        cje: "1000".to_string(),
        ud: "0.2".to_string(),
        v: String::new(),
        yc: "11.8".to_string(),
        t: "2024-01-05 10:00:00".to_string(),
    }
}

#[test]
fn token_is_read_from_quote_page() {
    assert_eq!(extract_hkex_token(PAGE), Some("evLtsLsBNAUVTPxtGqVeG+abc/Q==".to_string()));
}

#[test]
fn page_without_token_gives_none() {
    assert_eq!(extract_hkex_token("<html>nothing here</html>"), None);
    assert_eq!(extract_hkex_token("\"Base64-AES-Encrypted-Token\"; return 'x'"), None);
}

#[test]
fn token_cache_refresh() {
    let mut cache = TokenCache::new();
    assert_eq!(cache.get(), "");
    assert!(cache.refresh(PAGE));
    assert_eq!(cache.get(), "evLtsLsBNAUVTPxtGqVeG+abc/Q==");
    assert!(!cache.refresh("no token"));
    assert_eq!(cache.get(), "evLtsLsBNAUVTPxtGqVeG+abc/Q==");
    cache.set("manual");
    assert_eq!(cache.get(), "manual");
}

#[test]
fn find_first_occurrence() {
    let s = chars_of("abcabc");
    assert_eq!(find(&s, &chars_of("bc"), 0), Some(1));
    assert_eq!(find(&s, &chars_of("bc"), 2), Some(4));
    assert_eq!(find(&s, &chars_of("x"), 0), None);
    assert_eq!(chars_of("héllo").len(), 5);
}

#[test]
fn quotes_keep_absent_fields_absent() {
    let q = create_stock_price("700.HK", &quote("11.9", "12.1")).unwrap();
    assert_eq!(q.code, "700.HK");
    assert_eq!(q.close, BigDecimal::from_str("12.1").unwrap());
    assert_eq!(q.open, Some(BigDecimal::from_str("11.9").unwrap()));
    assert_eq!(q.low, None);
    assert_eq!(q.volume, None);
    assert_eq!(q.amount, Some(BigDecimal::from_str("1000").unwrap()));
    assert_eq!(q.time, "2024-01-05 10:00:00");
    assert_eq!(create_stock_price("700.HK", &quote("", "12")).unwrap().open, None);
}

#[test]
fn malformed_quote_is_rejected() {
    assert_eq!(create_stock_price("700.HK", &quote("11.9", "")).err(), Some(PriceError::MalformedDecimal));
    assert_eq!(create_stock_price("700.HK", &quote("n/a", "12")).err(), Some(PriceError::MalformedDecimal));
}

#[test]
fn exchange_from_str_and_kinds() {
    assert_eq!(Exchange::from_str("szse"), Ok(Exchange::SZSE));
    assert_eq!("XETRA".parse::<Exchange>(), Err(ExchangeError::UnknownCode));
    assert_eq!(StockKind::Fund.as_str(), "Fund");
    let job = SyncStocksJob { exchange: "hkex".to_string() };
    assert_eq!(job.target(), Ok(Exchange::HKEX));
}

#[test]
fn canonical_codes_read_back_in_any_case() {
    for e in Exchange::values() {
        assert_eq!(Exchange::from_str(e.as_str()), Ok(e));
        assert_eq!(Exchange::from_str(&e.as_str().to_lowercase()), Ok(e));
    }
    assert_eq!(Exchange::from_str("sse"), Ok(Exchange::SSE));
    assert_eq!(Exchange::from_str("Nasdaq"), Ok(Exchange::NASDAQ));
    assert_eq!(Exchange::from_str("HK"), Err(ExchangeError::UnknownCode));
}
