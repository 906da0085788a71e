//! The exchanges this engine knows, and their fixed attributes.
use vstd::prelude::*;
use crate::text::text_eq;

verus! {

/// Name for what `str::to_uppercase` returns: Unicode upper-case mapping of
/// each character.
pub uninterp spec fn upper_of(s: Seq<char>) -> Seq<char>;

/// An ASCII lower-case letter raised to upper case; any other character as it is.
pub open spec fn ascii_upper(c: char) -> char {
    match c {
        'a' => 'A',
        'b' => 'B',
        'c' => 'C',
        'd' => 'D',
        'e' => 'E',
        'f' => 'F',
        'g' => 'G',
        'h' => 'H',
        'i' => 'I',
        'j' => 'J',
        'k' => 'K',
        'l' => 'L',
        'm' => 'M',
        'n' => 'N',
        'o' => 'O',
        'p' => 'P',
        'q' => 'Q',
        'r' => 'R',
        's' => 'S',
        't' => 'T',
        'u' => 'U',
        'v' => 'V',
        'w' => 'W',
        'x' => 'X',
        'y' => 'Y',
        'z' => 'Z',
        _ => c,
    }
}

/// Every character is ASCII.
pub open spec fn is_ascii_text(s: Seq<char>) -> bool {
    forall|i: int| 0 <= i < s.len() ==> (#[trigger] s[i] as u32) < 128
}

/// `s` with each character passed through `ascii_upper`.
pub open spec fn ascii_raised(s: Seq<char>) -> Seq<char> {
    Seq::new(s.len(), |i: int| ascii_upper(s[i]))
}

/// Relies on `str::to_uppercase`: the result depends on the characters alone,
/// and on ASCII text Unicode's upper-case mapping raises `a`-`z` to `A`-`Z`
/// and keeps every other character.
#[verifier::external_body]
fn uppercase(s: &str) -> (r: String)
    ensures
        r@ == upper_of(s@),
        is_ascii_text(s@) ==> r@ == ascii_raised(s@),
{
    s.to_uppercase()
}

/// A stock exchange.
#[derive(Clone, Copy, Debug, PartialEq, Eq, Structural)]
pub enum Exchange {
    /// Shanghai Stock Exchange.
    SSE,
    /// Shenzhen Stock Exchange.
    SZSE,
    /// Hong Kong Exchanges.
    HKEX,
    /// Nasdaq.
    NASDAQ,
}

/// Why an exchange code was not accepted.
#[derive(Clone, Copy, Debug, PartialEq, Eq, Structural)]
pub enum ExchangeError {
    /// The code names no known exchange.
    UnknownCode,
}

/// The exchange whose canonical code is exactly `code`, if any.
pub open spec fn exchange_of_code(code: Seq<char>) -> Option<Exchange> {
    if code == "SSE"@ {
        Some(Exchange::SSE)
    } else if code == "SZSE"@ {
        Some(Exchange::SZSE)
    } else if code == "HKEX"@ {
        Some(Exchange::HKEX)
    } else if code == "NASDAQ"@ {
        Some(Exchange::NASDAQ)
    } else {
        None
    }
}

impl Exchange {
    /// Canonical code.
    pub open spec fn spec_code(self) -> Seq<char> {
        match self {
            Exchange::SSE => "SSE"@,
            Exchange::SZSE => "SZSE"@,
            Exchange::HKEX => "HKEX"@,
            Exchange::NASDAQ => "NASDAQ"@,
        }
    }

    /// Canonical code in lower case.
    pub open spec fn spec_lower_code(self) -> Seq<char> {
        match self {
            Exchange::SSE => "sse"@,
            Exchange::SZSE => "szse"@,
            Exchange::HKEX => "hkex"@,
            Exchange::NASDAQ => "nasdaq"@,
        }
    }

    /// Integer discriminator used in composite date keys.
    pub open spec fn spec_int_code(self) -> nat {
        match self {
            Exchange::SSE => 10,
            Exchange::SZSE => 20,
            Exchange::HKEX => 30,
            Exchange::NASDAQ => 40,
        }
    }

    /// Suffix of the globally unique instrument codes listed on the exchange.
    pub open spec fn spec_stock_code_suffix(self) -> Seq<char> {
        match self {
            Exchange::SSE => ".SH"@,
            Exchange::SZSE => ".SZ"@,
            Exchange::HKEX => ".HK"@,
            Exchange::NASDAQ => ".NS"@,
        }
    }

    /// IANA name of the exchange's time zone.
    pub open spec fn spec_time_zone(self) -> Seq<char> {
        match self {
            Exchange::SSE => "Asia/Chongqing"@,
            Exchange::SZSE => "Asia/Chongqing"@,
            Exchange::HKEX => "Asia/Hong_Kong"@,
            Exchange::NASDAQ => "America/New_York"@,
        }
    }

    /// Whether the exchange's source revises the latest daily bar after the
    /// day (delayed same-day finalisation).
    pub open spec fn spec_delayed_finalization(self) -> bool {
        self == Exchange::HKEX
    }

    /// All exchanges, in declaration order.
    pub fn values() -> (r: Vec<Exchange>)
        ensures
            r@ == seq![Exchange::SSE, Exchange::SZSE, Exchange::HKEX, Exchange::NASDAQ],
    {
        vec![Exchange::SSE, Exchange::SZSE, Exchange::HKEX, Exchange::NASDAQ]
    }

    /// Canonical code of the exchange.
    pub fn as_str(&self) -> (r: &'static str)
        ensures
            r@ == self.spec_code(),
    {
        match self {
            Exchange::SSE => "SSE",
            Exchange::SZSE => "SZSE",
            Exchange::HKEX => "HKEX",
            Exchange::NASDAQ => "NASDAQ",
        }
    }

    /// Integer discriminator of the exchange.
    pub fn int_code(&self) -> (r: usize)
        ensures
            r == self.spec_int_code(),
    {
        match self {
            Exchange::SSE => 10,
            Exchange::SZSE => 20,
            Exchange::HKEX => 30,
            Exchange::NASDAQ => 40,
        }
    }

    /// Instrument-code suffix of the exchange.
    pub fn stock_code_suffix(&self) -> (r: String)
        ensures
            r@ == self.spec_stock_code_suffix(),
    {
        match self {
            Exchange::SSE => String::from_str(".SH"),
            Exchange::SZSE => String::from_str(".SZ"),
            Exchange::HKEX => String::from_str(".HK"),
            Exchange::NASDAQ => String::from_str(".NS"),
        }
    }

    /// IANA time-zone name of the exchange.
    pub fn time_zone(&self) -> (r: &'static str)
        ensures
            r@ == self.spec_time_zone(),
    {
        match self {
            Exchange::SSE => "Asia/Chongqing",
            Exchange::SZSE => "Asia/Chongqing",
            Exchange::HKEX => "Asia/Hong_Kong",
            Exchange::NASDAQ => "America/New_York",
        }
    }

    /// Whether same-day bars of this exchange are corrected after the day.
    pub fn delayed_finalization(&self) -> (r: bool)
        ensures
            r == self.spec_delayed_finalization(),
    {
        match self {
            Exchange::HKEX => true,
            _ => false,
        }
    }

    /// The exchange whose canonical code is exactly `code`.
    pub fn from_upper_code(code: &str) -> (r: Result<Exchange, ExchangeError>)
        ensures
            r == (match exchange_of_code(code@) {
                Some(e) => Ok(e),
                None => Err(ExchangeError::UnknownCode),
            }),
    {
        if text_eq(code, "SSE") {
            Ok(Exchange::SSE)
        } else if text_eq(code, "SZSE") {
            Ok(Exchange::SZSE)
        } else if text_eq(code, "HKEX") {
            Ok(Exchange::HKEX)
        } else if text_eq(code, "NASDAQ") {
            Ok(Exchange::NASDAQ)
        } else {
            Err(ExchangeError::UnknownCode)
        }
    }

    /// The exchange named by `code`, compared without regard to case.
    pub fn from_code(code: &str) -> (r: Result<Exchange, ExchangeError>)
        ensures
            r == (match exchange_of_code(upper_of(code@)) {
                Some(e) => Ok(e),
                None => Err(ExchangeError::UnknownCode),
            }),
            is_ascii_text(code@) ==> r == (match exchange_of_code(ascii_raised(code@)) {
                Some(e) => Ok(e),
                None => Err(ExchangeError::UnknownCode),
            }),
    {
        let upper = uppercase(code);
        Exchange::from_upper_code(upper.as_str())
    }
}

/// Every exchange's canonical code, in upper or lower case, is ASCII and
/// names that exchange once raised to upper case: `from_code` and
/// `from_str` read each back.
pub proof fn lemma_codes_read_back(e: Exchange)
    ensures
        is_ascii_text(e.spec_code()),
        is_ascii_text(e.spec_lower_code()),
        exchange_of_code(ascii_raised(e.spec_code())) == Some(e),
        exchange_of_code(ascii_raised(e.spec_lower_code())) == Some(e),
{
    reveal_strlit("SSE");
    reveal_strlit("SZSE");
    reveal_strlit("HKEX");
    reveal_strlit("NASDAQ");
    reveal_strlit("sse");
    reveal_strlit("szse");
    reveal_strlit("hkex");
    reveal_strlit("nasdaq");
    assert(ascii_raised(e.spec_code()) =~= e.spec_code());
    assert(ascii_raised(e.spec_lower_code()) =~= e.spec_code());
    assert("SSE"@.len() != "SZSE"@.len() && "SSE"@.len() != "HKEX"@.len());
    assert("SZSE"@[0] != "HKEX"@[0]);
    assert("NASDAQ"@.len() != "SSE"@.len() && "NASDAQ"@.len() != "SZSE"@.len() && "NASDAQ"@.len() != "HKEX"@.len());
    match e {
        Exchange::SSE => assert(exchange_of_code("SSE"@) == Some(Exchange::SSE)),
        Exchange::SZSE => assert(exchange_of_code("SZSE"@) == Some(Exchange::SZSE)),
        Exchange::HKEX => assert(exchange_of_code("HKEX"@) == Some(Exchange::HKEX)),
        Exchange::NASDAQ => assert(exchange_of_code("NASDAQ"@) == Some(Exchange::NASDAQ)),
    }
}

impl core::str::FromStr for Exchange {
    type Err = ExchangeError;

    fn from_str(s: &str) -> (r: Result<Exchange, ExchangeError>)
        ensures
            r == (match exchange_of_code(upper_of(s@)) {
                Some(e) => Ok(e),
                None => Err(ExchangeError::UnknownCode),
            }),
            is_ascii_text(s@) ==> r == (match exchange_of_code(ascii_raised(s@)) {
                Some(e) => Ok(e),
                None => Err(ExchangeError::UnknownCode),
            }),
    {
        Exchange::from_code(s)
    }
}

/// Kind of a listed instrument.
#[derive(Clone, Copy, Debug, PartialEq, Eq, Structural)]
pub enum StockKind {
    Stock,
    Fund,
    Index,
}

impl StockKind {
    /// Name of the kind as the store records it.
    pub fn as_str(&self) -> (r: &'static str)
        ensures
            r@ == (match self {
                StockKind::Stock => "Stock"@,
                StockKind::Fund => "Fund"@,
                StockKind::Index => "Index"@,
            }),
    {
        match self {
            StockKind::Stock => "Stock",
            StockKind::Fund => "Fund",
            StockKind::Index => "Index",
        }
    }
}

/// The job that refreshes the instrument lists of one exchange.
pub struct SyncStocksJob {
    /// Code of the exchange.
    pub exchange: String,
}

impl SyncStocksJob {
    /// The exchange the job works on.
    pub fn target(&self) -> (r: Result<Exchange, ExchangeError>)
        ensures
            r == (match exchange_of_code(upper_of(self.exchange@)) {
                Some(e) => Ok(e),
                None => Err(ExchangeError::UnknownCode),
            }),
    {
        Exchange::from_code(self.exchange.as_str())
    }
}

} // verus!
