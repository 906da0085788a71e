//! Daily price bars and their construction from a price source's records.
use vstd::prelude::*;
use vstd::string::StrSliceExecFns;
use bigdecimal::BigDecimal;

verus! {

#[verifier::external_type_specification]
#[verifier::external_body]
pub struct ExBigDecimal(BigDecimal);

/// `BigDecimal`'s derived `Clone` copies its digits and scale.
pub assume_specification[ <BigDecimal as Clone>::clone ](d: &BigDecimal) -> (r: BigDecimal)
    ensures
        r == *d,
;

/// Name for what `BigDecimal::from_str` gives for a text: the decimal number
/// it spells, or nothing when it spells none.
pub uninterp spec fn decimal_of(s: Seq<char>) -> Option<BigDecimal>;

/// The decimal of an optional field: absent when the text is empty.
pub open spec fn optional_decimal(s: Seq<char>) -> Option<BigDecimal> {
    if s.len() == 0 { None } else { decimal_of(s) }
}

/// Relies on `BigDecimal::from_str`: a decimal number read from text; the
/// result depends on the text alone, and the value is carried, never
/// inspected, by this library.
#[verifier::external_body]
fn parse_decimal(s: &str) -> (r: Option<BigDecimal>)
    ensures
        r == decimal_of(s@),
{
    s.parse::<BigDecimal>().ok()
}

/// One day's prices of one instrument, keyed by (instrument code, date).
#[derive(Debug)]
pub struct DailyPriceBar {
    pub code: String,
    /// Trading date as `YYYYMMDD`.
    pub date: u64,
    pub open: BigDecimal,
    pub close: BigDecimal,
    pub high: BigDecimal,
    pub low: BigDecimal,
    /// Absent when the source did not report it.
    pub volume: Option<BigDecimal>,
    /// Absent when the source did not report it.
    pub amount: Option<BigDecimal>,
}

fn clone_optional(d: &Option<BigDecimal>) -> (r: Option<BigDecimal>)
    ensures
        r == *d,
{
    match d {
        Some(v) => Some(v.clone()),
        None => None,
    }
}

impl Clone for DailyPriceBar {
    fn clone(&self) -> (r: Self)
        ensures
            r == *self,
    {
        DailyPriceBar {
            code: self.code.clone(),
            date: self.date,
            open: self.open.clone(),
            close: self.close.clone(),
            high: self.high.clone(),
            low: self.low.clone(),
            volume: clone_optional(&self.volume),
            amount: clone_optional(&self.amount),
        }
    }
}

/// One daily record as a price source reports it, every field as text.
#[derive(Debug)]
pub struct StockDailyPriceDTO {
    /// Date, `YYYYMMDD`.
    pub d: String,
    /// Open.
    pub o: String,
    /// High.
    pub h: String,
    /// Low.
    pub l: String,
    /// Close.
    pub c: String,
    /// Volume; empty when not reported.
    pub v: String,
    /// Amount; empty when not reported.
    pub e: String,
    /// Change.
    pub zd: String,
    /// Change in percent.
    pub zdf: String,
    /// Turnover rate.
    pub hs: String,
}

/// A real-time quote as a price source reports it, every field as text.
#[derive(Debug)]
pub struct StockPriceDTO {
    /// High.
    pub h: String,
    /// Low.
    pub l: String,
    /// Open.
    pub o: String,
    /// Change in percent.
    pub pc: String,
    /// Current price.
    pub p: String,
    /// Amount.
    pub cje: String,
    /// Change.
    pub ud: String,
    /// Volume.
    pub v: String,
    /// Previous close.
    pub yc: String,
    /// Quote time.
    pub t: String,
}

/// Why a source record could not become a bar.
#[derive(Clone, Copy, Debug, PartialEq, Eq, Structural)]
pub enum PriceError {
    /// The date is not eight ASCII digits.
    MalformedDate,
    /// A reported price or quantity is not a decimal number.
    MalformedDecimal,
}

/// An ASCII decimal digit.
pub open spec fn is_digit(c: char) -> bool {
    '0' <= c <= '9'
}

/// The number that a run of decimal digits spells.
pub open spec fn digits_value(s: Seq<char>) -> int
    decreases s.len(),
{
    if s.len() == 0 {
        0
    } else {
        digits_value(s.drop_last()) * 10 + (s.last() as int - '0' as int)
    }
}

/// Text of a `YYYYMMDD` date: eight ASCII digits.
pub open spec fn is_date_text(s: Seq<char>) -> bool {
    s.len() == 8 && forall|i: int| 0 <= i < 8 ==> is_digit(#[trigger] s[i])
}

/// Ten to the power `n`.
pub open spec fn ten_pow(n: nat) -> int
    decreases n,
{
    if n == 0 {
        1
    } else {
        10 * ten_pow((n - 1) as nat)
    }
}

proof fn lemma_digits_value_bound(s: Seq<char>)
    requires
        forall|i: int| 0 <= i < s.len() ==> is_digit(#[trigger] s[i]),
    ensures
        0 <= digits_value(s) < ten_pow(s.len()),
    decreases s.len(),
{
    if s.len() > 0 {
        let p = s.drop_last();
        assert forall|i: int| 0 <= i < p.len() implies is_digit(#[trigger] p[i]) by {
            assert(p[i] == s[i]);
        }
        lemma_digits_value_bound(p);
        let v = digits_value(p);
        let q = ten_pow(p.len());
        let d = s.last() as int - '0' as int;
        assert(is_digit(s[s.len() - 1]));
        assert(0 <= d <= 9);
        assert(0 <= v * 10 + d < 10 * q) by (nonlinear_arith)
            requires 0 <= v < q, 0 <= d <= 9;
    }
}

proof fn lemma_ten_pow_mono(a: nat, b: nat)
    requires
        a <= b,
    ensures
        0 < ten_pow(a) <= ten_pow(b),
    decreases b,
{
    if a < b {
        lemma_ten_pow_mono(a, (b - 1) as nat);
    } else if b > 0 {
        lemma_ten_pow_mono((a - 1) as nat, (b - 1) as nat);
    }
}

/// Reads a `YYYYMMDD` date.
pub fn parse_date_key(s: &str) -> (r: Option<u64>)
    ensures
        r is Some == is_date_text(s@),
        r matches Some(v) ==> v == digits_value(s@) && v <= 99999999,
{
    let n = s.unicode_len();
    if n != 8 {
        return None;
    }
    let mut v: u64 = 0;
    let mut i: usize = 0;
    proof {
        reveal_with_fuel(ten_pow, 9);
    }
    while i < n
        invariant
            n == 8,
            n == s@.len(),
            i <= n,
            forall|j: int| 0 <= j < i ==> is_digit(#[trigger] s@[j]),
            v == digits_value(s@.subrange(0, i as int)),
            v < ten_pow(i as nat),
            ten_pow(8) == 100000000,
        decreases n - i,
    {
        let c = s.get_char(i);
        if !('0' <= c && c <= '9') {
            assert(!is_digit(s@[i as int]));
            return None;
        }
        proof {
            let pre = s@.subrange(0, i + 1);
            assert(pre.drop_last() == s@.subrange(0, i as int));
            assert forall|j: int| 0 <= j < pre.len() implies is_digit(#[trigger] pre[j]) by {
                assert(pre[j] == s@[j]);
            }
            lemma_digits_value_bound(pre);
            lemma_ten_pow_mono((i + 1) as nat, 8);
        }
        v = v * 10 + (c as u64 - '0' as u64);
        i = i + 1;
    }
    assert(s@.subrange(0, 8) == s@);
    Some(v)
}

/// The bar that a source record gives, when every field reads.
pub open spec fn record_reads(dto: StockDailyPriceDTO) -> bool {
    &&& is_date_text(dto.d@)
    &&& (decimal_of(dto.o@) is Some)
    &&& (decimal_of(dto.c@) is Some)
    &&& (decimal_of(dto.h@) is Some)
    &&& (decimal_of(dto.l@) is Some)
    &&& (dto.v@.len() == 0 || (decimal_of(dto.v@) is Some))
    &&& (dto.e@.len() == 0 || (decimal_of(dto.e@) is Some))
}

fn parse_optional(s: &String) -> (r: Result<Option<BigDecimal>, PriceError>)
    ensures
        r is Ok == (s@.len() == 0 || (decimal_of(s@) is Some)),
        r matches Ok(o) ==> o == optional_decimal(s@),
        r matches Err(e) ==> e == PriceError::MalformedDecimal,
{
    if s.as_str().unicode_len() == 0 {
        Ok(None)
    } else {
        match parse_decimal(s.as_str()) {
            Some(d) => Ok(Some(d)),
            None => Err(PriceError::MalformedDecimal),
        }
    }
}

fn parse_required(s: &String) -> (r: Result<BigDecimal, PriceError>)
    ensures
        r is Ok == (decimal_of(s@) is Some),
        r matches Ok(d) ==> decimal_of(s@) == Some(d),
        r matches Err(e) ==> e == PriceError::MalformedDecimal,
{
    match parse_decimal(s.as_str()) {
        Some(d) => Ok(d),
        None => Err(PriceError::MalformedDecimal),
    }
}

/// Turns a source record of instrument `code` into a daily bar. A bad date
/// is reported before a bad number; an empty volume or amount is absent.
pub fn create_stock_daily_price(code: &str, dto: &StockDailyPriceDTO) -> (r: Result<DailyPriceBar, PriceError>)
    ensures
        r is Ok == record_reads(*dto),
        r matches Err(e) ==> (e == PriceError::MalformedDate <==> !is_date_text(dto.d@)),
        r matches Ok(b) ==> {
            &&& b.code@ == code@
            &&& b.date == digits_value(dto.d@)
            &&& b.date <= 99999999
            &&& decimal_of(dto.o@) == Some(b.open)
            &&& decimal_of(dto.c@) == Some(b.close)
            &&& decimal_of(dto.h@) == Some(b.high)
            &&& decimal_of(dto.l@) == Some(b.low)
            &&& b.volume == optional_decimal(dto.v@)
            &&& b.amount == optional_decimal(dto.e@)
        },
{
    let date = match parse_date_key(dto.d.as_str()) {
        Some(d) => d,
        None => return Err(PriceError::MalformedDate),
    };
    let open = parse_required(&dto.o)?;
    let close = parse_required(&dto.c)?;
    let high = parse_required(&dto.h)?;
    let low = parse_required(&dto.l)?;
    let volume = parse_optional(&dto.v)?;
    let amount = parse_optional(&dto.e)?;
    Ok(DailyPriceBar { code: String::from_str(code), date, open, close, high, low, volume, amount })
}

/// `b` is the bar that record `dto` of instrument `code` gives.
pub open spec fn bar_from(b: DailyPriceBar, code: Seq<char>, dto: StockDailyPriceDTO) -> bool {
    &&& b.code@ == code
    &&& b.date == digits_value(dto.d@)
    &&& decimal_of(dto.o@) == Some(b.open)
    &&& decimal_of(dto.c@) == Some(b.close)
    &&& decimal_of(dto.h@) == Some(b.high)
    &&& decimal_of(dto.l@) == Some(b.low)
    &&& b.volume == optional_decimal(dto.v@)
    &&& b.amount == optional_decimal(dto.e@)
}

/// Why a record that does not read is refused: its date first.
pub open spec fn record_error(dto: StockDailyPriceDTO) -> PriceError {
    if !is_date_text(dto.d@) { PriceError::MalformedDate } else { PriceError::MalformedDecimal }
}

/// Turns the records a price source reported for instrument `code` into
/// bars, in order; the first record that does not read stops the work and
/// is reported with its position.
pub fn create_daily_prices(code: &str, records: &Vec<StockDailyPriceDTO>) -> (r: Result<Vec<DailyPriceBar>, (usize, PriceError)>)
    ensures
        r is Ok <==> forall|i: int| 0 <= i < records@.len() ==> record_reads(#[trigger] records@[i]),
        r matches Ok(v) ==> v@.len() == records@.len()
            && forall|i: int| 0 <= i < v@.len() ==> bar_from(#[trigger] v@[i], code@, records@[i]),
        r matches Err(f) ==> f.0 < records@.len() && !record_reads(records@[f.0 as int])
            && f.1 == record_error(records@[f.0 as int])
            && forall|k: int| 0 <= k < f.0 ==> record_reads(#[trigger] records@[k]),
{
    let mut bars: Vec<DailyPriceBar> = Vec::new();
    let mut i: usize = 0;
    while i < records.len()
        invariant
            i <= records@.len(),
            bars@.len() == i,
            forall|k: int| 0 <= k < i ==> record_reads(#[trigger] records@[k]),
            forall|k: int| 0 <= k < i ==> bar_from(#[trigger] bars@[k], code@, records@[k]),
        decreases records@.len() - i,
    {
        match create_stock_daily_price(code, &records[i]) {
            Ok(b) => bars.push(b),
            Err(e) => {
                return Err((i, e));
            },
        }
        i = i + 1;
    }
    Ok(bars)
}

/// A real-time quote of one instrument.
#[derive(Debug)]
pub struct StockPrice {
    pub code: String,
    pub open: Option<BigDecimal>,
    pub close: BigDecimal,
    pub low: Option<BigDecimal>,
    pub high: Option<BigDecimal>,
    pub volume: Option<BigDecimal>,
    pub amount: Option<BigDecimal>,
    pub time: String,
}

/// The quote that a source record gives, when every field reads.
pub open spec fn quote_reads(dto: StockPriceDTO) -> bool {
    &&& (decimal_of(dto.p@) is Some)
    &&& (dto.o@.len() == 0 || (decimal_of(dto.o@) is Some))
    &&& (dto.h@.len() == 0 || (decimal_of(dto.h@) is Some))
    &&& (dto.l@.len() == 0 || (decimal_of(dto.l@) is Some))
    &&& (dto.v@.len() == 0 || (decimal_of(dto.v@) is Some))
    &&& (dto.cje@.len() == 0 || (decimal_of(dto.cje@) is Some))
}

/// Turns a source quote of instrument `code` into a quote; the current price
/// becomes the close, and an empty field is absent.
pub fn create_stock_price(code: &str, dto: &StockPriceDTO) -> (r: Result<StockPrice, PriceError>)
    ensures
        r is Ok == quote_reads(*dto),
        r matches Err(e) ==> e == PriceError::MalformedDecimal,
        r matches Ok(q) ==> {
            &&& q.code@ == code@
            &&& q.time@ == dto.t@
            &&& decimal_of(dto.p@) == Some(q.close)
            &&& q.open == optional_decimal(dto.o@)
            &&& q.high == optional_decimal(dto.h@)
            &&& q.low == optional_decimal(dto.l@)
            &&& q.volume == optional_decimal(dto.v@)
            &&& q.amount == optional_decimal(dto.cje@)
        },
{
    let close = parse_required(&dto.p)?;
    let open = parse_optional(&dto.o)?;
    let high = parse_optional(&dto.h)?;
    let low = parse_optional(&dto.l)?;
    let volume = parse_optional(&dto.v)?;
    let amount = parse_optional(&dto.cje)?;
    Ok(StockPrice {
        code: String::from_str(code),
        open,
        close,
        low,
        high,
        volume,
        amount,
        time: dto.t.clone(),
    })
}

/// A real-time quote of a bond, every field as text.
#[derive(Debug)]
pub struct DebtPrice {
    pub current: String,
    pub open: String,
    pub high: String,
    pub low: String,
    pub zd: String,
    pub zdf: String,
    pub yc: String,
    pub v: String,
    pub cje: String,
    pub t: String,
}

} // verus!
