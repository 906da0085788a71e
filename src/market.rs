//! Market status: open or closed, from the calendar and the exchange's
//! intraday trading sessions.
use vstd::prelude::*;
use crate::calendar::{LocalTime, spec_is_non_trading_day, is_non_trading_day};

verus! {

/// One intraday trading session, as seconds since local midnight; both ends
/// belong to the session.
#[derive(Clone, Copy, Debug, PartialEq, Eq, Structural)]
pub struct SessionWindow {
    pub start: u32,
    pub end: u32,
}

/// Whether a market is trading at some instant.
#[derive(Clone, Copy, Debug, PartialEq, Eq, Structural)]
pub enum MarketStatus {
    Trading,
    Closed,
}

/// Some session of `windows` holds time of day `t`, both ends included.
pub open spec fn in_some_window(windows: Seq<SessionWindow>, t: int) -> bool {
    exists|i: int| 0 <= i < windows.len() && (#[trigger] windows[i]).start <= t <= windows[i].end
}

/// Market status on a day, at time of day `t`.
///
/// A non-trading day is closed. With no sessions defined the market counts as
/// open all day. Before the first session's start or after the last
/// session's end it is closed; otherwise it is trading exactly inside a
/// session.
pub open spec fn spec_status(non_trading: bool, windows: Seq<SessionWindow>, t: int) -> MarketStatus {
    if non_trading {
        MarketStatus::Closed
    } else if windows.len() == 0 {
        MarketStatus::Trading
    } else if t < windows[0].start || t > windows.last().end {
        MarketStatus::Closed
    } else if in_some_window(windows, t) {
        MarketStatus::Trading
    } else {
        MarketStatus::Closed
    }
}

impl MarketStatus {
    /// Text form of the status.
    pub open spec fn spec_text(self) -> Seq<char> {
        match self {
            MarketStatus::Trading => "MarketTrading"@,
            MarketStatus::Closed => "MarketClosed"@,
        }
    }

    /// Text form of the status, as it is cached and served.
    pub fn as_str(&self) -> (r: &'static str)
        ensures
            r@ == self.spec_text(),
    {
        match self {
            MarketStatus::Trading => "MarketTrading",
            MarketStatus::Closed => "MarketClosed",
        }
    }

    /// The status whose text form is `text`.
    pub fn from_text(text: &str) -> (r: Option<MarketStatus>)
        ensures
            r == (if text@ == "MarketTrading"@ {
                Some(MarketStatus::Trading)
            } else if text@ == "MarketClosed"@ {
                Some(MarketStatus::Closed)
            } else {
                None
            }),
    {
        if crate::text::text_eq(text, "MarketTrading") {
            Some(MarketStatus::Trading)
        } else if crate::text::text_eq(text, "MarketClosed") {
            Some(MarketStatus::Closed)
        } else {
            None
        }
    }
}

/// Status at time of day `t`, given whether the day is a non-trading day and
/// the exchange's sessions as the store lists them (ascending by start).
pub fn status_at(non_trading: bool, windows: &Vec<SessionWindow>, t: u32) -> (r: MarketStatus)
    ensures
        r == spec_status(non_trading, windows@, t as int),
{
    if non_trading {
        return MarketStatus::Closed;
    }
    let n = windows.len();
    if n == 0 {
        return MarketStatus::Trading;
    }
    if t < windows[0].start || t > windows[n - 1].end {
        return MarketStatus::Closed;
    }
    assert(!(t < windows@[0].start || t > windows@.last().end));
    let mut i: usize = 0;
    while i < n
        invariant
            n == windows@.len(),
            i <= n,
            n > 0,
            !(t < windows@[0].start || t > windows@.last().end),
            !non_trading,
            forall|j: int| 0 <= j < i ==> !((#[trigger] windows@[j]).start <= t <= windows@[j].end),
        decreases n - i,
    {
        if windows[i].start <= t && t <= windows[i].end {
            assert(windows@[i as int].start <= t <= windows@[i as int].end);
            assert(in_some_window(windows@, t as int));
            return MarketStatus::Trading;
        }
        i = i + 1;
    }
    MarketStatus::Closed
}

/// Market status of an exchange at local time `local`, given whether a
/// holiday is recorded for that local date and the exchange's sessions.
pub fn evaluate(local: &LocalTime, holiday_recorded: bool, windows: &Vec<SessionWindow>) -> (r: MarketStatus)
    ensures
        r == spec_status(spec_is_non_trading_day(*local, holiday_recorded), windows@, local.seconds as int),
{
    let non_trading = is_non_trading_day(local, holiday_recorded);
    status_at(non_trading, windows, local.seconds)
}

/// On a date with a holiday record the market is closed, whatever the time
/// of day and the sessions.
pub proof fn lemma_holiday_is_closed(local: LocalTime, windows: Seq<SessionWindow>)
    ensures
        spec_status(spec_is_non_trading_day(local, true), windows, local.seconds as int) == MarketStatus::Closed,
{
}

/// With sessions 9:30-11:30 and 13:00-15:00 on a trading day, the market
/// trades at 10:00 and at 14:00 and is closed at 12:00 and at 16:00.
pub proof fn lemma_two_session_day(windows: Seq<SessionWindow>)
    requires
        windows == seq![SessionWindow { start: 34200, end: 41400 }, SessionWindow { start: 46800, end: 54000 }],
    ensures
        spec_status(false, windows, 36000) == MarketStatus::Trading,
        spec_status(false, windows, 50400) == MarketStatus::Trading,
        spec_status(false, windows, 43200) == MarketStatus::Closed,
        spec_status(false, windows, 57600) == MarketStatus::Closed,
{
    assert(windows[0].start <= 36000 <= windows[0].end);
    assert(windows[1].start <= 50400 <= windows[1].end);
    assert(!in_some_window(windows, 43200)) by {
        assert forall|i: int| 0 <= i < windows.len() implies !((#[trigger] windows[i]).start <= 43200 <= windows[i].end) by {
            if i == 0 {
            } else {
                assert(i == 1);
            }
        }
    }
}

} // verus!
