//! Historical event sources for deterministic replay.

use crate::decimal::{
    checked_add, checked_div, checked_mul, checked_sub, decimal_difference, decimal_product,
    decimal_quotient, decimal_sum, max_value, value_lt, Dec, abs_int, decimal_ops_exact,
    exact_difference, exact_sum, max_scale, value_is, MAX_MANTISSA,
};
use crate::error::Error;
use crate::events::{Event, MarketEvent};
use crate::keyed::Duplicate;
use crate::state::{overflow_message, two};
use crate::timestamp::{now_utc, Timestamp};
use crate::types::{ExchangeId, InstrumentId, Symbol};
use vstd::prelude::*;

verus! {

/// Produces timestamped [`Event`] values.
pub trait HistoricalSource {
    /// Next event in order; `None` at the end, `Some(Err(..))` where a decimal result
    /// leaves the representable range.
    fn next_event(&mut self) -> Option<Result<Event, Error>>;
}

/// What `OffsetDateTime::parse` with the RFC 3339 format gives: nanoseconds since the
/// epoch and the offset in seconds.
pub uninterp spec fn rfc3339_parse(s: Seq<char>) -> Option<(i128, i32)>;

/// What `PrimitiveDateTime::parse` with the given format description, taken as UTC, gives:
/// nanoseconds since the epoch.
pub uninterp spec fn primitive_utc_parse(s: Seq<char>, description: Seq<char>) -> Option<i128>;

/// RFC 3339 time, through `OffsetDateTime::parse`.
/// Trusted: the result is named by `rfc3339_parse`.
#[verifier::external_body]
fn parse_rfc3339(s: &str) -> (r: Option<(i128, i32)>)
    ensures
        r == rfc3339_parse(s@),
{
    time::OffsetDateTime::parse(s, &time::format_description::well_known::Rfc3339).ok().map(
        |t| (t.unix_timestamp_nanos(), t.offset().whole_seconds()),
    )
}

/// Date-time without offset in the given format, taken as UTC, through
/// `format_description::parse`, `PrimitiveDateTime::parse` and `assume_utc`.
/// Trusted: the result is named by `primitive_utc_parse`.
#[verifier::external_body]
fn parse_primitive_utc(s: &str, description: &str) -> (r: Option<i128>)
    ensures
        r == primitive_utc_parse(s@, description@),
{
    let fmt = time::format_description::parse(description).ok()?;
    time::PrimitiveDateTime::parse(s, &fmt).ok().map(|p| p.assume_utc().unix_timestamp_nanos())
}

/// What `Date::parse` with the given format description gives, taken at midnight UTC:
/// nanoseconds since the epoch.
pub uninterp spec fn date_midnight_utc_parse(s: Seq<char>, description: Seq<char>) -> Option<i128>;

/// Date alone in the given format, at midnight UTC, through `format_description::parse`,
/// `Date::parse`, `midnight` and `assume_utc`.
/// Trusted: the result is named by `date_midnight_utc_parse`.
#[verifier::external_body]
fn parse_date_midnight_utc(s: &str, description: &str) -> (r: Option<i128>)
    ensures
        r == date_midnight_utc_parse(s@, description@),
{
    let fmt = time::format_description::parse(description).ok()?;
    time::Date::parse(s, &fmt).ok().map(|d| d.midnight().assume_utc().unix_timestamp_nanos())
}

/// Format of a date and time without offset.
pub open spec fn date_time_format() -> Seq<char> {
    "[year]-[month]-[day] [hour]:[minute]:[second]"@
}

/// Format of a date alone.
pub open spec fn date_format() -> Seq<char> {
    "[year]-[month]-[day]"@
}

/// The timestamp of UTC nanoseconds, when representable.
pub open spec fn utc_timestamp(n: i128) -> Option<Timestamp> {
    if Timestamp::representable(n as int, 0) {
        Some(Timestamp::of(n as int, 0))
    } else {
        None
    }
}

/// A timestamp from RFC 3339, else `YYYY-MM-DD HH:MM:SS` (UTC), else `YYYY-MM-DD` at
/// midnight UTC.
pub open spec fn spec_parse_ts(s: Seq<char>) -> Option<Timestamp> {
    match rfc3339_parse(s) {
        Some((n, o)) => if Timestamp::representable(n as int, o as int) {
            Some(Timestamp::of(n as int, o as int))
        } else {
            None
        },
        None => match primitive_utc_parse(s, date_time_format()) {
            Some(n) => utc_timestamp(n),
            None => match date_midnight_utc_parse(s, date_format()) {
                Some(n) => utc_timestamp(n),
                None => None,
            },
        },
    }
}

fn utc_from_nanos(n: i128) -> (r: Option<Timestamp>)
    ensures
        r == utc_timestamp(n),
{
    Timestamp::new(n, 0)
}

/// Parse a timestamp: RFC 3339, else `YYYY-MM-DD HH:MM:SS` taken as UTC, else `YYYY-MM-DD`
/// at midnight UTC.
pub fn parse_ts(s: &str) -> (r: Option<Timestamp>)
    ensures
        r == spec_parse_ts(s@),
{
    proof {
        reveal_strlit("[year]-[month]-[day] [hour]:[minute]:[second]");
        reveal_strlit("[year]-[month]-[day]");
    }
    match parse_rfc3339(s) {
        Some((n, o)) => {
            return Timestamp::new(n, o);
        },
        None => {},
    }
    match parse_primitive_utc(s, "[year]-[month]-[day] [hour]:[minute]:[second]") {
        Some(n) => {
            return utc_from_nanos(n);
        },
        None => {},
    }
    match parse_date_midnight_utc(s, "[year]-[month]-[day]") {
        Some(n) => utc_from_nanos(n),
        None => None,
    }
}

/// One step of a synthetic random walk of quotes: the shock is `shock_micros` millionths
/// times `vol`; the new price is `price * (drift + shock)`, at least 0.01; the quote pads it
/// by a two-thousandth on each side. Gives `(price, bid, ask)`; `None` on overflow.
pub open spec fn spec_synthetic_quote(price: Dec, drift: Dec, vol: Dec, shock_micros: i64) -> Option<
    (Dec, Dec, Dec),
> {
    match decimal_product(Dec::of(shock_micros as int, 6), vol) {
        None => None,
        Some(shock) => match decimal_sum(drift, shock) {
            None => None,
            Some(factor) => match decimal_product(price, factor) {
                None => None,
                Some(raw) => {
                    let p = if value_lt(raw, Dec::of(1, 2)) {
                        Dec::of(1, 2)
                    } else {
                        raw
                    };
                    match decimal_quotient(p, Dec::of(2000, 0)) {
                        None => None,
                        Some(pad) => match (decimal_difference(p, pad), decimal_sum(p, pad)) {
                            (Some(bid), Some(ask)) => Some((p, bid, ask)),
                            _ => None,
                        },
                    }
                },
            },
        },
    }
}

/// A synthetic quote never prices below a cent, and its bid and ask sit symmetrically around
/// the new price: the bid is the price minus the pad and the ask the price plus the same pad,
/// each exactly where it fits, the pad being the price over 2000 (exactly where divisible).
pub proof fn law_synthetic_quote_floored_and_centred(
    price: Dec,
    drift: Dec,
    vol: Dec,
    shock_micros: i64,
)
    requires
        decimal_ops_exact(),
    ensures
        spec_synthetic_quote(price, drift, vol, shock_micros) matches Some((p, bid, ask)) ==> ({
            let pad = decimal_quotient(p, Dec::of(2000, 0))->0;
            &&& crate::decimal::value_le(Dec::of(1, 2), p)
            &&& p.mant() % 2000 == 0 ==> value_is(pad, p.mant() / 2000, p.sc())
            &&& abs_int(exact_difference(p, pad)) <= MAX_MANTISSA ==> value_is(
                bid,
                exact_difference(p, pad),
                max_scale(p, pad),
            )
            &&& abs_int(exact_sum(p, pad)) <= MAX_MANTISSA ==> value_is(
                ask,
                exact_sum(p, pad),
                max_scale(p, pad),
            )
        }),
{
    Dec::lemma_of(2000, 0);
    Dec::lemma_of(1, 2);
}

/// One step of a synthetic random walk of quotes (see [`spec_synthetic_quote`]).
pub fn synthetic_quote(price: Dec, drift: Dec, vol: Dec, shock_micros: i64) -> (r: Option<
    (Dec, Dec, Dec),
>)
    ensures
        r == spec_synthetic_quote(price, drift, vol, shock_micros),
{
    let shock = checked_mul(Dec::new(shock_micros, 6), vol)?;
    let factor = checked_add(drift, shock)?;
    let raw = checked_mul(price, factor)?;
    let p = max_value(raw, Dec::new(1, 2));
    let pad = checked_div(p, Dec::from_u64(2000))?;
    let bid = checked_sub(p, pad)?;
    let ask = checked_add(p, pad)?;
    Some((p, bid, ask))
}

/// OHLCV row for [`CsvBarSource`].
#[derive(Debug)]
pub struct OhlcvRow {
    /// Timestamp string (RFC3339 or `YYYY-MM-DD HH:MM:SS` or date-only).
    pub ts: String,
    /// Open.
    pub open: Dec,
    /// High.
    pub high: Dec,
    /// Low.
    pub low: Dec,
    /// Close.
    pub close: Dec,
    /// Volume.
    pub volume: Dec,
}

/// Bid and ask of a bar: the close, padded by 1% of the high-low range, or by 0.01% of the
/// close when the range is zero; `None` on overflow.
pub open spec fn bar_quote(row: OhlcvRow) -> Option<(Dec, Dec)> {
    match decimal_difference(row.high, row.low) {
        None => None,
        Some(spread) => {
            let pad = if spread.mant() == 0 {
                decimal_quotient(row.close, Dec::of(10000, 0))
            } else {
                decimal_quotient(spread, Dec::of(100, 0))
            };
            match pad {
                None => None,
                Some(p) => match (decimal_difference(row.close, p), decimal_sum(row.close, p)) {
                    (Some(bid), Some(ask)) => Some((bid, ask)),
                    _ => None,
                },
            }
        },
    }
}

/// The half-width of a bar's quote: 1% of the high-low range, or 0.01% of the close when the
/// range is zero; `None` on overflow.
pub open spec fn bar_pad(row: OhlcvRow) -> Option<Dec> {
    match decimal_difference(row.high, row.low) {
        None => None,
        Some(range) => if range.mant() == 0 {
            decimal_quotient(row.close, Dec::of(10000, 0))
        } else {
            decimal_quotient(range, Dec::of(100, 0))
        },
    }
}

/// The quote of a bar is centred on its close: the bid is the close minus the bar's pad and
/// the ask the close plus the same pad, each exactly where it fits (as `rust_decimal` then
/// subtracts and adds exactly); so bid + ask is twice the close. The pad is a hundredth of the
/// high-low range, exactly where the range is exact and its mantissa divisible by 100.
pub proof fn law_bar_quote_centred_on_close(row: OhlcvRow)
    requires
        decimal_ops_exact(),
    ensures
        bar_quote(row) matches Some((bid, ask)) ==> (bar_pad(row) matches Some(p) && (abs_int(
            exact_difference(row.close, p),
        ) <= MAX_MANTISSA ==> value_is(
            bid,
            exact_difference(row.close, p),
            max_scale(row.close, p),
        )) && (abs_int(exact_sum(row.close, p)) <= MAX_MANTISSA ==> value_is(
            ask,
            exact_sum(row.close, p),
            max_scale(row.close, p),
        ))),
        ({
            let range = decimal_difference(row.high, row.low);
            range is Some && range->0.mant() != 0 && range->0.mant() % 100 == 0 ==> (bar_pad(
                row,
            ) matches Some(p) && value_is(p, range->0.mant() / 100, range->0.sc()))
        }),
{
    Dec::lemma_of(100, 0);
    Dec::lemma_of(10000, 0);
}

/// CSV bar replay (`ts,open,high,low,close,volume` rows).
#[derive(Debug)]
pub struct CsvBarSource {
    rows: Vec<OhlcvRow>,
    idx: usize,
    instrument: InstrumentId,
}

impl CsvBarSource {
    /// The rows.
    pub closed spec fn rows(&self) -> Seq<OhlcvRow> {
        self.rows@
    }

    /// Index of the next row.
    pub closed spec fn position(&self) -> nat {
        self.idx as nat
    }

    /// The instrument of the events.
    pub closed spec fn instrument(&self) -> InstrumentId {
        self.instrument
    }

    /// In-memory rows (already parsed).
    pub fn from_ohlcv_rows(exchange: ExchangeId, symbol: Symbol, rows: Vec<OhlcvRow>) -> (r: Self)
        ensures
            r.rows() == rows@,
            r.position() == 0,
            r.instrument() == (InstrumentId { exchange, symbol }),
    {
        CsvBarSource { rows, idx: 0, instrument: InstrumentId { exchange, symbol } }
    }

    /// Rows read from a CSV file: refused when there are none.
    pub fn from_parsed_rows(exchange: ExchangeId, symbol: Symbol, rows: Vec<OhlcvRow>) -> (r: Result<
        Self,
        String,
    >)
        ensures
            rows@.len() == 0 ==> (r matches Err(m) && m@ == "empty csv"@),
            rows@.len() > 0 ==> (r matches Ok(s) && s.rows() == rows@ && s.position() == 0
                && s.instrument() == (InstrumentId { exchange, symbol })),
    {
        if rows.len() == 0 {
            return Err("empty csv".to_owned());
        }
        Ok(CsvBarSource { rows, idx: 0, instrument: InstrumentId { exchange, symbol } })
    }
}

impl HistoricalSource for CsvBarSource {
    fn next_event(&mut self) -> (r: Option<Result<Event, Error>>)
        ensures
            old(self).position() >= old(self).rows().len() ==> r is None && *final(self) == *old(self),
            old(self).position() < old(self).rows().len() ==> {
                let row = old(self).rows()[old(self).position() as int];
                &&& final(self).rows() == old(self).rows()
                &&& final(self).instrument() == old(self).instrument()
                &&& final(self).position() == old(self).position() + 1
                &&& match bar_quote(row) {
                    None => r matches Some(Err(Error::Invalid(m))) && m@ == "decimal overflow"@,
                    Some((bid, ask)) => r matches Some(Ok(Event::Market(MarketEvent::BookL1 { instrument, ts, bid: b, ask: a }))) && instrument == old(self).instrument() && b == bid && a == ask
                        && (spec_parse_ts(row.ts@) matches Some(t) ==> ts == t),
                }
            },
    {
        if self.idx >= self.rows.len() {
            return None;
        }
        let row = &self.rows[self.idx];
        self.idx += 1;
        let ts = match parse_ts(row.ts.as_str()) {
            Some(t) => t,
            None => now_utc(),
        };
        let spread = match checked_sub(row.high, row.low) {
            Some(s) => s,
            None => {
                return Some(Err(Error::Invalid(overflow_message())));
            },
        };
        let pad = if spread.is_zero() {
            checked_div(row.close, Dec::from_u64(10000))
        } else {
            checked_div(spread, Dec::from_u64(100))
        };
        let pad = match pad {
            Some(p) => p,
            None => {
                return Some(Err(Error::Invalid(overflow_message())));
            },
        };
        let mid = row.close;
        match (checked_sub(mid, pad), checked_add(mid, pad)) {
            (Some(bid), Some(ask)) => Some(
                Ok(
                    Event::Market(
                        MarketEvent::BookL1 { instrument: self.instrument.duplicate(), ts, bid, ask },
                    ),
                ),
            ),
            _ => Some(Err(Error::Invalid(overflow_message()))),
        }
    }
}

/// OHLC row without volume (embedded example / tight CSV).
#[derive(Debug)]
pub struct OhlcRow {
    /// Timestamp (RFC3339 recommended).
    pub ts: String,
    /// Open.
    pub open: Dec,
    /// High.
    pub high: Dec,
    /// Low.
    pub low: Dec,
    /// Close.
    pub close: Dec,
}

/// Bid and ask around the close at `half_bps` basis points each side; `None` on overflow.
pub open spec fn ohlc_quote(close: Dec, half_bps: Dec) -> Option<(Dec, Dec)> {
    match crate::decimal::decimal_product(close, half_bps) {
        None => None,
        Some(x) => match decimal_quotient(x, Dec::of(10000, 0)) {
            None => None,
            Some(h) => match (decimal_difference(close, h), decimal_sum(close, h)) {
                (Some(bid), Some(ask)) => Some((bid, ask)),
                _ => None,
            },
        },
    }
}

/// An OHLC quote is centred on the close: the bid is the close minus the half-spread and the
/// ask the close plus the same half-spread, each exactly where it fits; the half-spread is
/// `close * half_bps` over 10000, exactly where that product's mantissa is divisible by 10000.
pub proof fn law_ohlc_quote_centred_on_close(close: Dec, half_bps: Dec)
    requires
        decimal_ops_exact(),
        close.sc() + half_bps.sc() <= crate::decimal::MAX_SCALE,
        abs_int(close.mant() * half_bps.mant()) <= MAX_MANTISSA,
    ensures
        ({
            let prod = crate::decimal::exact_product(close, half_bps);
            let h = decimal_quotient(prod, Dec::of(10000, 0))->0;
            &&& prod.mant() % 10000 == 0 ==> value_is(h, prod.mant() / 10000, prod.sc())
            &&& abs_int(exact_difference(close, h)) <= MAX_MANTISSA && abs_int(exact_sum(close, h))
                <= MAX_MANTISSA ==> (ohlc_quote(close, half_bps) matches Some((bid, ask))
                && value_is(bid, exact_difference(close, h), max_scale(close, h)) && value_is(
                ask,
                exact_sum(close, h),
                max_scale(close, h),
            ))
        }),
{
    Dec::lemma_of(10000, 0);
    assert(crate::decimal::decimal_product(close, half_bps) == Some(
        crate::decimal::exact_product(close, half_bps),
    ));
    assert(decimal_quotient(crate::decimal::exact_product(close, half_bps), Dec::of(10000, 0)) is Some);
}

/// In-memory OHLC replay as synthetic [`MarketEvent::BookL1`] quotes around the close.
#[derive(Debug)]
pub struct CsvOhlcSource {
    instrument: InstrumentId,
    rows: Vec<OhlcRow>,
    idx: usize,
    half_spread_from_mid_bps: Dec,
}

impl CsvOhlcSource {
    /// The rows.
    pub closed spec fn rows(&self) -> Seq<OhlcRow> {
        self.rows@
    }

    /// Index of the next row.
    pub closed spec fn position(&self) -> nat {
        self.idx as nat
    }

    /// The instrument of the events.
    pub closed spec fn instrument(&self) -> InstrumentId {
        self.instrument
    }

    /// Half the spread, in basis points of the close.
    pub closed spec fn half_spread_bps(&self) -> Dec {
        self.half_spread_from_mid_bps
    }

    /// Iterate owned rows; quotes are `spread_bps` wide around the close.
    pub fn from_rows(instrument: InstrumentId, rows: Vec<OhlcRow>, spread_bps: Dec) -> (r: Self)
        ensures
            r.rows() == rows@,
            r.position() == 0,
            r.instrument() == instrument,
            decimal_quotient(spread_bps, two()) == Some(r.half_spread_bps()),
    {
        let half = checked_div(spread_bps, Dec::from_u64(2));
        let half = half.unwrap();
        CsvOhlcSource { instrument, rows, idx: 0, half_spread_from_mid_bps: half }
    }
}

impl HistoricalSource for CsvOhlcSource {
    fn next_event(&mut self) -> (r: Option<Result<Event, Error>>)
        ensures
            old(self).position() >= old(self).rows().len() ==> r is None && *final(self) == *old(self),
            old(self).position() < old(self).rows().len() ==> {
                let row = old(self).rows()[old(self).position() as int];
                &&& final(self).rows() == old(self).rows()
                &&& final(self).instrument() == old(self).instrument()
                &&& final(self).half_spread_bps() == old(self).half_spread_bps()
                &&& final(self).position() == old(self).position() + 1
                &&& match ohlc_quote(row.close, old(self).half_spread_bps()) {
                    None => r matches Some(Err(Error::Invalid(m))) && m@ == "decimal overflow"@,
                    Some((bid, ask)) => r matches Some(Ok(Event::Market(MarketEvent::BookL1 { instrument, ts, bid: b, ask: a }))) && instrument == old(self).instrument() && b == bid && a == ask
                        && (spec_parse_ts(row.ts@) matches Some(t) ==> ts == t),
                }
            },
    {
        if self.idx >= self.rows.len() {
            return None;
        }
        let row = &self.rows[self.idx];
        self.idx += 1;
        let ts = match parse_ts(row.ts.as_str()) {
            Some(t) => t,
            None => now_utc(),
        };
        let mid = row.close;
        let x = match crate::decimal::checked_mul(mid, self.half_spread_from_mid_bps) {
            Some(x) => x,
            None => {
                return Some(Err(Error::Invalid(overflow_message())));
            },
        };
        let half = match checked_div(x, Dec::from_u64(10000)) {
            Some(h) => h,
            None => {
                return Some(Err(Error::Invalid(overflow_message())));
            },
        };
        match (checked_sub(mid, half), checked_add(mid, half)) {
            (Some(bid), Some(ask)) => Some(
                Ok(
                    Event::Market(
                        MarketEvent::BookL1 { instrument: self.instrument.duplicate(), ts, bid, ask },
                    ),
                ),
            ),
            _ => Some(Err(Error::Invalid(overflow_message()))),
        }
    }
}

/// Optional hook for custom microstructure models.
pub trait FillModel {
    /// Label for logging.
    fn name(&self) -> &'static str;
}

/// Default touch-based fill assumption (fills use paper/sim gateways).
#[derive(Clone, Copy, Debug, Default)]
pub struct TouchCrossFillModel;

impl FillModel for TouchCrossFillModel {
    fn name(&self) -> (r: &'static str)
        ensures
            r@ == "touch_cross"@,
    {
        "touch_cross"
    }
}

} // verus!
