//! Binance Spot public stream messages (trades, book ticker, depth) as market events.

use crate::decimal::{decimal_parse, parse_decimal, Dec};
use crate::error::Error;
use crate::events::{BookL2Snapshot, Event, MarketEvent};
use crate::json::{field_str, get_str, json_get, json_i64, json_parse, json_str, parse_json, Json};
use crate::keyed::Duplicate;
use crate::text::{contains_text, occurs_in, trim_end, trim_end_char};
use crate::timestamp::{now_utc, Timestamp};
use crate::types::InstrumentId;
use vstd::prelude::*;

verus! {

/// Combined `trade` + `bookTicker` stream for one symbol (e.g. btcusdt lower case).
#[derive(Debug)]
pub struct BinanceCombinedStream {
    /// Instrument id for normalized events.
    pub instrument: InstrumentId,
    /// Lowercase Binance stream symbol (e.g. btcusdt).
    pub stream_symbol: String,
    /// WebSocket base (e.g. `wss://stream.binance.com:9443` or testnet stream host).
    pub ws_base: String,
}

/// Shallow order book depth (`@depth5|10|20@100ms`).
#[derive(Debug)]
pub struct BinanceDepthStream {
    /// Instrument id for normalized events.
    pub instrument: InstrumentId,
    /// Lowercase stream symbol (e.g. btcusdt).
    pub stream_symbol: String,
    /// Target depth (clamped to Binance-supported 5 / 10 / 20).
    pub depth_levels: usize,
    /// WebSocket base (e.g. `wss://stream.binance.com:9443` or testnet).
    pub ws_base: String,
}

/// The supported depth that serves `n` levels: 5, 10, else 20.
pub open spec fn spec_depth_bucket(n: int) -> int {
    if n <= 5 {
        5
    } else if n <= 10 {
        10
    } else {
        20
    }
}

/// Binance depth stream size for a requested number of levels.
pub fn depth_bucket(n: usize) -> (r: usize)
    ensures
        r == spec_depth_bucket(n as int),
{
    if n <= 5 {
        5
    } else if n <= 10 {
        10
    } else {
        20
    }
}

impl BinanceCombinedStream {
    /// `{ws_base}/stream?streams={symbol}@trade/{symbol}@bookTicker`, without trailing `/`
    /// on the base.
    pub fn url(&self) -> (r: String)
        ensures
            r@ == trim_end_char(self.ws_base@, '/') + "/stream?streams="@ + self.stream_symbol@
                + "@trade/"@ + self.stream_symbol@ + "@bookTicker"@,
    {
        let mut u = trim_end(self.ws_base.as_str(), '/');
        u.append("/stream?streams=");
        u.append(self.stream_symbol.as_str());
        u.append("@trade/");
        u.append(self.stream_symbol.as_str());
        u.append("@bookTicker");
        u
    }
}

impl BinanceDepthStream {
    /// `{ws_base}/stream?streams={symbol}@depth{bucket}@100ms`, without trailing `/` on the
    /// base.
    pub fn url(&self) -> (r: String)
        ensures
            r@ == trim_end_char(self.ws_base@, '/') + "/stream?streams="@ + self.stream_symbol@
                + "@depth"@ + crate::text::decimal_digits(
                spec_depth_bucket(self.depth_levels as int) as nat,
            ) + "@100ms"@,
    {
        let bucket = depth_bucket(self.depth_levels);
        let mut u = trim_end(self.ws_base.as_str(), '/');
        u.append("/stream?streams=");
        u.append(self.stream_symbol.as_str());
        u.append("@depth");
        u.append(crate::text::u64_text(bucket as u64).as_str());
        u.append("@100ms");
        u
    }
}

/// The `stream` name and `data` of a combined-stream message.
pub open spec fn stream_message(doc: Json) -> Option<(Seq<char>, Json)> {
    match (field_str(doc, "stream"@), json_get(doc, "data"@)) {
        (Some(s), Some(d)) => Some((s, d)),
        _ => None,
    }
}

/// An optional integer member: absent or `null` is `Some(None)`, an integer in the `i64`
/// range is `Some(Some(..))`, anything else is malformed (`None`).
pub open spec fn optional_i64(doc: Json, key: Seq<char>) -> Option<Option<i64>> {
    match json_get(doc, key) {
        None => Some(None),
        Some(Json::Null) => Some(None),
        Some(v) => match json_i64(v) {
            Some(i) => Some(Some(i)),
            None => None,
        },
    }
}

fn get_optional_i64(doc: &Json, key: &str) -> (r: Option<Option<i64>>)
    ensures
        r == optional_i64(*doc, key@),
{
    match doc.get(key) {
        None => Some(None),
        Some(Json::Null) => Some(None),
        Some(v) => match v.as_i64() {
            Some(i) => Some(Some(i)),
            None => None,
        },
    }
}

/// The instant `ms` milliseconds after the epoch, in UTC, if representable.
pub open spec fn millis_instant(ms: i64) -> Option<Timestamp> {
    if Timestamp::representable(ms as int * 1_000_000, 0) {
        Some(Timestamp::of(ms as int * 1_000_000, 0))
    } else {
        None
    }
}

/// Event time of a message: the instant of `ms` when given and representable, else now.
fn event_time_or_now(ms: Option<i64>) -> (r: Timestamp)
    ensures
        ms matches Some(m) ==> (millis_instant(m) matches Some(t) ==> r == t),
{
    match ms {
        Some(m) => match Timestamp::new(m as i128 * 1_000_000i128, 0) {
            Some(t) => t,
            None => now_utc(),
        },
        None => now_utc(),
    }
}

/// Decode one combined-stream text message: a trade on `@trade` streams, a best bid/ask on
/// `bookTicker` streams. `Ok(None)` for messages that are not JSON, lack the expected fields,
/// or belong to other streams; `Err` when a price or quantity is not a decimal.
pub fn decode_combined_message(text: &str, instrument: &InstrumentId) -> (r: Result<
    Option<Event>,
    Error,
>)
    ensures
        match json_parse(text@) {
            None => r matches Ok(None),
            Some(doc) => match stream_message(doc) {
                None => r matches Ok(None),
                Some((stream, data)) => if occurs_in(stream, "@trade"@) {
                    match (json_get(data, "E"@), field_str(data, "p"@), field_str(data, "q"@)) {
                        (Some(e), Some(p), Some(q)) => if json_i64(e) is None {
                            r matches Ok(None)
                        } else {
                            match (decimal_parse(p), decimal_parse(q)) {
                                (Some(price), Some(qty)) => r matches Ok(Some(Event::Market(MarketEvent::Trade { instrument: i, ts, price: pr, qty: qt })))
                                    && i == *instrument && pr == price && qt == qty
                                    && (millis_instant(json_i64(e)->0) matches Some(t) ==> ts == t),
                                _ => r matches Err(Error::Decimal(_)),
                            }
                        },
                        _ => r matches Ok(None),
                    }
                } else if occurs_in(stream, "bookTicker"@) {
                    match (optional_i64(data, "E"@), field_str(data, "b"@), field_str(data, "a"@)) {
                        (Some(e), Some(b), Some(a)) => match (decimal_parse(b), decimal_parse(a)) {
                            (Some(bid), Some(ask)) => r matches Ok(Some(Event::Market(MarketEvent::BookL1 { instrument: i, ts, bid: bd, ask: ak })))
                                && i == *instrument && bd == bid && ak == ask
                                && (e matches Some(m) ==> (millis_instant(m) matches Some(t) ==> ts == t)),
                            _ => r matches Err(Error::Decimal(_)),
                        },
                        _ => r matches Ok(None),
                    }
                } else {
                    r matches Ok(None)
                },
            },
        },
{
    proof {
        reveal_strlit("@trade");
        reveal_strlit("bookTicker");
    }
    let doc = match parse_json(text) {
        Ok(d) => d,
        Err(_) => {
            return Ok(None);
        },
    };
    let stream = match get_str(&doc, "stream") {
        Some(s) => s,
        None => {
            return Ok(None);
        },
    };
    let data = match doc.get("data") {
        Some(d) => d,
        None => {
            return Ok(None);
        },
    };
    if contains_text(stream, "@trade") {
        let e = match data.get("E") {
            Some(e) => e,
            None => {
                return Ok(None);
            },
        };
        let p = match get_str(data, "p") {
            Some(p) => p,
            None => {
                return Ok(None);
            },
        };
        let q = match get_str(data, "q") {
            Some(q) => q,
            None => {
                return Ok(None);
            },
        };
        let ms = match e.as_i64() {
            Some(m) => m,
            None => {
                return Ok(None);
            },
        };
        let ts = event_time_or_now(Some(ms));
        let price = match parse_decimal(p) {
            Ok(d) => d,
            Err(m) => {
                return Err(Error::Decimal(m));
            },
        };
        let qty = match parse_decimal(q) {
            Ok(d) => d,
            Err(m) => {
                return Err(Error::Decimal(m));
            },
        };
        Ok(
            Some(
                Event::Market(MarketEvent::Trade { instrument: instrument.duplicate(), ts, price, qty }),
            ),
        )
    } else if contains_text(stream, "bookTicker") {
        let e = match get_optional_i64(data, "E") {
            Some(e) => e,
            None => {
                return Ok(None);
            },
        };
        let b = match get_str(data, "b") {
            Some(b) => b,
            None => {
                return Ok(None);
            },
        };
        let a = match get_str(data, "a") {
            Some(a) => a,
            None => {
                return Ok(None);
            },
        };
        let ts = event_time_or_now(e);
        let bid = match parse_decimal(b) {
            Ok(d) => d,
            Err(m) => {
                return Err(Error::Decimal(m));
            },
        };
        let ask = match parse_decimal(a) {
            Ok(d) => d,
            Err(m) => {
                return Err(Error::Decimal(m));
            },
        };
        Ok(
            Some(
                Event::Market(MarketEvent::BookL1 { instrument: instrument.duplicate(), ts, bid, ask }),
            ),
        )
    } else {
        Ok(None)
    }
}

/// Each element of `rows` is an array of strings: their texts.
pub open spec fn string_matrix(rows: Seq<Json>) -> Option<Seq<Seq<Seq<char>>>>
    decreases rows.len(),
{
    if rows.len() == 0 {
        Some(Seq::empty())
    } else {
        match (string_matrix(rows.drop_last()), rows.last()) {
            (Some(prev), Json::Array(cells)) => match string_list(cells@) {
                Some(texts) => Some(prev.push(texts)),
                None => None,
            },
            _ => None,
        }
    }
}

/// Each element is a string: their texts.
pub open spec fn string_list(cells: Seq<Json>) -> Option<Seq<Seq<char>>>
    decreases cells.len(),
{
    if cells.len() == 0 {
        Some(Seq::empty())
    } else {
        match (string_list(cells.drop_last()), json_str(cells.last())) {
            (Some(prev), Some(t)) => Some(prev.push(t)),
            _ => None,
        }
    }
}

fn strings_of(cells: &Vec<Json>) -> (r: Option<Vec<String>>)
    ensures
        match string_list(cells@) {
            Some(texts) => r matches Some(v) && v@.map_values(|s: String| s@) == texts,
            None => r is None,
        },
{
    let mut out: Vec<String> = Vec::new();
    let mut i: usize = 0;
    while i < cells.len()
        invariant
            i <= cells@.len(),
            string_list(cells@.subrange(0, i as int)) matches Some(texts) && out@.map_values(
                |s: String| s@,
            ) == texts,
        decreases cells@.len() - i,
    {
        proof {
            assert(cells@.subrange(0, i + 1).drop_last() =~= cells@.subrange(0, i as int));
            assert(cells@.subrange(0, i + 1).last() == cells@[i as int]);
        }
        match cells[i].as_str() {
            Some(s) => {
                let ghost prev = out@;
                out.push(s.to_owned());
                proof {
                    assert(out@.map_values(|s: String| s@) =~= prev.map_values(|s: String| s@).push(
                        s@,
                    ));
                }
            },
            None => {
                proof {
                    lemma_string_list_none_after(cells@, (i + 1) as nat);
                }
                return None;
            },
        }
        i += 1;
    }
    proof {
        assert(cells@.subrange(0, cells@.len() as int) =~= cells@);
    }
    Some(out)
}

proof fn lemma_string_list_none_after(cells: Seq<Json>, i: nat)
    requires
        i <= cells.len(),
        string_list(cells.subrange(0, i as int)) is None,
    ensures
        string_list(cells) is None,
    decreases cells.len() - i,
{
    if i < cells.len() {
        assert(cells.subrange(0, i + 1 as int).drop_last() =~= cells.subrange(0, i as int));
        lemma_string_list_none_after(cells, i + 1);
    } else {
        assert(cells.subrange(0, i as int) =~= cells);
    }
}

proof fn lemma_string_matrix_none_after(rows: Seq<Json>, i: nat)
    requires
        i <= rows.len(),
        string_matrix(rows.subrange(0, i as int)) is None,
    ensures
        string_matrix(rows) is None,
    decreases rows.len() - i,
{
    if i < rows.len() {
        assert(rows.subrange(0, i + 1 as int).drop_last() =~= rows.subrange(0, i as int));
        lemma_string_matrix_none_after(rows, i + 1);
    } else {
        assert(rows.subrange(0, i as int) =~= rows);
    }
}

/// The texts of an array of arrays of strings.
pub fn string_rows(doc: &Json) -> (r: Option<Vec<Vec<String>>>)
    ensures
        match *doc {
            Json::Array(rows) => match string_matrix(rows@) {
                Some(m) => r matches Some(v) && v@.len() == m.len() && forall|k: int|
                    0 <= k < m.len() ==> (#[trigger] v@[k])@.map_values(|s: String| s@) == m[k],
                None => r is None,
            },
            _ => r is None,
        },
{
    let rows = doc.as_array()?;
    let mut out: Vec<Vec<String>> = Vec::new();
    let mut i: usize = 0;
    while i < rows.len()
        invariant
            i <= rows@.len(),
            *doc == Json::Array(*rows),
            string_matrix(rows@.subrange(0, i as int)) matches Some(m) && out@.len() == m.len()
                && forall|k: int|
                0 <= k < m.len() ==> (#[trigger] out@[k])@.map_values(|s: String| s@) == m[k],
        decreases rows@.len() - i,
    {
        proof {
            assert(rows@.subrange(0, i + 1).drop_last() =~= rows@.subrange(0, i as int));
            assert(rows@.subrange(0, i + 1).last() == rows@[i as int]);
        }
        let cells = match rows[i].as_array() {
            Some(c) => c,
            None => {
                proof {
                    lemma_string_matrix_none_after(rows@, (i + 1) as nat);
                }
                return None;
            },
        };
        match strings_of(cells) {
            Some(texts) => {
                out.push(texts);
            },
            None => {
                proof {
                    lemma_string_matrix_none_after(rows@, (i + 1) as nat);
                }
                return None;
            },
        }
        i += 1;
    }
    proof {
        assert(rows@.subrange(0, rows@.len() as int) =~= rows@);
    }
    Some(out)
}

/// (price, qty) levels of rows with at least two cells whose first two parse as decimals,
/// in order; other rows are skipped.
pub open spec fn levels_of(rows: Seq<Seq<Seq<char>>>) -> Seq<(Dec, Dec)>
    decreases rows.len(),
{
    if rows.len() == 0 {
        Seq::empty()
    } else {
        let prev = levels_of(rows.drop_last());
        let row = rows.last();
        if row.len() >= 2 {
            match (decimal_parse(row[0]), decimal_parse(row[1])) {
                (Some(px), Some(q)) => prev.push((px, q)),
                _ => prev,
            }
        } else {
            prev
        }
    }
}

/// Parse depth levels: rows with at least a price and a quantity that both parse.
pub fn parse_levels(rows: &Vec<Vec<String>>) -> (r: Vec<(Dec, Dec)>)
    ensures
        r@ == levels_of(rows@.map_values(|row: Vec<String>| row@.map_values(|s: String| s@))),
{
    let ghost texts = rows@.map_values(|row: Vec<String>| row@.map_values(|s: String| s@));
    let mut out: Vec<(Dec, Dec)> = Vec::new();
    let mut i: usize = 0;
    while i < rows.len()
        invariant
            i <= rows@.len(),
            texts == rows@.map_values(|row: Vec<String>| row@.map_values(|s: String| s@)),
            out@ == levels_of(texts.subrange(0, i as int)),
        decreases rows@.len() - i,
    {
        proof {
            assert(texts.subrange(0, i + 1).drop_last() =~= texts.subrange(0, i as int));
            assert(texts.subrange(0, i + 1).last() == texts[i as int]);
        }
        let r = &rows[i];
        if r.len() >= 2 {
            match (parse_decimal(r[0].as_str()), parse_decimal(r[1].as_str())) {
                (Ok(px), Ok(q)) => {
                    out.push((px, q));
                },
                _ => {},
            }
        }
        i += 1;
    }
    proof {
        assert(texts.subrange(0, rows@.len() as int) =~= texts);
    }
    out
}

/// The event time and the bid and ask rows of a depth message.
pub open spec fn depth_fields(text: Seq<char>) -> Option<
    (Option<i64>, Seq<Seq<Seq<char>>>, Seq<Seq<Seq<char>>>),
> {
    match json_parse(text) {
        None => None,
        Some(doc) => match stream_message(doc) {
            None => None,
            Some((stream, data)) => if !occurs_in(stream, "depth"@) {
                None
            } else {
                match (optional_i64(data, "E"@), json_get(data, "bids"@), json_get(data, "asks"@)) {
                    (Some(e), Some(Json::Array(b)), Some(Json::Array(a))) => match (
                        string_matrix(b@),
                        string_matrix(a@),
                    ) {
                        (Some(bm), Some(am)) => Some((e, bm, am)),
                        _ => None,
                    },
                    _ => None,
                }
            },
        },
    }
}

/// Decode one depth-stream text message into an L2 snapshot; `None` for messages that are not
/// JSON, lack the expected fields, or belong to other streams.
pub fn decode_depth_message(text: &str, instrument: &InstrumentId) -> (r: Option<Event>)
    ensures
        r is Some <==> depth_fields(text@) is Some,
        r is Some ==> (r matches Some(Event::Market(MarketEvent::BookL2Snapshot(s))) && {
            let (e, bm, am) = depth_fields(text@)->0;
            &&& s.instrument == *instrument
            &&& s.bids@ == levels_of(bm)
            &&& s.asks@ == levels_of(am)
            &&& e matches Some(m) ==> (millis_instant(m) matches Some(t) ==> s.ts == t)
        }),
{
    proof {
        reveal_strlit("depth");
    }
    let doc = match parse_json(text) {
        Ok(d) => d,
        Err(_) => {
            return None;
        },
    };
    let stream = get_str(&doc, "stream")?;
    let data = doc.get("data")?;
    if !contains_text(stream, "depth") {
        return None;
    }
    let e = get_optional_i64(data, "E")?;
    let bids = string_rows(data.get("bids")?)?;
    let asks = string_rows(data.get("asks")?)?;
    proof {
        let (_, bm, am) = depth_fields(text@)->0;
        assert(bids@.map_values(|row: Vec<String>| row@.map_values(|s: String| s@)) =~= bm);
        assert(asks@.map_values(|row: Vec<String>| row@.map_values(|s: String| s@)) =~= am);
    }
    let ts = event_time_or_now(e);
    Some(
        Event::Market(
            MarketEvent::BookL2Snapshot(
                BookL2Snapshot {
                    instrument: instrument.duplicate(),
                    ts,
                    bids: parse_levels(&bids),
                    asks: parse_levels(&asks),
                },
            ),
        ),
    )
}

} // verus!
