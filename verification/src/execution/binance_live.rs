//! Binance Spot signed REST (`/api/v3`): requests to sign and replies to read.

use crate::connectors::binance_user_data::{
    binance_instrument, inst, or_zero, remaining_after, venue_order_type, venue_status,
};
use crate::decimal::{
    checked_add, checked_div, checked_sub, decimal_parse, decimal_quotient, decimal_sum,
    decimal_text, decimal_to_string, lt, max_value, parse_decimal, value_lt, Dec,
};
use crate::error::Error;
use crate::events::{AccountEvent, OrderIntent};
use crate::json::{
    field_str, get_record_field, get_str, json_get, json_i64, json_parse, json_u64, parse_json,
    record_field, Json,
};
use crate::keyed::Duplicate;
use crate::state::{overflow_message, zero, GlobalState, InstrumentKey};
use crate::text::{
    decimal_digits, hex_encode, hex_text, hmac_sha256, hmac_sha256_digest, i64_text,
    integer_text, lemma_text_lt_irreflexive, lemma_text_lt_total, lemma_text_lt_transitive,
    same_text, text_less, text_lt, trim_end, trim_end_char, u64_text,
};
use crate::types::{Asset, InstrumentId, OpenOrder, OrderId, OrderStatus, OrderType, Side};
use vstd::prelude::*;
use vstd::utf8::encode_utf8;

verus! {

/// API credentials (load from environment in binaries; never log secrets).
#[derive(Clone, Debug)]
pub struct BinanceCredentials {
    /// `X-MBX-APIKEY` header value.
    pub api_key: String,
    /// HMAC SHA256 secret.
    pub secret: String,
}

/// Default `recvWindow` in milliseconds.
pub const DEFAULT_RECV_WINDOW: u64 = 5000u64;

/// Instrument of a venue symbol (exchange `binance`, symbol upper-cased).
pub fn parse_symbol_to_instrument(sym: &str) -> (r: InstrumentId)
    ensures
        r@ == binance_instrument(sym@),
{
    inst(sym)
}

/// The error a Binance reply reports: a nonzero integer `code`, with `msg` (or
/// `binance error`).
pub open spec fn venue_error(text: Seq<char>) -> Option<(i64, Seq<char>)> {
    match json_parse(text) {
        Some(doc) => match json_get(doc, "code"@) {
            Some(c) => match json_i64(c) {
                Some(code) => if code != 0 {
                    Some(
                        (
                            code,
                            match field_str(doc, "msg"@) {
                                Some(m) => m,
                                None => "binance error"@,
                            },
                        ),
                    )
                } else {
                    None
                },
                None => None,
            },
            None => None,
        },
        None => None,
    }
}

/// Reject a reply that reports an error: `binance {code}: {msg}`.
pub fn maybe_binance_err(text: &str) -> (r: Result<(), Error>)
    ensures
        match venue_error(text@) {
            None => r is Ok,
            Some((code, msg)) => r matches Err(Error::ExecutionRejected(m)) && m@ == "binance "@
                + integer_text(code as int) + ": "@ + msg,
        },
{
    let doc = match parse_json(text) {
        Ok(d) => d,
        Err(_) => {
            return Ok(());
        },
    };
    let code = match doc.get("code") {
        Some(c) => match c.as_i64() {
            Some(code) => code,
            None => {
                return Ok(());
            },
        },
        None => {
            return Ok(());
        },
    };
    if code == 0 {
        return Ok(());
    }
    let mut m = "binance ".to_owned();
    m.append(i64_text(code).as_str());
    m.append(": ");
    match get_str(&doc, "msg") {
        Some(s) => m.append(s),
        None => m.append("binance error"),
    }
    Err(Error::ExecutionRejected(m))
}

/// Why an order reply cannot be read.
#[derive(Clone, Copy, Debug, PartialEq, Eq, Structural)]
pub enum ReplyFault {
    /// No integer `orderId`.
    MissingOrderId,
    /// A quantity or price is not a decimal.
    BadDecimal,
    /// A decimal result leaves the representable range.
    Overflow,
}

/// A string member, or a default.
pub open spec fn text_or(doc: Json, key: Seq<char>, default: Seq<char>) -> Seq<char> {
    match field_str(doc, key) {
        Some(s) => s,
        None => default,
    }
}

/// Side of an order reply: `SELL` sells, anything else buys.
pub open spec fn reply_side(doc: Json) -> Side {
    match field_str(doc, "side"@) {
        Some(s) => if s == "SELL"@ {
            Side::Sell
        } else {
            Side::Buy
        },
        None => Side::Buy,
    }
}

/// `start` plus the `qty` of each fill (zero when not a decimal); `None` on overflow.
pub open spec fn fills_total(start: Dec, fills: Seq<Json>) -> Option<Dec>
    decreases fills.len(),
{
    if fills.len() == 0 {
        Some(start)
    } else {
        match fills_total(start, fills.drop_last()) {
            None => None,
            Some(t) => decimal_sum(
                t,
                or_zero(decimal_parse(text_or(fills.last(), "qty"@, "0"@))),
            ),
        }
    }
}

/// The executed quantity: `executedQty`, or when that is zero the sum of the fills.
pub open spec fn executed_quantity(doc: Json, exec: Dec) -> Option<Dec> {
    if exec.mant() == 0 {
        match json_get(doc, "fills"@) {
            Some(Json::Array(fs)) => fills_total(exec, fs@),
            _ => Some(exec),
        }
    } else {
        Some(exec)
    }
}

/// What an order reply says: order id, symbol, side, type, status, original, executed and
/// remaining quantity, limit price, and the fill price when it reports a fill.
pub open spec fn order_reply(doc: Json, hint_symbol: Seq<char>) -> Result<
    (u64, Seq<char>, Side, OrderType, OrderStatus, Dec, Dec, Dec, Option<Dec>, Option<Dec>),
    ReplyFault,
> {
    match json_get(doc, "orderId"@) {
        None => Err(ReplyFault::MissingOrderId),
        Some(o) => match json_u64(o) {
            None => Err(ReplyFault::MissingOrderId),
            Some(oid) => {
                let sym = text_or(doc, "symbol"@, hint_symbol);
                let side = reply_side(doc);
                let ot = venue_order_type(text_or(doc, "type"@, ""@));
                let status = venue_status(text_or(doc, "status"@, "NEW"@));
                match decimal_parse(text_or(doc, "origQty"@, "0"@)) {
                    None => Err(ReplyFault::BadDecimal),
                    Some(orig) => match decimal_parse(text_or(doc, "executedQty"@, "0"@)) {
                        None => Err(ReplyFault::BadDecimal),
                        Some(exec0) => match executed_quantity(doc, exec0) {
                            None => Err(ReplyFault::Overflow),
                            Some(exec) => match remaining_after(orig, exec) {
                                None => Err(ReplyFault::Overflow),
                                Some(rem) => {
                                    let price_text = field_str(doc, "price"@);
                                    if price_text matches Some(p) && p.len() > 0 && decimal_parse(
                                        p,
                                    ) is None {
                                        Err(ReplyFault::BadDecimal)
                                    } else {
                                        let price = match price_text {
                                            Some(p) => if p.len() > 0 {
                                                decimal_parse(p)
                                            } else {
                                                None
                                            },
                                            None => None,
                                        };
                                        if status == OrderStatus::Filled && value_lt(zero(), exec) {
                                            let avg = match field_str(doc, "cummulativeQuoteQty"@) {
                                                Some(c) => decimal_quotient(
                                                    or_zero(decimal_parse(c)),
                                                    exec,
                                                ),
                                                None => Some(
                                                    match price {
                                                        Some(p) => p,
                                                        None => zero(),
                                                    },
                                                ),
                                            };
                                            match avg {
                                                None => Err(ReplyFault::Overflow),
                                                Some(a) => Ok(
                                                    (
                                                        oid,
                                                        sym,
                                                        side,
                                                        ot,
                                                        status,
                                                        orig,
                                                        exec,
                                                        rem,
                                                        price,
                                                        Some(a),
                                                    ),
                                                ),
                                            }
                                        } else {
                                            Ok((oid, sym, side, ot, status, orig, exec, rem, price, None))
                                        }
                                    }
                                },
                            },
                        },
                    },
                }
            },
        },
    }
}

/// The events of an order reply agree with what it says.
pub open spec fn reply_events(
    evs: Seq<AccountEvent>,
    f: (u64, Seq<char>, Side, OrderType, OrderStatus, Dec, Dec, Dec, Option<Dec>, Option<Dec>),
    quote_fee: Asset,
) -> bool {
    let (oid, sym, side, ot, status, orig, exec, rem, price, avg) = f;
    &&& evs.len() == if avg is Some {
        2int
    } else {
        1int
    }
    &&& evs[0] matches AccountEvent::OrderUpdate {
        id,
        instrument,
        side: s,
        order_type,
        price: p,
        remaining_qty,
        original_qty,
        status: st,
    } && id.0 == oid && instrument@ == binance_instrument(sym) && s == side && order_type == ot
        && p == price && remaining_qty == rem && original_qty == orig && st == status
    &&& avg matches Some(a) ==> (evs[1] matches AccountEvent::Fill {
        order_id,
        instrument,
        side: s,
        price: p,
        qty,
        fee,
        fee_asset,
    } && order_id.0 == oid && instrument@ == binance_instrument(sym) && s == side && p == a
        && qty == exec && fee == zero() && fee_asset == quote_fee)
}

/// The error of a reply fault.
pub open spec fn fault_error(f: ReplyFault, r: Error) -> bool {
    match f {
        ReplyFault::MissingOrderId => r matches Error::Invalid(m) && m@ == "missing orderId"@,
        ReplyFault::BadDecimal => r is Decimal,
        ReplyFault::Overflow => r matches Error::Invalid(m) && m@ == "decimal overflow"@,
    }
}

fn fills_sum(start: Dec, fills: &Vec<Json>) -> (r: Option<Dec>)
    ensures
        r == fills_total(start, fills@),
{
    let mut total = start;
    let mut i: usize = 0;
    while i < fills.len()
        invariant
            i <= fills@.len(),
            fills_total(start, fills@.subrange(0, i as int)) == Some(total),
        decreases fills@.len() - i,
    {
        proof {
            assert(fills@.subrange(0, i + 1).drop_last() =~= fills@.subrange(0, i as int));
            assert(fills@.subrange(0, i + 1).last() == fills@[i as int]);
        }
        let q = match get_str(&fills[i], "qty") {
            Some(s) => match parse_decimal(s) {
                Ok(d) => d,
                Err(_) => Dec::zero(),
            },
            None => match parse_decimal("0") {
                Ok(d) => d,
                Err(_) => Dec::zero(),
            },
        };
        match checked_add(total, q) {
            Some(t) => {
                total = t;
            },
            None => {
                proof {
                    lemma_fills_none_after(start, fills@, (i + 1) as nat);
                }
                return None;
            },
        }
        i += 1;
    }
    proof {
        assert(fills@.subrange(0, fills@.len() as int) =~= fills@);
    }
    Some(total)
}

proof fn lemma_fills_none_after(start: Dec, fills: Seq<Json>, i: nat)
    requires
        i <= fills.len(),
        fills_total(start, fills.subrange(0, i as int)) is None,
    ensures
        fills_total(start, fills) is None,
    decreases fills.len() - i,
{
    if i < fills.len() {
        assert(fills.subrange(0, i + 1 as int).drop_last() =~= fills.subrange(0, i as int));
        lemma_fills_none_after(start, fills, i + 1);
    } else {
        assert(fills.subrange(0, i as int) =~= fills);
    }
}

/// A string member, or a default.
fn str_or<'a>(doc: &'a Json, key: &str, default: &'a str) -> (r: &'a str)
    ensures
        r@ == text_or(*doc, key@, default@),
{
    match get_str(doc, key) {
        Some(s) => s,
        None => default,
    }
}

/// Read one order object of a reply: an order update, and a fill (at the average price,
/// without fee) when the order is filled with a positive executed quantity.
pub fn single_order_value(v: &Json, instrument_hint: &InstrumentId, quote_fee: Asset) -> (r: Result<
    Vec<AccountEvent>,
    Error,
>)
    ensures
        match order_reply(*v, instrument_hint.symbol@) {
            Ok(f) => r matches Ok(evs) && reply_events(evs@, f, quote_fee),
            Err(fault) => r matches Err(e) && fault_error(fault, e),
        },
{
    proof {
        reveal_strlit("SELL");
        reveal_strlit("LIMIT");
        reveal_strlit("FILLED");
        reveal_strlit("CANCELED");
        reveal_strlit("EXPIRED");
        reveal_strlit("REJECTED");
        reveal_strlit("0");
        reveal_strlit("NEW");
        reveal_strlit("");
    }
    let order_id = match v.get("orderId") {
        Some(o) => match o.as_u64() {
            Some(id) => id,
            None => {
                return Err(Error::Invalid("missing orderId".to_owned()));
            },
        },
        None => {
            return Err(Error::Invalid("missing orderId".to_owned()));
        },
    };
    let symbol = str_or(v, "symbol", instrument_hint.symbol.0.as_str());
    let instrument_id = parse_symbol_to_instrument(symbol);
    let side = match get_str(v, "side") {
        Some(s) => if same_text(s, "SELL") {
            Side::Sell
        } else {
            Side::Buy
        },
        None => Side::Buy,
    };
    let type_text = str_or(v, "type", "");
    let order_type = if same_text(type_text, "LIMIT") {
        OrderType::Limit
    } else {
        OrderType::Market
    };
    let status_text = str_or(v, "status", "NEW");
    let status = if same_text(status_text, "FILLED") {
        OrderStatus::Filled
    } else if same_text(status_text, "CANCELED") || same_text(status_text, "EXPIRED") {
        OrderStatus::Canceled
    } else if same_text(status_text, "REJECTED") {
        OrderStatus::Rejected
    } else {
        OrderStatus::Open
    };
    let orig_qty = match parse_decimal(str_or(v, "origQty", "0")) {
        Ok(d) => d,
        Err(m) => {
            return Err(Error::Decimal(m));
        },
    };
    let mut exec_qty = match parse_decimal(str_or(v, "executedQty", "0")) {
        Ok(d) => d,
        Err(m) => {
            return Err(Error::Decimal(m));
        },
    };
    if exec_qty.is_zero() {
        match v.get("fills") {
            Some(f) => match f.as_array() {
                Some(fs) => match fills_sum(exec_qty, fs) {
                    Some(t) => {
                        exec_qty = t;
                    },
                    None => {
                        return Err(Error::Invalid(overflow_message()));
                    },
                },
                None => {},
            },
            None => {},
        }
    }
    let remaining_qty = match checked_sub(orig_qty, exec_qty) {
        Some(d) => max_value(d, Dec::zero()),
        None => {
            return Err(Error::Invalid(overflow_message()));
        },
    };
    let price = match get_str(v, "price") {
        Some(p) => if p.unicode_len() > 0 {
            match parse_decimal(p) {
                Ok(d) => Some(d),
                Err(m) => {
                    return Err(Error::Decimal(m));
                },
            }
        } else {
            None
        },
        None => None,
    };
    let mut out: Vec<AccountEvent> = Vec::new();
    out.push(
        AccountEvent::OrderUpdate {
            id: OrderId::from_venue_u64(order_id),
            instrument: instrument_id.duplicate(),
            side,
            order_type,
            price,
            remaining_qty,
            original_qty: orig_qty,
            status,
        },
    );
    if status == OrderStatus::Filled && lt(Dec::zero(), exec_qty) {
        let avg_px = match get_str(v, "cummulativeQuoteQty") {
            Some(cum) => {
                let cum_q = match parse_decimal(cum) {
                    Ok(d) => d,
                    Err(_) => Dec::zero(),
                };
                match checked_div(cum_q, exec_qty) {
                    Some(a) => a,
                    None => {
                        return Err(Error::Invalid(overflow_message()));
                    },
                }
            },
            None => match price {
                Some(p) => p,
                None => Dec::zero(),
            },
        };
        out.push(
            AccountEvent::Fill {
                order_id: OrderId::from_venue_u64(order_id),
                instrument: instrument_id,
                side,
                price: avg_px,
                qty: exec_qty,
                fee: Dec::zero(),
                fee_asset: quote_fee,
            },
        );
    }
    Ok(out)
}

/// The fault of the first reply of `items` that cannot be read, if any.
pub open spec fn first_fault(items: Seq<Json>, hint_symbol: Seq<char>) -> Option<ReplyFault>
    decreases items.len(),
{
    if items.len() == 0 {
        None
    } else {
        match order_reply(items[0], hint_symbol) {
            Err(f) => Some(f),
            Ok(_) => first_fault(items.drop_first(), hint_symbol),
        }
    }
}

/// `evs` is the events of each reply of `items`, in order, one after another.
pub open spec fn replies_events(
    evs: Seq<AccountEvent>,
    items: Seq<Json>,
    hint_symbol: Seq<char>,
    quote_fee: Asset,
) -> bool {
    exists|parts: Seq<Seq<AccountEvent>>|
        {
            &&& parts.len() == items.len()
            &&& evs == parts.flatten()
            &&& forall|k: int|
                0 <= k < items.len() ==> (#[trigger] order_reply(items[k], hint_symbol) matches Ok(f)
                    && reply_events(parts[k], f, quote_fee))
        }
}

proof fn lemma_first_fault_skip(items: Seq<Json>, hint_symbol: Seq<char>, i: int)
    requires
        0 <= i < items.len(),
        order_reply(items[i], hint_symbol) is Ok,
    ensures
        first_fault(items.skip(i), hint_symbol) == first_fault(items.skip(i + 1), hint_symbol),
{
    assert(items.skip(i).drop_first() =~= items.skip(i + 1));
    assert(items.skip(i)[0] == items[i]);
}

/// Read an order reply: one order object, or an array of them (their events in order; the
/// first reply that cannot be read fails the whole).
pub fn parse_order_json(text: &str, instrument_hint: &InstrumentId, quote_fee: Asset) -> (r: Result<
    Vec<AccountEvent>,
    Error,
>)
    ensures
        match json_parse(text@) {
            None => r matches Err(Error::Json(_)),
            Some(Json::Array(items)) => match first_fault(items@, instrument_hint.symbol@) {
                None => r matches Ok(evs) && replies_events(
                    evs@,
                    items@,
                    instrument_hint.symbol@,
                    quote_fee,
                ),
                Some(fault) => r matches Err(e) && fault_error(fault, e),
            },
            Some(d) => match order_reply(d, instrument_hint.symbol@) {
                Ok(f) => r matches Ok(evs) && reply_events(evs@, f, quote_fee),
                Err(fault) => r matches Err(e) && fault_error(fault, e),
            },
        },
{
    let v = match parse_json(text) {
        Ok(v) => v,
        Err(m) => {
            return Err(Error::Json(m));
        },
    };
    match v.as_array() {
        Some(items) => {
            let ghost hint = instrument_hint.symbol@;
            let mut out: Vec<AccountEvent> = Vec::new();
            let ghost mut parts: Seq<Seq<AccountEvent>> = Seq::empty();
            let mut i: usize = 0;
            proof {
                assert(items@.skip(0) =~= items@);
                assert(parts.flatten() =~= Seq::<AccountEvent>::empty());
            }
            while i < items.len()
                invariant
                    i <= items@.len(),
                    hint == instrument_hint.symbol@,
                    json_parse(text@) == Some(Json::Array(*items)),
                    first_fault(items@, hint) == first_fault(items@.skip(i as int), hint),
                    parts.len() == i,
                    out@ == parts.flatten(),
                    forall|k: int|
                        0 <= k < i ==> (#[trigger] order_reply(items@[k], hint) matches Ok(f)
                            && reply_events(parts[k], f, quote_fee)),
                decreases items@.len() - i,
            {
                let mut evs = match single_order_value(&items[i], instrument_hint, quote_fee.duplicate()) {
                    Ok(e) => e,
                    Err(e) => {
                        proof {
                            assert(items@.skip(i as int)[0] == items@[i as int]);
                        }
                        return Err(e);
                    },
                };
                proof {
                    lemma_first_fault_skip(items@, hint, i as int);
                    parts.lemma_flatten_push(evs@);
                    parts = parts.push(evs@);
                }
                out.append(&mut evs);
                i += 1;
            }
            proof {
                assert(items@.skip(i as int) =~= Seq::<Json>::empty());
                assert(replies_events(out@, items@, hint, quote_fee));
            }
            Ok(out)
        },
        None => single_order_value(&v, instrument_hint, quote_fee),
    }
}

/// `key=value` pairs joined by `&`.
pub open spec fn join_params(params: Seq<(Seq<char>, Seq<char>)>) -> Seq<char>
    decreases params.len(),
{
    if params.len() == 0 {
        Seq::empty()
    } else if params.len() == 1 {
        params[0].0 + "="@ + params[0].1
    } else {
        join_params(params.drop_last()) + "&"@ + params.last().0 + "="@ + params.last().1
    }
}

/// The texts of parameter pairs.
pub open spec fn param_texts(params: Seq<(String, String)>) -> Seq<(Seq<char>, Seq<char>)> {
    params.map_values(|p: (String, String)| (p.0@, p.1@))
}

/// Keys never decrease along the list.
pub open spec fn sorted_by_key(params: Seq<(Seq<char>, Seq<char>)>) -> bool {
    forall|i: int, j: int| 0 <= i < j < params.len() ==> !text_lt(params[j].0, params[i].0)
}

/// A pair has the key `k`.
pub open spec fn key_is(k: Seq<char>) -> spec_fn((Seq<char>, Seq<char>)) -> bool {
    |p: (Seq<char>, Seq<char>)| p.0 == k
}

/// The pairs of `params` with the key `k`, in order.
pub open spec fn with_key(params: Seq<(Seq<char>, Seq<char>)>, k: Seq<char>) -> Seq<
    (Seq<char>, Seq<char>),
> {
    params.filter(key_is(k))
}

/// `sorted` holds the pairs of `params`, sorted by key, and stably: the pairs of each key
/// keep their order.
pub open spec fn sorts_params(
    sorted: Seq<(Seq<char>, Seq<char>)>,
    params: Seq<(Seq<char>, Seq<char>)>,
) -> bool {
    &&& sorted_by_key(sorted)
    &&& sorted.to_multiset() == params.to_multiset()
    &&& forall|k: Seq<char>| #[trigger] with_key(sorted, k) == with_key(params, k)
}

/// Inserting `x` into sorted pairs before the first pair of a greater key adds it last among
/// the pairs of its key.
proof fn lemma_with_key_insert(
    po: Seq<(Seq<char>, Seq<char>)>,
    j: int,
    x: (Seq<char>, Seq<char>),
    k: Seq<char>,
)
    requires
        0 <= j <= po.len(),
        sorted_by_key(po),
        j < po.len() ==> text_lt(x.0, po[j].0),
    ensures
        with_key(po.insert(j, x), k) == if x.0 == k {
            with_key(po, k).push(x)
        } else {
            with_key(po, k)
        },
{
    let pred = key_is(k);
    let a = po.take(j);
    let b = po.skip(j);
    assert(po.insert(j, x) =~= a.push(x) + b);
    assert(po =~= a + b);
    Seq::filter_distributes_over_add(a.push(x), b, pred);
    Seq::filter_distributes_over_add(a, b, pred);
    a.lemma_filter_push(x, pred);
    if x.0 == k {
        assert forall|m: int| 0 <= m < b.len() implies !pred(b[m]) by {
            if b[m].0 == k {
                if m == 0 {
                    lemma_text_lt_irreflexive(x.0);
                } else {
                    assert(!text_lt(po[j + m].0, po[j].0));
                }
            }
        }
        b.lemma_all_neg_filter_empty(pred);
        assert(b.filter(pred) =~= Seq::<(Seq<char>, Seq<char>)>::empty());
        assert(with_key(po.insert(j, x), k) =~= with_key(po, k).push(x));
    } else {
        assert(with_key(po.insert(j, x), k) =~= with_key(po, k));
    }
}

/// Sort parameters by key (insertion sort; an item goes after every item whose key is
/// not greater).
pub fn sort_params(params: Vec<(String, String)>) -> (r: Vec<(String, String)>)
    ensures
        sorts_params(param_texts(r@), param_texts(params@)),
{
    broadcast use vstd::multiset::group_multiset_axioms, vstd::seq_lib::group_to_multiset_ensures;

    let mut out: Vec<(String, String)> = Vec::new();
    let mut rest = params;
    let ghost total = param_texts(rest@).to_multiset();
    let ghost orig = param_texts(rest@);
    let ghost mut c: int = 0;
    proof {
        assert(param_texts(out@) =~= Seq::<(Seq<char>, Seq<char>)>::empty());
        assert(param_texts(out@).to_multiset() =~= vstd::multiset::Multiset::empty());
    }
    while rest.len() > 0
        invariant
            sorted_by_key(param_texts(out@)),
            param_texts(out@).to_multiset().add(param_texts(rest@).to_multiset()) == total,
            0 <= c <= orig.len(),
            param_texts(rest@) == orig.skip(c),
            orig == param_texts(params@),
            forall|k: Seq<char>| #[trigger] with_key(param_texts(out@), k) == with_key(orig.take(c), k),
        decreases rest@.len(),
    {
        let ghost before = rest@;
        let x = rest.remove(0);
        let ghost xt = (x.0@, x.1@);
        proof {
            assert(param_texts(rest@) =~= param_texts(before).remove(0));
            vstd::seq_lib::to_multiset_remove(param_texts(before), 0);
            assert(param_texts(before)[0] == xt);
            vstd::seq_lib::to_multiset_contains(param_texts(before), xt);
        }
        let mut j: usize = 0;
        while j < out.len() && !text_less(x.0.as_str(), out[j].0.as_str())
            invariant
                j <= out@.len(),
                forall|k: int| 0 <= k < j ==> !text_lt(x.0@, #[trigger] out@[k].0@),
            decreases out@.len() - j,
        {
            j += 1;
        }
        let ghost old_out = out@;
        out.insert(j, x);
        proof {
            assert(param_texts(out@) =~= param_texts(old_out).insert(j as int, xt));
            vstd::seq_lib::to_multiset_insert(param_texts(old_out), j as int, xt);
            assert(param_texts(out@).to_multiset().add(param_texts(rest@).to_multiset())
                =~= total);
            let po = param_texts(old_out);
            let pn = param_texts(out@);
            assert forall|a: int, b: int| 0 <= a < b < pn.len() implies !text_lt(
                pn[b].0,
                pn[a].0,
            ) by {
                if b == j {
                    assert(!text_lt(x.0@, old_out[a].0@));
                } else if a == j {
                    let y = po[b - 1].0;
                    assert(text_lt(x.0@, old_out[j as int].0@));
                    if text_lt(y, x.0@) {
                        lemma_text_lt_transitive(y, x.0@, po[j as int].0);
                        if b - 1 == j {
                            lemma_text_lt_irreflexive(y);
                        } else {
                            assert(!text_lt(y, po[j as int].0));
                        }
                    }
                } else if a < j && b > j {
                    assert(!text_lt(po[b - 1].0, po[a].0));
                } else if a > j {
                    assert(!text_lt(po[b - 1].0, po[a - 1].0));
                } else {
                    assert(!text_lt(po[b].0, po[a].0));
                }
            }
            assert(orig.take(c + 1) =~= orig.take(c).push(xt));
            assert(orig[c] == xt);
            assert(param_texts(rest@) =~= orig.skip(c + 1));
            assert forall|k: Seq<char>| #[trigger] with_key(pn, k) == with_key(orig.take(c + 1), k) by {
                if j < po.len() {
                    assert(text_lt(x.0@, po[j as int].0));
                }
                lemma_with_key_insert(po, j as int, xt, k);
                orig.take(c).lemma_filter_push(xt, key_is(k));
            }
            c = c + 1;
        }
    }
    proof {
        assert(param_texts(rest@) =~= Seq::<(Seq<char>, Seq<char>)>::empty());
        assert(param_texts(rest@).to_multiset() =~= vstd::multiset::Multiset::empty());
        assert(param_texts(out@).to_multiset() =~= total);
        assert(orig.take(c) =~= orig);
    }
    out
}

/// The parameters with `timestamp` and `recvWindow` appended.
pub open spec fn with_auth(
    params: Seq<(Seq<char>, Seq<char>)>,
    timestamp_ms: i64,
    recv_window: u64,
) -> Seq<(Seq<char>, Seq<char>)> {
    params.push(("timestamp"@, integer_text(timestamp_ms as int))).push(
        ("recvWindow"@, decimal_digits(recv_window as nat)),
    )
}

/// Join parameters as `k1=v1&k2=v2...`.
pub fn join_query(params: &Vec<(String, String)>) -> (r: String)
    ensures
        r@ == join_params(param_texts(params@)),
{
    let mut query = String::new();
    let mut i: usize = 0;
    while i < params.len()
        invariant
            i <= params@.len(),
            query@ == join_params(param_texts(params@.subrange(0, i as int))),
        decreases params@.len() - i,
    {
        proof {
            assert(param_texts(params@.subrange(0, i + 1)).drop_last() =~= param_texts(
                params@.subrange(0, i as int),
            ));
            assert(param_texts(params@.subrange(0, i + 1)).last() == (
                params@[i as int].0@,
                params@[i as int].1@,
            ));
        }
        if i > 0 {
            query.append("&");
        }
        query.append(params[i].0.as_str());
        query.append("=");
        query.append(params[i].1.as_str());
        proof {
            if i == 0 {
                assert(query@ =~= join_params(param_texts(params@.subrange(0, 1))));
            } else {
                assert(query@ =~= join_params(param_texts(params@.subrange(0, i + 1))));
            }
        }
        i += 1;
    }
    proof {
        assert(params@.subrange(0, params@.len() as int) =~= params@);
    }
    query
}

/// The query that is signed: the parameters with `timestamp` (ms) and `recvWindow` added,
/// sorted by key, joined as `k=v&...`.
pub fn canonical_query(params: Vec<(String, String)>, timestamp_ms: i64, recv_window: u64) -> (r:
    String)
    ensures
        exists|sorted: Seq<(Seq<char>, Seq<char>)>|
            sorts_params(sorted, with_auth(param_texts(params@), timestamp_ms, recv_window))
                && r@ == join_params(sorted),
{
    let mut all = params;
    let ghost given = all@;
    all.push(("timestamp".to_owned(), i64_text(timestamp_ms)));
    all.push(("recvWindow".to_owned(), u64_text(recv_window)));
    proof {
        assert(param_texts(all@) =~= with_auth(param_texts(given), timestamp_ms, recv_window));
    }
    let sorted = sort_params(all);
    let q = join_query(&sorted);
    assert(sorts_params(
        param_texts(sorted@),
        with_auth(param_texts(given), timestamp_ms, recv_window),
    ));
    q
}

/// Lowercase hex of HMAC-SHA256 over the UTF-8 bytes of `query`, keyed by those of `secret`.
pub open spec fn query_signature(secret: Seq<char>, query: Seq<char>) -> Seq<char> {
    hex_text(hmac_sha256_digest(encode_utf8(secret), encode_utf8(query)))
}

/// Signature of a query: lowercase hex HMAC-SHA256 under the API secret.
pub fn sign(secret: &str, query: &str) -> (r: String)
    ensures
        r@ == query_signature(secret@, query@),
{
    let tag = hmac_sha256(secret.as_bytes(), query.as_bytes());
    hex_encode(tag.as_slice())
}

/// The signed payload `query&signature=sig` (the query string of a GET or DELETE, the body
/// of a POST).
pub fn signed_payload(query: &str, secret: &str) -> (r: String)
    ensures
        r@ == query@ + "&signature="@ + query_signature(secret@, query@),
{
    let sig = sign(secret, query);
    let mut out = query.to_owned();
    out.append("&signature=");
    out.append(sig.as_str());
    out
}

/// `base` followed by `path` (the URL of a POST).
pub fn endpoint_url(base_url: &str, path: &str) -> (r: String)
    ensures
        r@ == base_url@ + path@,
{
    let mut out = base_url.to_owned();
    out.append(path);
    out
}

/// `base` `path` `?` payload (the URL of a signed GET or DELETE).
pub fn signed_url(base_url: &str, path: &str, payload: &str) -> (r: String)
    ensures
        r@ == base_url@ + path@ + "?"@ + payload@,
{
    let mut out = base_url.to_owned();
    out.append(path);
    out.append("?");
    out.append(payload);
    out
}

/// The REST root without trailing slashes.
pub fn normalize_base_url(base_url: &str) -> (r: String)
    ensures
        r@ == trim_end_char(base_url@, '/'),
{
    trim_end(base_url, '/')
}

/// Venue text of a side.
pub open spec fn side_text(side: Side) -> Seq<char> {
    match side {
        Side::Buy => "BUY"@,
        Side::Sell => "SELL"@,
    }
}

fn side_param(side: Side) -> (r: String)
    ensures
        r@ == side_text(side),
{
    match side {
        Side::Buy => "BUY".to_owned(),
        Side::Sell => "SELL".to_owned(),
    }
}

/// The `newClientOrderId` parameter, when the intent carries a client id.
pub open spec fn client_id_params(intent: OrderIntent) -> Seq<(Seq<char>, Seq<char>)> {
    match intent.client_order_id {
        Some(c) => seq![("newClientOrderId"@, c.0@)],
        None => Seq::empty(),
    }
}

/// Parameters of a limit order (good till cancelled).
pub open spec fn limit_params(intent: OrderIntent, price: Dec) -> Seq<(Seq<char>, Seq<char>)> {
    seq![
        ("symbol"@, intent.instrument.symbol@),
        ("side"@, side_text(intent.side)),
        ("type"@, "LIMIT"@),
        ("timeInForce"@, "GTC"@),
        ("quantity"@, decimal_text(intent.qty)),
        ("price"@, decimal_text(price)),
    ] + client_id_params(intent)
}

/// Parameters of a market order.
pub open spec fn market_params(intent: OrderIntent) -> Seq<(Seq<char>, Seq<char>)> {
    seq![
        ("symbol"@, intent.instrument.symbol@),
        ("side"@, side_text(intent.side)),
        ("type"@, "MARKET"@),
        ("quantity"@, decimal_text(intent.qty)),
    ] + client_id_params(intent)
}

fn push_client_id(params: &mut Vec<(String, String)>, intent: &OrderIntent)
    ensures
        param_texts(final(params)@) == param_texts(old(params)@) + client_id_params(*intent),
{
    let ghost before = params@;
    match &intent.client_order_id {
        Some(c) => {
            params.push(("newClientOrderId".to_owned(), c.0.clone()));
            assert(param_texts(params@) =~= param_texts(before) + client_id_params(*intent));
        },
        None => {
            assert(param_texts(params@) =~= param_texts(before) + client_id_params(*intent));
        },
    }
}

/// Request parameters of a limit order; an intent without a price is refused.
pub fn limit_order_params(intent: &OrderIntent) -> (r: Result<Vec<(String, String)>, Error>)
    ensures
        match intent.price {
            None => r matches Err(Error::Invalid(m)) && m@ == "limit needs price"@,
            Some(p) => r matches Ok(ps) && param_texts(ps@) == limit_params(*intent, p),
        },
{
    let price = match intent.price {
        Some(p) => p,
        None => {
            return Err(Error::Invalid("limit needs price".to_owned()));
        },
    };
    let mut params: Vec<(String, String)> = Vec::new();
    params.push(("symbol".to_owned(), intent.instrument.symbol.0.clone()));
    params.push(("side".to_owned(), side_param(intent.side)));
    params.push(("type".to_owned(), "LIMIT".to_owned()));
    params.push(("timeInForce".to_owned(), "GTC".to_owned()));
    params.push(("quantity".to_owned(), decimal_to_string(intent.qty)));
    params.push(("price".to_owned(), decimal_to_string(price)));
    let ghost base = param_texts(params@);
    assert(base =~= seq![
        ("symbol"@, intent.instrument.symbol@),
        ("side"@, side_text(intent.side)),
        ("type"@, "LIMIT"@),
        ("timeInForce"@, "GTC"@),
        ("quantity"@, decimal_text(intent.qty)),
        ("price"@, decimal_text(price)),
    ]);
    push_client_id(&mut params, intent);
    Ok(params)
}

/// Request parameters of a market order.
pub fn market_order_params(intent: &OrderIntent) -> (r: Vec<(String, String)>)
    ensures
        param_texts(r@) == market_params(*intent),
{
    let mut params: Vec<(String, String)> = Vec::new();
    params.push(("symbol".to_owned(), intent.instrument.symbol.0.clone()));
    params.push(("side".to_owned(), side_param(intent.side)));
    params.push(("type".to_owned(), "MARKET".to_owned()));
    params.push(("quantity".to_owned(), decimal_to_string(intent.qty)));
    let ghost base = param_texts(params@);
    assert(base =~= seq![
        ("symbol"@, intent.instrument.symbol@),
        ("side"@, side_text(intent.side)),
        ("type"@, "MARKET"@),
        ("quantity"@, decimal_text(intent.qty)),
    ]);
    push_client_id(&mut params, intent);
    params
}

/// The fee asset reported on fills of an instrument: its quote asset, else `USDT`.
pub open spec fn fee_asset_of(state: GlobalState, inst: InstrumentKey) -> Seq<char> {
    if state.instruments.as_map().dom().contains(inst) {
        state.instruments.as_map()[inst].quote@
    } else {
        "USDT"@
    }
}

/// The fee asset reported on fills of an instrument: its quote asset, else `USDT`.
pub fn fee_asset_for(state: &GlobalState, inst: &InstrumentId) -> (r: Asset)
    requires
        state.wf(),
    ensures
        r@ == fee_asset_of(*state, inst@),
{
    match state.instruments.get(inst) {
        Some(m) => m.quote.duplicate(),
        None => Asset::new("USDT"),
    }
}

/// The order id sent to the venue: the id, capped at `u64::MAX`.
pub open spec fn venue_order_number(id: OrderId) -> u64 {
    if id.0 > u64::MAX as u128 {
        u64::MAX
    } else {
        id.0 as u64
    }
}

/// Some open order (by storage position) carries the id `id`.
pub open spec fn has_open_order(state: GlobalState, id: OrderId) -> bool {
    exists|i: int|
        0 <= i < state.open_orders.entries().len() && #[trigger] state.open_orders.entries()[i].1.id
            == id
}

/// What a cancel request names: the symbol of an open order with this id and the venue order
/// number; an id that no open order carries is refused.
pub fn cancel_target(state: &GlobalState, order_id: OrderId) -> (r: Result<(String, u64), Error>)
    ensures
        match r {
            Ok((sym, oid)) => {
                &&& oid == venue_order_number(order_id)
                &&& exists|i: int|
                    0 <= i < state.open_orders.entries().len()
                        && #[trigger] state.open_orders.entries()[i].1.id == order_id
                        && sym@ == state.open_orders.entries()[i].1.instrument.symbol@
            },
            Err(e) => !has_open_order(*state, order_id) && (e matches Error::Invalid(m) && m@
                == "order not in local book"@),
        },
{
    let mut i: usize = 0;
    let n = state.open_orders.len();
    while i < n
        invariant
            i <= n,
            n == state.open_orders.entries().len(),
            forall|k: int| 0 <= k < i ==> #[trigger] state.open_orders.entries()[k].1.id != order_id,
        decreases n - i,
    {
        let o = state.open_orders.value_at(i);
        if o.id.0 == order_id.0 {
            let oid: u64 = if order_id.0 > u64::MAX as u128 {
                u64::MAX
            } else {
                order_id.0 as u64
            };
            return Ok((o.instrument.symbol.0.clone(), oid));
        }
        i += 1;
    }
    Err(Error::Invalid("order not in local book".to_owned()))
}

/// The instrument and fee asset a cancel reply is read with: those of the open order stored
/// under the id, else `binance:UNKNOWN` and `USDT`.
pub open spec fn cancel_context(state: GlobalState, id: OrderId) -> (InstrumentKey, Seq<char>) {
    if state.open_orders.as_map().dom().contains(id@) {
        let o = state.open_orders.as_map()[id@];
        (o.instrument@, fee_asset_of(state, o.instrument@))
    } else {
        (("binance"@, "UNKNOWN"@), "USDT"@)
    }
}

/// The instrument and fee asset a cancel reply is read with.
pub fn cancel_reply_context(state: &GlobalState, order_id: OrderId) -> (r: (InstrumentId, Asset))
    requires
        state.wf(),
    ensures
        (r.0@, r.1@) == cancel_context(*state, order_id),
{
    match state.open_orders.get(&order_id) {
        Some(o) => (o.instrument.duplicate(), fee_asset_for(state, &o.instrument)),
        None => (InstrumentId::new("binance", "UNKNOWN"), Asset::new("USDT")),
    }
}

/// The symbols of an open-orders reply: an array whose every record has a symbol; any
/// other reply gives none.
pub open spec fn venue_symbols(text: Seq<char>) -> Seq<Seq<char>> {
    match json_parse(text) {
        Some(Json::Array(items)) => if forall|k: int|
            0 <= k < items@.len() ==> #[trigger] record_field(items@[k], "symbol"@) is Some {
            items@.map_values(|it: Json| record_field(it, "symbol"@).unwrap())
        } else {
            Seq::empty()
        },
        _ => Seq::empty(),
    }
}

/// The symbols of the local open orders.
pub open spec fn local_symbols(state: GlobalState) -> Seq<Seq<char>> {
    state.open_orders.entries().map_values(|e: (u128, OpenOrder)| e.1.instrument.symbol@)
}

/// Strictly increasing texts.
pub open spec fn strictly_sorted(v: Seq<Seq<char>>) -> bool {
    forall|i: int, j: int| 0 <= i < j < v.len() ==> text_lt(v[i], v[j])
}

/// The texts of strings.
pub open spec fn texts(v: Seq<String>) -> Seq<Seq<char>> {
    v.map_values(|s: String| s@)
}

/// Insert a text into a strictly sorted list unless already there.
fn insert_sorted_unique(out: &mut Vec<String>, x: String)
    requires
        strictly_sorted(texts(old(out)@)),
    ensures
        strictly_sorted(texts(final(out)@)),
        texts(final(out)@).to_set() == texts(old(out)@).to_set().insert(x@),
{
    let ghost before = texts(out@);
    let mut j: usize = 0;
    while j < out.len() && text_less(out[j].as_str(), x.as_str())
        invariant
            j <= out@.len(),
            before == texts(out@),
            forall|k: int| 0 <= k < j ==> text_lt(#[trigger] before[k], x@),
        decreases out@.len() - j,
    {
        j += 1;
    }
    if j < out.len() && same_text(out[j].as_str(), x.as_str()) {
        proof {
            assert(texts(out@).to_set() =~= before.to_set().insert(x@)) by {
                assert(before[j as int] == x@);
            }
        }
        return;
    }
    out.insert(j, x);
    proof {
        let now = texts(out@);
        assert(now =~= before.insert(j as int, x@));
        if j < before.len() {
            lemma_text_lt_total(before[j as int], x@);
            assert(text_lt(x@, before[j as int]));
        }
        assert forall|a: int, b: int| 0 <= a < b < now.len() implies text_lt(now[a], now[b]) by {
            if b == j {
            } else if a == j {
                if b - 1 > j {
                    lemma_text_lt_transitive(x@, before[j as int], before[b - 1]);
                }
            } else if a < j && b > j {
                if b - 1 > j {
                    lemma_text_lt_transitive(x@, before[j as int], before[b - 1]);
                }
                lemma_text_lt_transitive(before[a], x@, before[b - 1]);
            } else if a > j {
                assert(text_lt(before[a - 1], before[b - 1]));
            } else {
                assert(text_lt(before[a], before[b]));
            }
        }
        assert(now.to_set() =~= before.to_set().insert(x@)) by {
            assert forall|t: Seq<char>| now.to_set().contains(t) <==> before.to_set().insert(
                x@,
            ).contains(t) by {
                if now.contains(t) {
                    let k = choose|k: int| 0 <= k < now.len() && now[k] == t;
                    if k < j {
                        assert(before[k] == t);
                    } else if k > j {
                        assert(before[k - 1] == t);
                    }
                }
                if before.contains(t) {
                    let k = choose|k: int| 0 <= k < before.len() && before[k] == t;
                    if k < j {
                        assert(now[k] == t);
                    } else {
                        assert(now[k + 1] == t);
                    }
                }
                if t == x@ {
                    assert(now[j as int] == t);
                }
            }
        }
    }
}

/// The symbols of the venue's open orders, sorted without repeats (none when the reply is
/// not an array of records with symbols).
fn venue_symbol_list(reply: &str) -> (r: Vec<String>)
    ensures
        strictly_sorted(texts(r@)),
        texts(r@).to_set() == venue_symbols(reply@).to_set(),
{
    let mut out: Vec<String> = Vec::new();
    proof {
        assert(texts(out@) =~= Seq::<Seq<char>>::empty());
        assert(texts(out@).to_set() =~= Set::<Seq<char>>::empty());
        assert(Seq::<Seq<char>>::empty().to_set() =~= Set::<Seq<char>>::empty());
    }
    let doc = match parse_json(reply) {
        Ok(d) => d,
        Err(_) => {
            return out;
        },
    };
    let items = match doc.as_array() {
        Some(items) => items,
        None => {
            return out;
        },
    };
    let ghost syms = items@.map_values(|it: Json| record_field(it, "symbol"@).unwrap());
    let mut i: usize = 0;
    while i < items.len()
        invariant
            i <= items@.len(),
            json_parse(reply@) == Some(Json::Array(*items)),
            syms == items@.map_values(|it: Json| record_field(it, "symbol"@).unwrap()),
            strictly_sorted(texts(out@)),
            forall|k: int| 0 <= k < i ==> #[trigger] record_field(items@[k], "symbol"@) is Some,
            texts(out@).to_set() == syms.subrange(0, i as int).to_set(),
        decreases items@.len() - i,
    {
        match get_record_field(&items[i], "symbol") {
            Some(t) => {
                let ghost prev = texts(out@).to_set();
                insert_sorted_unique(&mut out, t.to_owned());
                proof {
                    assert(syms.subrange(0, i + 1) =~= syms.subrange(0, i as int).push(t@));
                    syms.subrange(0, i as int).lemma_push_to_set_commute(t@);
                }
            },
            None => {
                let empty: Vec<String> = Vec::new();
                proof {
                    assert(record_field(items@[i as int], "symbol"@) is None);
                    assert(texts(empty@) =~= Seq::<Seq<char>>::empty());
                    assert(texts(empty@).to_set() =~= Set::<Seq<char>>::empty());
                    assert(venue_symbols(reply@) =~= Seq::<Seq<char>>::empty());
                    assert(Seq::<Seq<char>>::empty().to_set() =~= Set::<Seq<char>>::empty());
                }
                return empty;
            },
        }
        i += 1;
    }
    proof {
        assert(syms.subrange(0, items@.len() as int) =~= syms);
    }
    out
}

/// The symbols of the local open orders, sorted without repeats.
fn local_symbol_list(state: &GlobalState) -> (r: Vec<String>)
    ensures
        strictly_sorted(texts(r@)),
        texts(r@).to_set() == local_symbols(*state).to_set(),
{
    let mut out: Vec<String> = Vec::new();
    proof {
        assert(texts(out@) =~= Seq::<Seq<char>>::empty());
        assert(texts(out@).to_set() =~= Set::<Seq<char>>::empty());
        assert(local_symbols(*state).subrange(0, 0).to_set() =~= Set::<Seq<char>>::empty());
    }
    let n = state.open_orders.len();
    let mut i: usize = 0;
    while i < n
        invariant
            i <= n,
            n == state.open_orders.entries().len(),
            strictly_sorted(texts(out@)),
            texts(out@).to_set() == local_symbols(*state).subrange(0, i as int).to_set(),
        decreases n - i,
    {
        let o = state.open_orders.value_at(i);
        insert_sorted_unique(&mut out, o.instrument.symbol.0.clone());
        proof {
            let ls = local_symbols(*state);
            assert(ls.subrange(0, i + 1) =~= ls.subrange(0, i as int).push(o.instrument.symbol@));
            ls.subrange(0, i as int).lemma_push_to_set_commute(o.instrument.symbol@);
        }
        i += 1;
    }
    proof {
        assert(local_symbols(*state).subrange(0, n as int) =~= local_symbols(*state));
    }
    out
}

/// The symbols cancel-all works through: those of the venue's open orders (the reply to
/// `GET /api/v3/openOrders`), sorted without repeats; when the venue names none, those of
/// the local open orders.
pub fn cancel_all_symbols(state: &GlobalState, open_orders_reply: &str) -> (r: Vec<String>)
    ensures
        strictly_sorted(texts(r@)),
        texts(r@).to_set() == (if venue_symbols(open_orders_reply@).len() > 0 {
            venue_symbols(open_orders_reply@).to_set()
        } else {
            local_symbols(*state).to_set()
        }),
{
    let venue = venue_symbol_list(open_orders_reply);
    if venue.len() > 0 {
        proof {
            assert(texts(venue@)[0] == venue@[0]@);
            assert(texts(venue@).contains(venue@[0]@));
            assert(texts(venue@).to_set().contains(venue@[0]@));
            if venue_symbols(open_orders_reply@).len() == 0 {
                assert(venue_symbols(open_orders_reply@).to_set() =~= Set::<Seq<char>>::empty());
            }
        }
        venue
    } else {
        proof {
            let vs = venue_symbols(open_orders_reply@);
            assert(texts(venue@) =~= Seq::<Seq<char>>::empty());
            if vs.len() > 0 {
                assert(vs.to_set().contains(vs[0]));
            }
        }
        local_symbol_list(state)
    }
}

/// The instrument a cancel-all reply for a venue symbol is read with (exchange `binance`,
/// the symbol as given).
pub fn cancel_all_instrument(sym: &str) -> (r: InstrumentId)
    ensures
        r@ == ("binance"@, sym@),
{
    InstrumentId::new("binance", sym)
}

} // verus!
