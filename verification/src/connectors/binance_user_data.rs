//! Binance Spot user data stream messages (`executionReport`, balances) as account events.

use crate::decimal::{decimal_difference, decimal_parse, lt, max_value, parse_decimal, value_lt, checked_sub, Dec};
use crate::events::AccountEvent;
use crate::error::Error;
use crate::json::{
    field_str, get_record_field, get_str, json_get, json_parse, json_u64, parse_json,
    record_field, Json,
};
use crate::state::{zero, InstrumentKey};
use crate::text::{same_text, to_upper, trim_end, trim_end_char, uppercase};
use crate::types::{Asset, ExchangeId, InstrumentId, OrderId, OrderStatus, OrderType, Side, Symbol};
use vstd::prelude::*;

verus! {

/// REST + WebSocket user stream settings.
#[derive(Debug)]
pub struct BinanceUserDataStream {
    /// `X-MBX-APIKEY` value.
    pub api_key: String,
    /// REST root (`https://api.binance.com` or testnet).
    pub rest_base: String,
    /// WebSocket root (`wss://stream.binance.com:9443`).
    pub ws_base: String,
}

/// The REST root without trailing slashes.
pub open spec fn rest_root(rest_base: Seq<char>) -> Seq<char> {
    trim_end_char(rest_base, '/')
}

impl BinanceUserDataStream {
    /// URL that creates a listen key (`POST`): `{rest}/api/v3/userDataStream`.
    pub fn listen_key_url(&self) -> (r: String)
        ensures
            r@ == rest_root(self.rest_base@) + "/api/v3/userDataStream"@,
    {
        let mut u = trim_end(self.rest_base.as_str(), '/');
        u.append("/api/v3/userDataStream");
        u
    }

    /// URL that keeps a listen key alive (`PUT`):
    /// `{rest}/api/v3/userDataStream?listenKey={key}`.
    pub fn keepalive_url(&self, key: &str) -> (r: String)
        ensures
            r@ == rest_root(self.rest_base@) + "/api/v3/userDataStream?listenKey="@ + key@,
    {
        let mut u = trim_end(self.rest_base.as_str(), '/');
        u.append("/api/v3/userDataStream?listenKey=");
        u.append(key);
        u
    }

    /// The private stream of a listen key: `{ws}/ws/{key}`.
    pub fn stream_url(&self, key: &str) -> (r: String)
        ensures
            r@ == trim_end_char(self.ws_base@, '/') + "/ws/"@ + key@,
    {
        let mut u = trim_end(self.ws_base.as_str(), '/');
        u.append("/ws/");
        u.append(key);
        u
    }
}

/// The listen key a reply to the create request carries.
pub open spec fn listen_key_of(text: Seq<char>) -> Option<Seq<char>> {
    match json_parse(text) {
        Some(doc) => record_field(doc, "listenKey"@),
        None => None,
    }
}

/// Read the listen key from the reply to the create request; a reply without one is
/// refused with `listenKey parse failed: {reply}`.
pub fn listen_key_from_reply(text: &str) -> (r: Result<String, Error>)
    ensures
        match listen_key_of(text@) {
            Some(k) => r matches Ok(key) && key@ == k,
            None => r matches Err(Error::Invalid(m)) && m@ == "listenKey parse failed: "@ + text@,
        },
{
    let refused = |t: &str| -> (e: Error)
        ensures
            e matches Error::Invalid(m) && m@ == "listenKey parse failed: "@ + t@,
        {
            let mut m = "listenKey parse failed: ".to_owned();
            m.append(t);
            Error::Invalid(m)
        };
    let doc = match parse_json(text) {
        Ok(d) => d,
        Err(_) => {
            return Err(refused(text));
        },
    };
    match get_record_field(&doc, "listenKey") {
        Some(k) => Ok(k.to_owned()),
        None => Err(refused(text)),
    }
}

/// The Binance instrument of a venue symbol: exchange `binance`, symbol in upper case.
pub open spec fn binance_instrument(sym: Seq<char>) -> InstrumentKey {
    ("binance"@, uppercase(sym))
}

/// Binance instrument of a venue symbol (symbol upper-cased).
pub fn inst(sym: &str) -> (r: InstrumentId)
    ensures
        r@ == binance_instrument(sym@),
{
    InstrumentId { exchange: ExchangeId("binance".to_owned()), symbol: Symbol(to_upper(sym)) }
}

/// Side of a venue side text: `BUY` buys, anything else sells.
pub open spec fn report_side(s: Seq<char>) -> Side {
    if s == "BUY"@ {
        Side::Buy
    } else {
        Side::Sell
    }
}

/// Order type of a venue type text: `LIMIT`, else market.
pub open spec fn venue_order_type(s: Seq<char>) -> OrderType {
    if s == "LIMIT"@ {
        OrderType::Limit
    } else {
        OrderType::Market
    }
}

/// Status of a venue status text.
pub open spec fn venue_status(s: Seq<char>) -> OrderStatus {
    if s == "FILLED"@ {
        OrderStatus::Filled
    } else if s == "CANCELED"@ || s == "EXPIRED"@ {
        OrderStatus::Canceled
    } else if s == "REJECTED"@ {
        OrderStatus::Rejected
    } else {
        OrderStatus::Open
    }
}

/// The decimal that the string member `key` holds, if it is one.
pub open spec fn field_decimal(doc: Json, key: Seq<char>) -> Option<Dec> {
    match field_str(doc, key) {
        Some(s) => decimal_parse(s),
        None => None,
    }
}

/// A decimal, or zero.
pub open spec fn or_zero(d: Option<Dec>) -> Dec {
    match d {
        Some(x) => x,
        None => zero(),
    }
}

/// The limit price of a report: the member `key` when it is a nonempty string that parses.
pub open spec fn optional_price(doc: Json, key: Seq<char>) -> Option<Dec> {
    match field_str(doc, key) {
        Some(s) => if s.len() > 0 {
            decimal_parse(s)
        } else {
            None
        },
        None => None,
    }
}

/// `orig - exec`, at least zero; `None` on overflow.
pub open spec fn remaining_after(orig: Dec, exec: Dec) -> Option<Dec> {
    match decimal_difference(orig, exec) {
        Some(d) => Some(
            if value_lt(d, zero()) {
                zero()
            } else {
                d
            },
        ),
        None => None,
    }
}

/// The fields an execution report must have: symbol, side, type, status, order id, original
/// quantity (a decimal), executed quantity (a string; zero unless a decimal), and a
/// remaining quantity in range.
pub open spec fn report_fields(ev: Json) -> Option<
    (Seq<char>, Seq<char>, Seq<char>, Seq<char>, u64, Dec, Dec, Dec),
> {
    match (field_str(ev, "s"@), field_str(ev, "S"@), field_str(ev, "o"@), field_str(ev, "X"@)) {
        (Some(sym), Some(side), Some(ot), Some(st)) => match json_get(ev, "i"@) {
            Some(i) => match (json_u64(i), field_decimal(ev, "q"@), field_str(ev, "z"@)) {
                (Some(oid), Some(orig), Some(z)) => {
                    let exec = or_zero(decimal_parse(z));
                    match remaining_after(orig, exec) {
                        Some(rem) => Some((sym, side, ot, st, oid, orig, exec, rem)),
                        None => None,
                    }
                },
                _ => None,
            },
            None => None,
        },
        _ => None,
    }
}

/// A report of a filled order with a positive executed quantity also reports the fill.
pub open spec fn report_has_fill(ev: Json) -> bool {
    report_fields(ev) matches Some((_, _, _, st, _, _, exec, _)) && venue_status(st)
        == OrderStatus::Filled && value_lt(zero(), exec)
}

/// The events of an execution report: its order update, then its fill when it reports one.
pub open spec fn report_events(ev: Json, evs: Seq<AccountEvent>) -> bool {
    let (sym, side, ot, st, oid, orig, exec, rem) = report_fields(ev)->0;
    &&& evs.len() == if report_has_fill(ev) {
        2int
    } else {
        1int
    }
    &&& evs[0] matches AccountEvent::OrderUpdate {
        id,
        instrument,
        side: s,
        order_type,
        price,
        remaining_qty,
        original_qty,
        status,
    } && id.0 == oid && instrument@ == binance_instrument(sym) && s == report_side(side)
        && order_type == venue_order_type(ot) && price == optional_price(ev, "p"@)
        && remaining_qty == rem && original_qty == orig && status == venue_status(st)
    &&& report_has_fill(ev) ==> (evs[1] matches AccountEvent::Fill {
        order_id,
        instrument,
        side: s,
        price,
        qty,
        fee,
        fee_asset,
    } && order_id.0 == oid && instrument@ == binance_instrument(sym) && s == report_side(
        side,
    ) && price == or_zero(field_decimal(ev, "L"@)) && qty == exec && fee == or_zero(
        field_decimal(ev, "n"@),
    ) && fee_asset@ == (match field_str(ev, "N"@) {
        Some(a) => a,
        None => "USDT"@,
    }))
}

/// The fill of an execution report is priced at the report's last executed price, its `L`
/// member: the decimal that member's text gives (zero when the member is missing or does not
/// parse), whatever the order price `p`. Two filled reports with the same `L` text give fills
/// at the same price.
pub proof fn law_fill_price_is_last_executed(
    ev: Json,
    evs: Seq<AccountEvent>,
    other: Json,
    other_evs: Seq<AccountEvent>,
)
    requires
        report_fields(ev) is Some,
        report_events(ev, evs),
        report_has_fill(ev),
    ensures
        evs[1] matches AccountEvent::Fill { price, .. } && (match field_str(ev, "L"@) {
            Some(t) => match decimal_parse(t) {
                Some(d) => price == d,
                None => price == zero(),
            },
            None => price == zero(),
        }),
        report_fields(other) is Some && report_events(other, other_evs) && report_has_fill(other)
            && field_str(other, "L"@) == field_str(ev, "L"@) ==> (evs[1] matches AccountEvent::Fill {
            price: a,
            ..
        } && other_evs[1] matches AccountEvent::Fill { price: b, .. } && a == b),
{
}

/// Parse an `executionReport`: an order update, and a fill when the order is filled.
pub fn parse_execution_report(ev: &Json) -> (r: Option<Vec<AccountEvent>>)
    ensures
        r is Some <==> report_fields(*ev) is Some,
        r matches Some(v) ==> report_events(*ev, v@),
{
    proof {
        reveal_strlit("BUY");
        reveal_strlit("LIMIT");
        reveal_strlit("FILLED");
        reveal_strlit("CANCELED");
        reveal_strlit("EXPIRED");
        reveal_strlit("REJECTED");
    }
    let symbol = get_str(ev, "s")?;
    let side_text = get_str(ev, "S")?;
    let ot_text = get_str(ev, "o")?;
    let status_text = get_str(ev, "X")?;
    let oid = match ev.get("i") {
        Some(i) => i.as_u64()?,
        None => {
            return None;
        },
    };
    let orig_qty = match parse_decimal(get_str(ev, "q")?) {
        Ok(d) => d,
        Err(_) => {
            return None;
        },
    };
    let exec_qty = match parse_decimal(get_str(ev, "z")?) {
        Ok(d) => d,
        Err(_) => Dec::zero(),
    };
    let remaining_qty = match checked_sub(orig_qty, exec_qty) {
        Some(d) => max_value(d, Dec::zero()),
        None => {
            return None;
        },
    };
    let side = if same_text(side_text, "BUY") {
        Side::Buy
    } else {
        Side::Sell
    };
    let order_type = if same_text(ot_text, "LIMIT") {
        OrderType::Limit
    } else {
        OrderType::Market
    };
    let status = if same_text(status_text, "FILLED") {
        OrderStatus::Filled
    } else if same_text(status_text, "CANCELED") || same_text(status_text, "EXPIRED") {
        OrderStatus::Canceled
    } else if same_text(status_text, "REJECTED") {
        OrderStatus::Rejected
    } else {
        OrderStatus::Open
    };
    let price = match get_str(ev, "p") {
        Some(p) => if p.unicode_len() > 0 {
            match parse_decimal(p) {
                Ok(d) => Some(d),
                Err(_) => None,
            }
        } else {
            None
        },
        None => None,
    };
    let mut out: Vec<AccountEvent> = Vec::new();
    out.push(
        AccountEvent::OrderUpdate {
            id: OrderId::from_venue_u64(oid),
            instrument: inst(symbol),
            side,
            order_type,
            price,
            remaining_qty,
            original_qty: orig_qty,
            status,
        },
    );
    if status == OrderStatus::Filled && lt(Dec::zero(), exec_qty) {
        let px = match get_str(ev, "L") {
            Some(s) => match parse_decimal(s) {
                Ok(d) => d,
                Err(_) => Dec::zero(),
            },
            None => Dec::zero(),
        };
        let fee = match get_str(ev, "n") {
            Some(s) => match parse_decimal(s) {
                Ok(d) => d,
                Err(_) => Dec::zero(),
            },
            None => Dec::zero(),
        };
        let fee_asset = match get_str(ev, "N") {
            Some(a) => Asset(a.to_owned()),
            None => Asset("USDT".to_owned()),
        };
        out.push(
            AccountEvent::Fill {
                order_id: OrderId::from_venue_u64(oid),
                instrument: inst(symbol),
                side,
                price: px,
                qty: exec_qty,
                fee,
                fee_asset,
            },
        );
    }
    Some(out)
}

/// The balances of an `outboundAccountPosition`, in order, while each entry has an asset and
/// a decimal free amount.
pub open spec fn outbound_balances(entries: Seq<Json>) -> Option<Seq<(Seq<char>, Dec)>>
    decreases entries.len(),
{
    if entries.len() == 0 {
        Some(Seq::empty())
    } else {
        match outbound_balances(entries.drop_last()) {
            None => None,
            Some(prev) => match (field_str(entries.last(), "a"@), field_decimal(entries.last(), "f"@)) {
                (Some(a), Some(f)) => Some(prev.push((a, f))),
                _ => None,
            },
        }
    }
}

/// The events of a parse, viewed.
pub open spec fn opt_view(r: Option<Vec<AccountEvent>>) -> Option<Seq<AccountEvent>> {
    match r {
        Some(v) => Some(v@),
        None => None,
    }
}

/// The events of an `outboundAccountPosition`: one balance per entry of `B`, none when an
/// entry is malformed or there is no entry.
pub open spec fn outbound_events(ev: Json, r: Option<Seq<AccountEvent>>) -> bool {
    match json_get(ev, "B"@) {
        Some(Json::Array(entries)) => match outbound_balances(entries@) {
            Some(bals) => if bals.len() == 0 {
                r is None
            } else {
                r matches Some(v) && v.len() == bals.len() && forall|k: int|
                    0 <= k < bals.len() ==> (#[trigger] v[k] matches AccountEvent::Balance {
                        asset,
                        free,
                    } && asset@ == bals[k].0 && free == bals[k].1)
            },
            None => r is None,
        },
        _ => r is None,
    }
}

/// The events of a user stream message, by its event type `e`: an execution report, a
/// balance snapshot; nothing for other types (balance deltas included).
pub open spec fn user_events(ev: Json, r: Option<Seq<AccountEvent>>) -> bool {
    match field_str(ev, "e"@) {
        Some(t) => if t == "executionReport"@ {
            (r is Some <==> report_fields(ev) is Some) && (r matches Some(v) ==> report_events(
                ev,
                v,
            ))
        } else if t == "outboundAccountPosition"@ {
            outbound_events(ev, r)
        } else {
            r is None
        },
        None => r is None,
    }
}

/// Parse an `outboundAccountPosition`: one balance event per entry of `B`; `None` when an
/// entry is malformed or there is none.
pub fn parse_outbound(ev: &Json) -> (r: Option<Vec<AccountEvent>>)
    ensures
        outbound_events(*ev, opt_view(r)),
{
    let entries = match ev.get("B") {
        Some(b) => b.as_array()?,
        None => {
            return None;
        },
    };
    let mut out: Vec<AccountEvent> = Vec::new();
    let mut i: usize = 0;
    while i < entries.len()
        invariant
            i <= entries@.len(),
            json_get(*ev, "B"@) == Some(Json::Array(*entries)),
            outbound_balances(entries@.subrange(0, i as int)) matches Some(bals) && out@.len()
                == bals.len() && forall|k: int|
                0 <= k < bals.len() ==> (#[trigger] out@[k] matches AccountEvent::Balance {
                    asset,
                    free,
                } && asset@ == bals[k].0 && free == bals[k].1),
        decreases entries@.len() - i,
    {
        let b = &entries[i];
        proof {
            assert(entries@.subrange(0, i + 1).drop_last() =~= entries@.subrange(0, i as int));
            assert(entries@.subrange(0, i + 1).last() == entries@[i as int]);
        }
        let asset = match get_str(b, "a") {
            Some(a) => a,
            None => {
                proof {
                    lemma_outbound_none_after(entries@, (i + 1) as nat);
                }
                return None;
            },
        };
        let free = match get_str(b, "f") {
            Some(f) => match parse_decimal(f) {
                Ok(d) => d,
                Err(_) => {
                    proof {
                        lemma_outbound_none_after(entries@, (i + 1) as nat);
                    }
                    return None;
                },
            },
            None => {
                proof {
                    lemma_outbound_none_after(entries@, (i + 1) as nat);
                }
                return None;
            },
        };
        out.push(AccountEvent::Balance { asset: Asset(asset.to_owned()), free });
        i += 1;
    }
    proof {
        assert(entries@.subrange(0, entries@.len() as int) =~= entries@);
    }
    if out.len() == 0 {
        None
    } else {
        Some(out)
    }
}

/// A malformed entry makes every longer list malformed.
proof fn lemma_outbound_none_after(entries: Seq<Json>, i: nat)
    requires
        i <= entries.len(),
        outbound_balances(entries.subrange(0, i as int)) is None,
    ensures
        outbound_balances(entries) is None,
    decreases entries.len() - i,
{
    if i < entries.len() {
        assert(entries.subrange(0, i + 1 as int).drop_last() =~= entries.subrange(0, i as int));
        lemma_outbound_none_after(entries, i + 1);
    } else {
        assert(entries.subrange(0, i as int) =~= entries);
    }
}

/// Parse a `balanceUpdate`: it is read (asset and a decimal delta) but yields no event, as the
/// free balance arrives with the account position.
pub fn parse_balance_update(ev: &Json) -> (r: Option<Vec<AccountEvent>>)
    ensures
        r is None,
{
    let _asset = get_str(ev, "a")?;
    let _delta = match parse_decimal(get_str(ev, "d")?) {
        Ok(d) => d,
        Err(_) => {
            return None;
        },
    };
    None
}

/// Dispatch a user data message on its event type `e`.
pub fn parse_generic(ev: &Json) -> (r: Option<Vec<AccountEvent>>)
    ensures
        user_events(*ev, opt_view(r)),
{
    proof {
        reveal_strlit("executionReport");
        reveal_strlit("outboundAccountPosition");
        reveal_strlit("balanceUpdate");
    }
    let typ = get_str(ev, "e")?;
    if same_text(typ, "executionReport") {
        parse_execution_report(ev)
    } else if same_text(typ, "outboundAccountPosition") {
        parse_outbound(ev)
    } else if same_text(typ, "balanceUpdate") {
        parse_balance_update(ev)
    } else {
        None
    }
}

/// The account events of one text message of the user stream (none when it is not JSON or
/// not understood).
pub fn decode_user_message(text: &str) -> (r: Vec<AccountEvent>)
    ensures
        match crate::json::json_parse(text@) {
            None => r@.len() == 0,
            Some(v) => exists|o: Option<Seq<AccountEvent>>|
                user_events(v, o) && r@ == match o {
                    Some(e) => e,
                    None => Seq::<AccountEvent>::empty(),
                },
        },
{
    match parse_json(text) {
        Ok(v) => match parse_generic(&v) {
            Some(evs) => evs,
            None => Vec::new(),
        },
        Err(_) => Vec::new(),
    }
}

} // verus!
