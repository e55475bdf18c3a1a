use vstd::prelude::*;
use crate::market_type::MarketType;
use crate::numeric::{parse_fixed, spec_parse_fixed};
use crate::strutil::{spec_starts_with, str_eq_str, str_starts_with};
use crate::trade::{Side, Trade};

verus! {

/// The fields of one Bybit public trade, as its wire schema carries them.
pub struct BybitTrade {
    pub symbol: String,
    pub price: String,
    pub quantity: String,
    pub side: String,
    pub timestamp_ms: u64,
    pub trade_id: String,
}

/// Bybit's side mapping: the native `"Sell"` string is a sell; `"Buy"`
/// and any unrecognized value map to buy.
pub open spec fn spec_bybit_side(side: Seq<char>) -> Side {
    if side == "Sell"@ {
        Side::Sell
    } else {
        Side::Buy
    }
}

/// Maps Bybit's native side string; pure and total.
pub fn bybit_side(side: &str) -> (r: Side)
    ensures
        r == spec_bybit_side(side@),
{
    if str_eq_str(side, "Sell") {
        Side::Sell
    } else {
        Side::Buy
    }
}

/// Whether a message topic carries public trades: only topics prefixed
/// `publicTrade.` are trade events; everything else is discarded.
pub fn bybit_topic_is_trade(topic: &str) -> (r: bool)
    ensures
        r == spec_starts_with(topic@, "publicTrade."@),
{
    str_starts_with(topic, "publicTrade.")
}

/// The websocket endpoint for each Bybit market segment.
pub fn get_websocket_url(market_type: &MarketType) -> (r: &'static str)
    ensures
        market_type is Spot ==> r@ == "wss://stream.bybit.com/v5/public/spot"@,
        market_type is Linear ==> r@ == "wss://stream.bybit.com/v5/public/linear"@,
        market_type is Inverse ==> r@ == "wss://stream.bybit.com/v5/public/inverse"@,
{
    match market_type {
        MarketType::Spot => "wss://stream.bybit.com/v5/public/spot",
        MarketType::Linear => "wss://stream.bybit.com/v5/public/linear",
        MarketType::Inverse => "wss://stream.bybit.com/v5/public/inverse",
    }
}

/// The subscription argument for one symbol: `publicTrade.` followed by
/// the symbol, as Bybit's subscribe op expects.
pub fn bybit_subscribe_arg(symbol: &str) -> (r: String)
    ensures
        r@ == "publicTrade."@ + symbol@,
{
    let mut out = "publicTrade.".to_owned();
    out.append(symbol);
    out
}

/// Normalizes one Bybit trade into the canonical model: decimal price and
/// quantity strings become fixed-point values (malformed ones degrade to
/// zero), the native side string is mapped, and the exchange is stamped.
pub fn normalize_bybit(market_type: MarketType, data: BybitTrade) -> (t: Trade)
    ensures
        t.exchange@ == "bybit"@,
        t.market_type == market_type,
        t.symbol@ == data.symbol@,
        t.trade_id@ == data.trade_id@,
        t.price == spec_parse_fixed(data.price@),
        t.quantity == spec_parse_fixed(data.quantity@),
        t.side == spec_bybit_side(data.side@),
        t.timestamp_ms == data.timestamp_ms,
{
    let price = parse_fixed(data.price.as_str());
    let quantity = parse_fixed(data.quantity.as_str());
    let side = bybit_side(data.side.as_str());
    Trade::new(
        "bybit".to_owned(),
        market_type,
        data.symbol,
        data.trade_id,
        price,
        quantity,
        side,
        data.timestamp_ms,
    )
}

} // verus!
