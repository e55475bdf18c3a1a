use vstd::prelude::*;
use crate::market_type::MarketType;
use crate::numeric::{parse_fixed, spec_parse_fixed};
use crate::strutil::str_eq_str;
use crate::trade::{Side, Trade};

verus! {

/// The fields of one Hyperliquid trade, as its wire schema carries them.
pub struct HyperliquidTrade {
    pub coin: String,
    pub side: String,
    pub price: String,
    pub quantity: String,
    pub timestamp_ms: u64,
    pub hash: String,
}

/// Hyperliquid's side mapping: `"A"` (an ask-side fill) is a sell, `"B"`
/// and any unrecognized value map to buy.
pub open spec fn spec_hyperliquid_side(side: Seq<char>) -> Side {
    if side == "A"@ {
        Side::Sell
    } else {
        Side::Buy
    }
}

/// Maps Hyperliquid's native side string; pure and total.
pub fn hyperliquid_side(side: &str) -> (r: Side)
    ensures
        r == spec_hyperliquid_side(side@),
{
    if str_eq_str(side, "A") {
        Side::Sell
    } else {
        Side::Buy
    }
}

/// Whether a message's channel carries trades; every other channel is
/// discarded.
pub fn hyperliquid_channel_is_trades(channel: &str) -> (r: bool)
    ensures
        r == (channel@ == "trades"@),
{
    str_eq_str(channel, "trades")
}

/// Hyperliquid's single websocket endpoint, shared by all market types.
pub fn get_websocket_url() -> (r: &'static str)
    ensures
        r@ == "wss://api.hyperliquid.xyz/ws"@,
{
    "wss://api.hyperliquid.xyz/ws"
}

/// Normalizes one Hyperliquid trade into the canonical model: the coin is
/// the symbol, the transaction hash the native trade id, and decimal
/// strings become fixed-point values (malformed ones degrade to zero).
pub fn normalize_hyperliquid(market_type: MarketType, data: HyperliquidTrade) -> (t: Trade)
    ensures
        t.exchange@ == "hyperliquid"@,
        t.market_type == market_type,
        t.symbol@ == data.coin@,
        t.trade_id@ == data.hash@,
        t.price == spec_parse_fixed(data.price@),
        t.quantity == spec_parse_fixed(data.quantity@),
        t.side == spec_hyperliquid_side(data.side@),
        t.timestamp_ms == data.timestamp_ms,
{
    let price = parse_fixed(data.price.as_str());
    let quantity = parse_fixed(data.quantity.as_str());
    let side = hyperliquid_side(data.side.as_str());
    Trade::new(
        "hyperliquid".to_owned(),
        market_type,
        data.coin,
        data.hash,
        price,
        quantity,
        side,
        data.timestamp_ms,
    )
}

} // verus!
