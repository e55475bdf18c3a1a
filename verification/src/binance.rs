use vstd::prelude::*;
use crate::market_type::MarketType;
use crate::numeric::{parse_fixed, spec_parse_fixed, spec_u64_digits, u64_to_string};
use crate::strutil::{ascii_lowercase, lower_fn, str_eq_str};
use crate::trade::{Side, Trade};

verus! {

/// The fields of one Binance aggregate-trade event, as its wire schema
/// carries them (prices and quantities arrive as decimal strings).
pub struct BinanceAggTrade {
    pub event_type: String,
    pub symbol: String,
    pub price: String,
    pub quantity: String,
    pub is_buyer_maker: bool,
    pub timestamp_ms: u64,
    pub trade_id: u64,
}

/// Binance's side mapping: `is_buyer_maker = true` is a buy (an ask-side
/// execution), `false` a sell.
pub open spec fn spec_binance_side(is_buyer_maker: bool) -> Side {
    if is_buyer_maker {
        Side::Buy
    } else {
        Side::Sell
    }
}

/// Maps Binance's maker flag to the canonical side; pure and total.
pub fn binance_side(is_buyer_maker: bool) -> (r: Side)
    ensures
        r == spec_binance_side(is_buyer_maker),
{
    if is_buyer_maker {
        Side::Buy
    } else {
        Side::Sell
    }
}

/// Normalizes one Binance event into the canonical model. Only events of
/// type `aggTrade` are trades; everything else is discarded. Decimal
/// price and quantity strings become fixed-point values (malformed ones
/// degrade to zero), and the numeric aggregate-trade id is rendered in
/// decimal as the native trade id.
pub fn normalize_binance(market_type: MarketType, data: BinanceAggTrade) -> (r: Option<Trade>)
    ensures
        r is Some <==> data.event_type@ == "aggTrade"@,
        r matches Some(t) ==> t.exchange@ == "binance"@ && t.market_type == market_type
            && t.symbol@ == data.symbol@ && t.trade_id@ == spec_u64_digits(data.trade_id as nat)
            && t.price == spec_parse_fixed(data.price@) && t.quantity == spec_parse_fixed(
            data.quantity@,
        ) && t.side == spec_binance_side(data.is_buyer_maker) && t.timestamp_ms
            == data.timestamp_ms,
{
    if str_eq_str(data.event_type.as_str(), "aggTrade") {
        let price = parse_fixed(data.price.as_str());
        let quantity = parse_fixed(data.quantity.as_str());
        let side = binance_side(data.is_buyer_maker);
        Some(
            Trade::new(
                "binance".to_owned(),
                market_type,
                data.symbol,
                u64_to_string(data.trade_id),
                price,
                quantity,
                side,
                data.timestamp_ms,
            ),
        )
    } else {
        None
    }
}

/// The base endpoint for each Binance market segment.
pub open spec fn spec_binance_base_url(market_type: MarketType) -> Seq<char> {
    match market_type {
        MarketType::Spot => "wss://stream.binance.com:9443"@,
        MarketType::Linear => "wss://fstream.binance.com"@,
        MarketType::Inverse => "wss://dstream.binance.com"@,
    }
}

/// One symbol's stream name: the lowercased symbol with the aggregate
/// trade suffix.
pub open spec fn spec_binance_stream(symbol: Seq<char>) -> Seq<char> {
    symbol.map_values(lower_fn()) + "@aggTrade"@
}

/// Several symbols' stream names joined with `/`.
pub open spec fn spec_binance_streams(symbols: Seq<Seq<char>>) -> Seq<char>
    decreases symbols.len(),
{
    if symbols.len() == 0 {
        Seq::<char>::empty()
    } else if symbols.len() == 1 {
        spec_binance_stream(symbols[0])
    } else {
        spec_binance_streams(symbols.drop_last()) + "/"@ + spec_binance_stream(symbols.last())
    }
}

/// The full websocket URL: a single symbol uses the raw-stream form, any
/// other count the combined-stream form.
pub open spec fn spec_binance_websocket_url(
    market_type: MarketType,
    symbols: Seq<Seq<char>>,
) -> Seq<char> {
    if symbols.len() == 1 {
        spec_binance_base_url(market_type) + "/ws/"@ + spec_binance_stream(symbols[0])
    } else {
        spec_binance_base_url(market_type) + "/stream?streams="@ + spec_binance_streams(symbols)
    }
}

/// Resolves the endpoint URL that subscribes to the given symbols'
/// aggregate trades on the given market segment.
pub fn build_websocket_url(market_type: &MarketType, symbols: &Vec<String>) -> (r: String)
    ensures
        r@ == spec_binance_websocket_url(
            *market_type,
            symbols@.map_values(|s: String| s@),
        ),
{
    let ghost views = symbols@.map_values(|s: String| s@);
    let mut streams = String::new();
    let n = symbols.len();
    for i in 0..n
        invariant
            n == symbols@.len(),
            views == symbols@.map_values(|s: String| s@),
            streams@ == spec_binance_streams(views.subrange(0, i as int)),
    {
        if i > 0 {
            streams.append("/");
        }
        let lowered = ascii_lowercase(symbols[i].as_str());
        streams.append(lowered.as_str());
        streams.append("@aggTrade");
        proof {
            assert(views.subrange(0, i as int + 1) =~= views.subrange(0, i as int).push(
                views[i as int],
            ));
            assert(views.subrange(0, i as int + 1).drop_last() =~= views.subrange(0, i as int));
            if i == 0 {
                assert(streams@ =~= spec_binance_stream(views[0]));
            } else {
                assert(streams@ =~= spec_binance_streams(views.subrange(0, i as int)) + "/"@
                    + spec_binance_stream(views[i as int]));
            }
        }
    }
    proof {
        assert(views.subrange(0, n as int) =~= views);
    }
    let base = match market_type {
        MarketType::Spot => "wss://stream.binance.com:9443",
        MarketType::Linear => "wss://fstream.binance.com",
        MarketType::Inverse => "wss://dstream.binance.com",
    };
    let mut url = base.to_owned();
    if n == 1 {
        url.append("/ws/");
    } else {
        url.append("/stream?streams=");
    }
    url.append(streams.as_str());
    url
}

} // verus!
