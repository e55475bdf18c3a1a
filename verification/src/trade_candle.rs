use vstd::prelude::*;
use crate::market_type::MarketType;

verus! {

/// The bucket timestamp a candle carries: the start of the period that
/// contains `ts_ms`, floor-aligned to a whole number of periods, in
/// milliseconds. Alignment is done at one-second granularity, as the
/// emitted candles carry second-precision bucket boundaries.
pub open spec fn spec_bucket_timestamp_ms(ts_ms: u64, period_seconds: u32) -> int
    recommends
        period_seconds >= 1,
{
    ((ts_ms as int / 1000) / (period_seconds as int)) * (period_seconds as int) * 1000
}

/// One completed fixed-interval aggregate for a (exchange, market type,
/// symbol, period) key, split by aggressor side. Produced only by a flush
/// and never mutated afterwards.
///
/// A side's `price` is the volume-weighted average price of its executions
/// (fixed point, eight decimal places, rounded down), `None` when the side
/// saw no volume. `volume` is the summed quantity and `count` the number of
/// executions.
#[derive(Debug, Clone)]
pub struct TradeCandle {
    pub id: u128,
    pub exchange: String,
    pub market_type: MarketType,
    pub symbol: String,
    pub timestamp_ms: u64,
    pub period_seconds: u32,

    pub ask_price: Option<u64>,
    pub ask_volume: u128,
    pub ask_count: u64,

    pub bid_price: Option<u64>,
    pub bid_volume: u128,
    pub bid_count: u64,
}

impl TradeCandle {
    /// An empty candle for the given key: no executions on either side.
    pub fn new(
        exchange: String,
        market_type: MarketType,
        symbol: String,
        timestamp_ms: u64,
        period_seconds: u32,
    ) -> (r: TradeCandle)
        ensures
            r.exchange@ == exchange@,
            r.market_type == market_type,
            r.symbol@ == symbol@,
            r.timestamp_ms == timestamp_ms,
            r.period_seconds == period_seconds,
            r.ask_price is None,
            r.ask_volume == 0,
            r.ask_count == 0,
            r.bid_price is None,
            r.bid_volume == 0,
            r.bid_count == 0,
    {
        TradeCandle {
            id: crate::ids::new_uuid_v4(),
            exchange,
            market_type,
            symbol,
            timestamp_ms,
            period_seconds,
            ask_price: None,
            ask_volume: 0,
            ask_count: 0,
            bid_price: None,
            bid_volume: 0,
            bid_count: 0,
        }
    }
}

} // verus!
