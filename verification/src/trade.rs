use vstd::prelude::*;
use crate::market_type::MarketType;

verus! {

/// The exchanges the first feed adapters covered; adapters identify
/// themselves to the engine by the exchange name they stamp on trades.
#[derive(Debug, Clone, Copy, PartialEq, Eq, Structural)]
pub enum Exchange {
    Bybit,
    Binance,
}

/// The aggressor side of an execution: `Buy` means the aggressor bought
/// (an ask-side execution), `Sell` means the aggressor sold (bid-side).
#[derive(Debug, Clone, Copy, PartialEq, Eq, Structural)]
pub enum Side {
    Buy,
    Sell,
}

/// One normalized exchange execution, the unit passed from the feed
/// adapters to the aggregation engine. Immutable once constructed.
///
/// `price` and `quantity` are fixed-point values with eight decimal places
/// (a stored value of 100_000_000 is 1.0); `timestamp_ms` is the execution
/// time in milliseconds since the Unix epoch, UTC.
#[derive(Debug, Clone)]
pub struct Trade {
    pub id: u128,
    pub exchange: String,
    pub market_type: MarketType,
    pub symbol: String,
    pub trade_id: String,
    pub price: u64,
    pub quantity: u64,
    pub side: Side,
    pub timestamp_ms: u64,
}

impl Trade {
    /// Builds a trade from normalized fields, stamping it with a fresh
    /// synthetic id. Every other field is taken as given.
    pub fn new(
        exchange: String,
        market_type: MarketType,
        symbol: String,
        trade_id: String,
        price: u64,
        quantity: u64,
        side: Side,
        timestamp_ms: u64,
    ) -> (r: Trade)
        ensures
            (r.id >> 76) & 0xf == 4,
            (r.id >> 62) & 0x3 == 2,
            r.exchange@ == exchange@,
            r.market_type == market_type,
            r.symbol@ == symbol@,
            r.trade_id@ == trade_id@,
            r.price == price,
            r.quantity == quantity,
            r.side == side,
            r.timestamp_ms == timestamp_ms,
    {
        Trade {
            id: crate::ids::new_uuid_v4(),
            exchange,
            market_type,
            symbol,
            trade_id,
            price,
            quantity,
            side,
            timestamp_ms,
        }
    }
}

} // verus!
