use vstd::prelude::*;
use vstd::arithmetic::div_mod::{
    lemma_div_is_ordered, lemma_div_multiples_vanish, lemma_fundamental_div_mod,
    lemma_mod_division_less_than_divisor,
};
use vstd::arithmetic::mul::{
    lemma_mul_inequality, lemma_mul_is_commutative, lemma_mul_nonnegative,
};
use crate::market_type::MarketType;
use crate::trade::{Side, Trade};
use crate::trade_candle::{spec_bucket_timestamp_ms, TradeCandle};

verus! {

/// The running aggregate of one side of a buffer. The volume-weighted
/// average price is held exactly as a fraction: `pq` is the sum of
/// `price * quantity` over the side's executions and `volume` the sum of
/// the quantities, both in fixed-point units; `count` is the number of
/// executions.
#[derive(Debug, Clone, Copy, PartialEq, Eq, Structural)]
pub struct SideAccum {
    pub pq: u128,
    pub volume: u128,
    pub count: u64,
}

impl SideAccum {
    /// The accumulator's internal invariant: the weighted sum never exceeds
    /// `volume` times the largest representable price (so the average fits
    /// a `u64`), and a side with volume has seen at least one execution.
    pub open spec fn wf(self) -> bool {
        &&& self.pq as int <= self.volume as int * u64::MAX as int
        &&& self.volume > 0 ==> self.count > 0
    }

    /// A side that has seen no executions.
    pub open spec fn spec_empty() -> SideAccum {
        SideAccum { pq: 0, volume: 0, count: 0 }
    }

    /// Whether one more execution at `price` and `quantity` fits without
    /// overflowing any accumulator field.
    pub open spec fn spec_can_add(self, price: u64, quantity: u64) -> bool {
        &&& self.count < u64::MAX
        &&& self.volume + quantity <= u128::MAX
        &&& self.pq + price * quantity <= u128::MAX
    }

    /// The incremental update rule: one execution adds its quantity to the
    /// volume, its `price * quantity` to the weighted sum, and one to the
    /// count.
    pub open spec fn spec_add(self, price: u64, quantity: u64) -> SideAccum
        recommends
            self.spec_can_add(price, quantity),
    {
        SideAccum {
            pq: (self.pq + price * quantity) as u128,
            volume: (self.volume + quantity) as u128,
            count: (self.count + 1) as u64,
        }
    }

    /// The side's volume-weighted average price, rounded down: the exact
    /// quotient of the weighted sum by the volume, `None` while the volume
    /// is zero.
    pub open spec fn spec_vwap(self) -> Option<u64> {
        if self.volume > 0 {
            Some((self.pq as int / self.volume as int) as u64)
        } else {
            None
        }
    }

    pub fn empty() -> (r: SideAccum)
        ensures
            r == Self::spec_empty(),
    {
        SideAccum { pq: 0, volume: 0, count: 0 }
    }

    pub fn can_add(&self, price: u64, quantity: u64) -> (r: bool)
        ensures
            r == self.spec_can_add(price, quantity),
    {
        proof {
            lemma_mul_inequality(price as int, u64::MAX as int, quantity as int);
        }
        let prod: u128 = (price as u128) * (quantity as u128);
        self.count < u64::MAX && quantity as u128 <= u128::MAX - self.volume && prod
            <= u128::MAX - self.pq
    }

    /// Applies one execution; the exact incremental volume-weighted update.
    pub fn add(&mut self, price: u64, quantity: u64)
        requires
            old(self).wf(),
            old(self).spec_can_add(price, quantity),
        ensures
            final(self).wf(),
            *final(self) == old(self).spec_add(price, quantity),
    {
        proof {
            lemma_mul_inequality(price as int, u64::MAX as int, quantity as int);
            let s = *old(self);
            assert(s.pq as int + price as int * quantity as int <= (s.volume as int
                + quantity as int) * u64::MAX as int) by (nonlinear_arith)
                requires
                    s.pq as int <= s.volume as int * u64::MAX as int,
                    price as int * quantity as int <= u64::MAX as int * quantity as int,
            ;
        }
        let prod: u128 = (price as u128) * (quantity as u128);
        self.pq = self.pq + prod;
        self.volume = self.volume + (quantity as u128);
        self.count = self.count + 1;
    }

    pub fn vwap(&self) -> (r: Option<u64>)
        requires
            self.wf(),
        ensures
            r == self.spec_vwap(),
    {
        if self.volume > 0 {
            proof {
                self.lemma_vwap_bounded();
            }
            Some((self.pq / self.volume) as u64)
        } else {
            None
        }
    }

    /// A well-formed side's average price never exceeds the largest single
    /// execution price representable, so the quotient fits a `u64`.
    pub proof fn lemma_vwap_bounded(self)
        requires
            self.wf(),
            self.volume > 0,
        ensures
            0 <= self.pq as int / self.volume as int <= u64::MAX,
    {
        lemma_div_is_ordered(
            self.pq as int,
            self.volume as int * u64::MAX as int,
            self.volume as int,
        );
        lemma_div_multiples_vanish(u64::MAX as int, self.volume as int);
    }
}

/// The in-progress accumulator for one (exchange, market type, symbol,
/// timeframe) key between flushes: one running aggregate per aggressor
/// side, and the timestamp of the buffer's first contributing trade, from
/// which the emitted candle's bucket timestamp is derived.
#[derive(Debug, Clone, Copy, PartialEq, Eq, Structural)]
pub struct TradeCandleBuffer {
    pub ask: SideAccum,
    pub bid: SideAccum,
    pub timestamp_ms: u64,
}

impl TradeCandleBuffer {
    pub open spec fn wf(self) -> bool {
        self.ask.wf() && self.bid.wf()
    }

    /// A fresh buffer holding no executions, stamped with the timestamp of
    /// the trade that caused its creation.
    pub open spec fn spec_new(timestamp_ms: u64) -> TradeCandleBuffer {
        TradeCandleBuffer {
            ask: SideAccum::spec_empty(),
            bid: SideAccum::spec_empty(),
            timestamp_ms,
        }
    }

    /// The side a trade updates: a buy (ask-side execution) feeds `ask`, a
    /// sell (bid-side execution) feeds `bid`.
    pub open spec fn side(self, side: Side) -> SideAccum {
        match side {
            Side::Buy => self.ask,
            Side::Sell => self.bid,
        }
    }

    pub open spec fn spec_can_update(self, trade: Trade) -> bool {
        self.side(trade.side).spec_can_add(trade.price, trade.quantity)
    }

    /// The buffer after one trade: the trade's side is updated by the
    /// incremental rule, the other side and the first-trade timestamp are
    /// untouched.
    pub open spec fn spec_update(self, trade: Trade) -> TradeCandleBuffer
        recommends
            self.spec_can_update(trade),
    {
        match trade.side {
            Side::Buy => TradeCandleBuffer {
                ask: self.ask.spec_add(trade.price, trade.quantity),
                ..self
            },
            Side::Sell => TradeCandleBuffer {
                bid: self.bid.spec_add(trade.price, trade.quantity),
                ..self
            },
        }
    }

    /// Whether a flush emits a candle for this buffer: it does exactly when
    /// some side has seen an execution.
    pub open spec fn has_data(self) -> bool {
        self.ask.count > 0 || self.bid.count > 0
    }

    pub fn new(timestamp_ms: u64) -> (r: TradeCandleBuffer)
        ensures
            r == Self::spec_new(timestamp_ms),
            r.wf(),
    {
        TradeCandleBuffer { ask: SideAccum::empty(), bid: SideAccum::empty(), timestamp_ms }
    }

    pub fn can_update(&self, trade: &Trade) -> (r: bool)
        ensures
            r == self.spec_can_update(*trade),
    {
        match trade.side {
            Side::Buy => self.ask.can_add(trade.price, trade.quantity),
            Side::Sell => self.bid.can_add(trade.price, trade.quantity),
        }
    }

    /// Applies one trade to the side it executed on.
    pub fn update(&mut self, trade: &Trade)
        requires
            old(self).wf(),
            old(self).spec_can_update(*trade),
        ensures
            final(self).wf(),
            *final(self) == old(self).spec_update(*trade),
    {
        match trade.side {
            Side::Buy => self.ask.add(trade.price, trade.quantity),
            Side::Sell => self.bid.add(trade.price, trade.quantity),
        }
    }

    /// Snapshots the buffer as an immutable candle for the given key. The
    /// bucket timestamp is the buffer's first-trade timestamp floored to a
    /// period boundary; each side carries its volume-weighted average
    /// price, total volume and execution count.
    pub fn to_trade_candle(
        &self,
        exchange: String,
        market_type: MarketType,
        symbol: String,
        period_seconds: u32,
    ) -> (r: TradeCandle)
        requires
            self.wf(),
            period_seconds >= 1,
        ensures
            spec_candle_of(r, *self, exchange@, market_type, symbol@, period_seconds),
    {
        let timestamp_ms = bucket_timestamp_ms(self.timestamp_ms, period_seconds);
        TradeCandle {
            id: crate::ids::new_uuid_v4(),
            exchange,
            market_type,
            symbol,
            timestamp_ms,
            period_seconds,
            ask_price: self.ask.vwap(),
            ask_volume: self.ask.volume,
            ask_count: self.ask.count,
            bid_price: self.bid.vwap(),
            bid_volume: self.bid.volume,
            bid_count: self.bid.count,
        }
    }
}

/// The accumulator a sequence of same-side executions leaves, applied in
/// order through the incremental update rule.
pub open spec fn spec_add_all(s: SideAccum, trades: Seq<(u64, u64)>) -> SideAccum
    decreases trades.len(),
{
    if trades.len() == 0 {
        s
    } else {
        spec_add_all(s, trades.drop_last()).spec_add(trades.last().0, trades.last().1)
    }
}

/// The sum of `price * quantity` over a sequence of executions.
pub open spec fn spec_weighted_sum(trades: Seq<(u64, u64)>) -> int
    decreases trades.len(),
{
    if trades.len() == 0 {
        0
    } else {
        spec_weighted_sum(trades.drop_last()) + trades.last().0 * trades.last().1
    }
}

/// The sum of quantities over a sequence of executions.
pub open spec fn spec_volume_sum(trades: Seq<(u64, u64)>) -> int
    decreases trades.len(),
{
    if trades.len() == 0 {
        0
    } else {
        spec_volume_sum(trades.drop_last()) + trades.last().1
    }
}

/// Law: for any sequence of same-side executions with prices `p_i` and
/// quantities `q_i` fed, in order, into an empty accumulator, the
/// accumulator holds exactly `sum(p_i * q_i)` and `sum(q_i)`, counts every
/// execution, and its volume-weighted average price is exactly
/// `sum(p_i * q_i) / sum(q_i)`, rounded down, once any volume arrived.
pub proof fn lemma_vwap_of_sequence(trades: Seq<(u64, u64)>)
    requires
        trades.len() <= u64::MAX,
        spec_weighted_sum(trades) <= u128::MAX,
        spec_volume_sum(trades) <= u128::MAX,
    ensures
        spec_add_all(SideAccum::spec_empty(), trades).pq == spec_weighted_sum(trades),
        spec_add_all(SideAccum::spec_empty(), trades).volume == spec_volume_sum(trades),
        spec_add_all(SideAccum::spec_empty(), trades).count == trades.len(),
        spec_volume_sum(trades) > 0 ==> spec_add_all(SideAccum::spec_empty(), trades).spec_vwap()
            == Some((spec_weighted_sum(trades) / spec_volume_sum(trades)) as u64),
    decreases trades.len(),
{
    if trades.len() > 0 {
        lemma_mul_nonnegative(trades.last().0 as int, trades.last().1 as int);
        lemma_vwap_of_sequence(trades.drop_last());
    }
}

/// A freshly created buffer can absorb any single trade: its accumulators
/// are zero and one execution's weighted price always fits.
pub proof fn lemma_fresh_can_update(t: Trade)
    ensures
        TradeCandleBuffer::spec_new(t.timestamp_ms).spec_can_update(t),
{
    assert(t.price as int * t.quantity as int <= u128::MAX) by (nonlinear_arith)
        requires
            t.price <= u64::MAX,
            t.quantity <= u64::MAX,
    ;
}

/// Relates a candle to the buffer it snapshots and the key it is emitted
/// under; every candle field but the random synthetic id is pinned.
pub open spec fn spec_candle_of(
    c: TradeCandle,
    b: TradeCandleBuffer,
    exchange: Seq<char>,
    market_type: MarketType,
    symbol: Seq<char>,
    period_seconds: u32,
) -> bool {
    &&& c.exchange@ == exchange
    &&& c.market_type == market_type
    &&& c.symbol@ == symbol
    &&& c.period_seconds == period_seconds
    &&& c.timestamp_ms == spec_bucket_timestamp_ms(b.timestamp_ms, period_seconds)
    &&& c.ask_price == b.ask.spec_vwap()
    &&& c.ask_volume == b.ask.volume
    &&& c.ask_count == b.ask.count
    &&& c.bid_price == b.bid.spec_vwap()
    &&& c.bid_volume == b.bid.volume
    &&& c.bid_count == b.bid.count
}

/// Floors a millisecond timestamp to the start of its `period_seconds`
/// bucket, at one-second granularity.
pub fn bucket_timestamp_ms(ts_ms: u64, period_seconds: u32) -> (r: u64)
    requires
        period_seconds >= 1,
    ensures
        r == spec_bucket_timestamp_ms(ts_ms, period_seconds),
{
    let secs: u64 = ts_ms / 1000;
    let p: u64 = period_seconds as u64;
    proof {
        lemma_fundamental_div_mod(secs as int, p as int);
        lemma_mod_division_less_than_divisor(secs as int, p as int);
        lemma_mul_is_commutative(p as int, secs as int / p as int);
        lemma_fundamental_div_mod(ts_ms as int, 1000);
        lemma_mod_division_less_than_divisor(ts_ms as int, 1000);
    }
    let start: u64 = (secs / p) * p;
    start * 1000
}

} // verus!
