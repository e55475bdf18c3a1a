use kkcrypto::market_type::MarketType;
use kkcrypto::trade::{Side, Trade};
use kkcrypto::trade_candle_buffer::TradeCandleBuffer;
use kkcrypto::trade_candle_builder::{BufferEntry, BufferKey, TradeCandleBuilder};

// prices and quantities are fixed point with eight decimal places
const ONE: u64 = 100_000_000;

fn trade(price_units: u64, qty_units: u64, side: Side, ts_ms: u64) -> Trade {
    Trade::new(
        "binance".to_string(),
        MarketType::Spot,
        "BTCUSDT".to_string(),
        "1".to_string(),
        price_units * ONE,
        qty_units * ONE,
        side,
        ts_ms,
    )
}

#[test]
fn vwap_of_same_side_sequence_is_weighted_average() {
    // quantities 1, 3; prices 100, 104: VWAP = (100*1 + 104*3) / 4 = 103
    let mut builder = TradeCandleBuilder::new(vec![60]);
    for (p, q) in [(100u64, 1u64), (104, 3)] {
        let t = trade(p, q, Side::Buy, 1_000);
        assert!(builder.accepts_trade(&t));
        builder.process_trade(&t);
    }
    let b = builder
        .get_buffer("binance", MarketType::Spot, "BTCUSDT", 60)
        .expect("buffer exists");
    assert_eq!(b.ask.count, 2);
    assert_eq!(b.ask.volume, 4 * ONE as u128);
    assert_eq!(b.ask.pq, (100 * 1 + 104 * 3) * (ONE as u128) * (ONE as u128));
    let candles = builder.flush_candles_for_timeframe(60);
    assert_eq!(candles.len(), 1);
    assert_eq!(candles[0].ask_price, Some(103 * ONE));
    assert_eq!(candles[0].ask_count, 2);
}

#[test]
fn empty_buffer_emits_no_candle_but_is_removed() {
    let mut builder = TradeCandleBuilder::new(vec![5]);
    // a buffer that saw no executions on either side
    builder.buffers.push(BufferEntry {
        key: BufferKey {
            exchange: "binance".to_string(),
            market_type: MarketType::Spot,
            symbol: "BTCUSDT".to_string(),
            timeframe: 5,
        },
        buffer: TradeCandleBuffer::new(1_000),
    });
    let candles = builder.flush_candles_for_timeframe(5);
    assert_eq!(candles.len(), 0);
    assert!(builder
        .get_buffer("binance", MarketType::Spot, "BTCUSDT", 5)
        .is_none());
}

#[test]
fn flush_of_idle_engine_emits_nothing() {
    let mut builder = TradeCandleBuilder::new(vec![1, 5]);
    assert_eq!(builder.flush_candles_for_timeframe(1).len(), 0);
    assert_eq!(builder.flush_candles_for_timeframe(5).len(), 0);
}

#[test]
fn one_trade_updates_every_configured_timeframe() {
    let mut builder = TradeCandleBuilder::new(vec![1, 5]);
    let t = trade(100, 1, Side::Buy, 42_000);
    assert!(builder.accepts_trade(&t));
    builder.process_trade(&t);
    for tf in [1u32, 5] {
        let b = builder
            .get_buffer("binance", MarketType::Spot, "BTCUSDT", tf)
            .expect("buffer for every timeframe");
        assert_eq!(b.ask.count, 1);
        assert_eq!(b.ask.volume, ONE as u128);
        assert_eq!(b.bid.count, 0);
        assert_eq!(b.timestamp_ms, 42_000);
    }
}

#[test]
fn flush_removes_timeframe_and_next_trade_starts_fresh() {
    let mut builder = TradeCandleBuilder::new(vec![1, 5]);
    let t = trade(100, 2, Side::Sell, 10_000);
    builder.process_trade(&t);
    let candles = builder.flush_candles_for_timeframe(1);
    assert_eq!(candles.len(), 1);
    // every 1s buffer is gone, the 5s buffer is untouched
    assert!(builder
        .get_buffer("binance", MarketType::Spot, "BTCUSDT", 1)
        .is_none());
    assert_eq!(
        builder
            .get_buffer("binance", MarketType::Spot, "BTCUSDT", 5)
            .expect("5s untouched")
            .bid
            .count,
        1
    );
    // a later trade for the flushed key starts over with count 1
    let t2 = trade(101, 1, Side::Sell, 11_000);
    builder.process_trade(&t2);
    let b = builder
        .get_buffer("binance", MarketType::Spot, "BTCUSDT", 1)
        .expect("fresh buffer");
    assert_eq!(b.bid.count, 1);
    assert_eq!(b.timestamp_ms, 11_000);
    let b5 = builder
        .get_buffer("binance", MarketType::Spot, "BTCUSDT", 5)
        .expect("5s accumulated");
    assert_eq!(b5.bid.count, 2);
}

#[test]
fn end_to_end_scenario_two_buys_one_sell() {
    // feed (buy 100 q1), (buy 102 q1), (sell 98 q2) in one window:
    // ask{price 101, volume 2, count 2}, bid{price 98, volume 2, count 1}
    let mut builder = TradeCandleBuilder::new(vec![60]);
    for (p, q, side) in [
        (100u64, 1u64, Side::Buy),
        (102, 1, Side::Buy),
        (98, 2, Side::Sell),
    ] {
        let t = trade(p, q, side, 1_700_000_003_456);
        assert!(builder.accepts_trade(&t));
        builder.process_trade(&t);
    }
    let candles = builder.flush_candles_for_timeframe(60);
    assert_eq!(candles.len(), 1);
    let c = &candles[0];
    assert_eq!(c.exchange, "binance");
    assert_eq!(c.symbol, "BTCUSDT");
    assert_eq!(c.market_type, MarketType::Spot);
    assert_eq!(c.period_seconds, 60);
    assert_eq!(c.ask_price, Some(101 * ONE));
    assert_eq!(c.ask_volume, 2 * ONE as u128);
    assert_eq!(c.ask_count, 2);
    assert_eq!(c.bid_price, Some(98 * ONE));
    assert_eq!(c.bid_volume, 2 * ONE as u128);
    assert_eq!(c.bid_count, 1);
    // bucket timestamp is floor-aligned to the 60 s period
    assert_eq!(c.timestamp_ms, 1_699_999_980_000);
}

#[test]
fn buffers_are_keyed_per_exchange_and_symbol() {
    let mut builder = TradeCandleBuilder::new(vec![1]);
    let a = trade(100, 1, Side::Buy, 1_000);
    let mut b = Trade::new(
        "bybit".to_string(),
        MarketType::Spot,
        "BTCUSDT".to_string(),
        "x".to_string(),
        200 * ONE,
        ONE,
        Side::Buy,
        1_000,
    );
    builder.process_trade(&a);
    builder.process_trade(&b);
    b.symbol = "ETHUSDT".to_string();
    builder.process_trade(&b);
    assert_eq!(builder.buffers.len(), 3);
    let binance = builder
        .get_buffer("binance", MarketType::Spot, "BTCUSDT", 1)
        .unwrap();
    assert_eq!(binance.ask.count, 1);
    let bybit = builder
        .get_buffer("bybit", MarketType::Spot, "BTCUSDT", 1)
        .unwrap();
    assert_eq!(bybit.ask.pq, 200u128 * ONE as u128 * ONE as u128);
}

#[test]
fn zero_quantity_trade_counts_but_leaves_price_null() {
    // a malformed quantity degrades to zero: the execution is counted but
    // contributes no volume, so the emitted side price stays null
    let mut builder = TradeCandleBuilder::new(vec![1]);
    let t = trade(5, 0, Side::Buy, 1_000);
    builder.process_trade(&t);
    let candles = builder.flush_candles_for_timeframe(1);
    assert_eq!(candles.len(), 1);
    assert_eq!(candles[0].ask_count, 1);
    assert_eq!(candles[0].ask_volume, 0);
    assert_eq!(candles[0].ask_price, None);
}

#[test]
fn bucket_timestamp_is_floor_aligned() {
    let builder = TradeCandleBuilder::new(vec![5]);
    assert_eq!(builder.get_candle_timestamp(1_700_000_003_456, 5), 1_700_000_000_000);
    assert_eq!(builder.get_candle_timestamp(4_999, 5), 0);
    assert_eq!(builder.get_candle_timestamp(5_000, 5), 5_000);
    assert_eq!(builder.get_candle_timestamp(59_999, 60), 0);
    assert_eq!(builder.get_candle_timestamp(60_000, 60), 60_000);
}

#[test]
fn trade_ids_are_version_four_uuids() {
    let t = trade(1, 1, Side::Buy, 0);
    assert_eq!((t.id >> 76) & 0xf, 4);
    assert_eq!((t.id >> 62) & 0x3, 0b10);
    let u = trade(1, 1, Side::Buy, 0);
    assert_ne!(t.id, u.id);
}
