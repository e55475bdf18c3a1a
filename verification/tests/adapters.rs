use kkcrypto::binance::{binance_side, build_websocket_url, normalize_binance, BinanceAggTrade};
use kkcrypto::bybit::{
    bybit_side, bybit_subscribe_arg, bybit_topic_is_trade, normalize_bybit, BybitTrade,
};
use kkcrypto::hyperliquid::{
    hyperliquid_channel_is_trades, hyperliquid_side, normalize_hyperliquid, HyperliquidTrade,
};
use kkcrypto::market_type::MarketType;
use kkcrypto::sampler::RawSampler;
use kkcrypto::sink::{collection_name_for_period, SinkError};
use kkcrypto::symbol_manager::{SymbolManager, SymbolTableError};
use kkcrypto::trade::Side;

#[test]
fn side_mapping_is_pure_and_total() {
    assert_eq!(binance_side(true), Side::Buy);
    assert_eq!(binance_side(false), Side::Sell);
    assert_eq!(bybit_side("Buy"), Side::Buy);
    assert_eq!(bybit_side("Sell"), Side::Sell);
    assert_eq!(bybit_side("???"), Side::Buy);
    assert_eq!(bybit_side(""), Side::Buy);
    assert_eq!(hyperliquid_side("A"), Side::Sell);
    assert_eq!(hyperliquid_side("B"), Side::Buy);
    assert_eq!(hyperliquid_side("C"), Side::Buy);
}

#[test]
fn normalize_binance_agg_trade() {
    let data = BinanceAggTrade {
        event_type: "aggTrade".to_string(),
        symbol: "BTCUSDT".to_string(),
        price: "101.5".to_string(),
        quantity: "0.25".to_string(),
        is_buyer_maker: true,
        timestamp_ms: 1_700_000_003_456,
        trade_id: 26947949610,
    };
    let t = normalize_binance(MarketType::Linear, data).expect("aggTrade normalizes");
    assert_eq!(t.exchange, "binance");
    assert_eq!(t.market_type, MarketType::Linear);
    assert_eq!(t.symbol, "BTCUSDT");
    assert_eq!(t.trade_id, "26947949610");
    assert_eq!(t.price, 10_150_000_000);
    assert_eq!(t.quantity, 25_000_000);
    assert_eq!(t.side, Side::Buy);
    assert_eq!(t.timestamp_ms, 1_700_000_003_456);
}

#[test]
fn normalize_binance_discards_other_events() {
    let data = BinanceAggTrade {
        event_type: "depthUpdate".to_string(),
        symbol: "BTCUSDT".to_string(),
        price: "1".to_string(),
        quantity: "1".to_string(),
        is_buyer_maker: false,
        timestamp_ms: 0,
        trade_id: 0,
    };
    assert!(normalize_binance(MarketType::Spot, data).is_none());
}

#[test]
fn normalize_bybit_trade() {
    let data = BybitTrade {
        symbol: "ETHUSDT".to_string(),
        price: "2001.37".to_string(),
        quantity: "3".to_string(),
        side: "Sell".to_string(),
        timestamp_ms: 77,
        trade_id: "abc-123".to_string(),
    };
    let t = normalize_bybit(MarketType::Spot, data);
    assert_eq!(t.exchange, "bybit");
    assert_eq!(t.symbol, "ETHUSDT");
    assert_eq!(t.trade_id, "abc-123");
    assert_eq!(t.price, 200_137_000_000);
    assert_eq!(t.quantity, 300_000_000);
    assert_eq!(t.side, Side::Sell);
    assert_eq!(t.timestamp_ms, 77);
}

#[test]
fn normalize_bybit_malformed_price_degrades_to_zero() {
    let data = BybitTrade {
        symbol: "ETHUSDT".to_string(),
        price: "not-a-number".to_string(),
        quantity: "1".to_string(),
        side: "Buy".to_string(),
        timestamp_ms: 0,
        trade_id: "x".to_string(),
    };
    let t = normalize_bybit(MarketType::Spot, data);
    assert_eq!(t.price, 0);
    assert_eq!(t.quantity, 100_000_000);
}

#[test]
fn bybit_topic_filter_and_subscribe_arg() {
    assert!(bybit_topic_is_trade("publicTrade.BTCUSDT"));
    assert!(!bybit_topic_is_trade("orderbook.50.BTCUSDT"));
    assert_eq!(bybit_subscribe_arg("BTCUSDT"), "publicTrade.BTCUSDT");
}

#[test]
fn normalize_hyperliquid_trade() {
    let data = HyperliquidTrade {
        coin: "BTC".to_string(),
        side: "A".to_string(),
        price: "65000.5".to_string(),
        quantity: "0.002".to_string(),
        timestamp_ms: 99,
        hash: "0xdeadbeef".to_string(),
    };
    let t = normalize_hyperliquid(MarketType::Linear, data);
    assert_eq!(t.exchange, "hyperliquid");
    assert_eq!(t.symbol, "BTC");
    assert_eq!(t.trade_id, "0xdeadbeef");
    assert_eq!(t.price, 6_500_050_000_000);
    assert_eq!(t.quantity, 200_000);
    assert_eq!(t.side, Side::Sell);
    assert!(hyperliquid_channel_is_trades("trades"));
    assert!(!hyperliquid_channel_is_trades("l2Book"));
}

#[test]
fn websocket_urls() {
    assert_eq!(
        build_websocket_url(&MarketType::Spot, &vec!["BTCUSDT".to_string()]),
        "wss://stream.binance.com:9443/ws/btcusdt@aggTrade"
    );
    assert_eq!(
        build_websocket_url(
            &MarketType::Linear,
            &vec!["BTCUSDT".to_string(), "ETHUSDT".to_string()]
        ),
        "wss://fstream.binance.com/stream?streams=btcusdt@aggTrade/ethusdt@aggTrade"
    );
    assert_eq!(
        build_websocket_url(&MarketType::Inverse, &vec![]),
        "wss://dstream.binance.com/stream?streams="
    );
    assert_eq!(
        kkcrypto::bybit::get_websocket_url(&MarketType::Spot),
        "wss://stream.bybit.com/v5/public/spot"
    );
    assert_eq!(
        kkcrypto::bybit::get_websocket_url(&MarketType::Linear),
        "wss://stream.bybit.com/v5/public/linear"
    );
    assert_eq!(
        kkcrypto::bybit::get_websocket_url(&MarketType::Inverse),
        "wss://stream.bybit.com/v5/public/inverse"
    );
    assert_eq!(
        kkcrypto::hyperliquid::get_websocket_url(),
        "wss://api.hyperliquid.xyz/ws"
    );
}

#[test]
fn market_type_names() {
    assert_eq!(MarketType::Spot.as_str(), "spot");
    assert_eq!(MarketType::Linear.as_str(), "linear");
    assert_eq!(MarketType::Inverse.as_str(), "inverse");
}

#[test]
fn market_type_flags_demand_exactly_one() {
    assert_eq!(MarketType::from_flags(true, false, false), Some(MarketType::Spot));
    assert_eq!(MarketType::from_flags(false, true, false), Some(MarketType::Linear));
    assert_eq!(MarketType::from_flags(false, false, true), Some(MarketType::Inverse));
    assert_eq!(MarketType::from_flags(false, false, false), None);
    assert_eq!(MarketType::from_flags(true, true, false), None);
    assert_eq!(MarketType::from_flags(true, true, true), None);
}

#[test]
fn sanitize_timeframes_builds_a_set() {
    let input = vec![5u32, 1, 5, 0, 60, 1];
    assert_eq!(
        kkcrypto::trade_candle_builder::sanitize_timeframes(&input),
        vec![5, 1, 60]
    );
    let empty: Vec<u32> = Vec::new();
    assert_eq!(kkcrypto::trade_candle_builder::sanitize_timeframes(&empty), empty);
}

#[test]
fn sampler_flags_first_and_every_hundredth() {
    // raw sampling frequency 100: exactly ordinals 1, 101, 201 of the
    // first 250 frames are flagged, whatever the frames contain
    let mut sampler = RawSampler::new(100);
    let mut flagged = Vec::new();
    for k in 1u64..=250 {
        if sampler.note_frame() {
            flagged.push(k);
        }
    }
    assert_eq!(flagged, vec![1, 101, 201]);
}

#[test]
fn sampler_wraps_after_one_million_frames() {
    let mut sampler = RawSampler::new(100);
    for _ in 0..1_000_000 {
        sampler.note_frame();
    }
    // the counter wrapped, so the pattern restarts
    assert!(sampler.note_frame());
}

#[test]
fn collection_names_cover_supported_periods() {
    let cases: Vec<(u32, &str)> = vec![
        (1, "candles_1s"),
        (5, "candles_5s"),
        (10, "candles_10s"),
        (30, "candles_30s"),
        (60, "candles_1m"),
        (300, "candles_5m"),
        (900, "candles_15m"),
        (1800, "candles_30m"),
        (3600, "candles_1h"),
        (7200, "candles_2h"),
        (14400, "candles_4h"),
        (86400, "candles_1d"),
    ];
    for (period, name) in cases {
        assert_eq!(collection_name_for_period(period), Ok(name));
    }
    assert_eq!(collection_name_for_period(2), Err(SinkError::UnsupportedPeriod));
    assert_eq!(collection_name_for_period(0), Err(SinkError::UnsupportedPeriod));
    assert_eq!(collection_name_for_period(120), Err(SinkError::UnsupportedPeriod));
}

#[test]
fn symbol_manager_loads_and_looks_up() {
    let lines = vec![
        "id,symbol,exchange,market_type".to_string(),
        "1,BTCUSDT,binance,spot".to_string(),
        "2,ETHUSDT,bybit,linear".to_string(),
        "short,line".to_string(),
        "3,BTCUSDT,binance,spot".to_string(),
    ];
    let manager = SymbolManager::new(&lines).expect("table loads");
    // a later row overrides an earlier one with the same key
    assert_eq!(manager.get_symbol_id("binance", "BTCUSDT", "spot"), Some(3));
    assert_eq!(manager.get_symbol_id("bybit", "ETHUSDT", "linear"), Some(2));
    assert_eq!(manager.get_symbol_id("binance", "BTCUSDT", "linear"), None);
    assert_eq!(manager.get_symbol_id("hyperliquid", "BTC", "spot"), None);
}

#[test]
fn symbol_manager_rejects_bad_id() {
    let lines = vec![
        "id,symbol,exchange,market_type".to_string(),
        "abc,BTCUSDT,binance,spot".to_string(),
    ];
    match SymbolManager::new(&lines) {
        Err(e) => assert_eq!(e, SymbolTableError::InvalidId),
        Ok(_) => panic!("a bad id column must reject the whole file"),
    }
}

#[test]
fn symbol_manager_empty_and_header_only() {
    let empty: Vec<String> = Vec::new();
    let manager = SymbolManager::new(&empty).expect("empty table");
    assert_eq!(manager.get_symbol_id("binance", "BTCUSDT", "spot"), None);
    let header_only = vec!["id,symbol,exchange,market_type".to_string()];
    let manager = SymbolManager::new(&header_only).expect("header only");
    assert_eq!(manager.get_symbol_id("id", "symbol", "market_type"), None);
}
