//! Real-time trade aggregation: canonical trade model, per-exchange message
//! normalization, and a multi-timeframe candle aggregation engine.
//!
//! Prices and quantities are fixed-point integers with eight decimal places
//! (one unit is 10^-8), so every running aggregate is exact: a side's
//! volume-weighted average price is carried as the pair of its numerator
//! (sum of price times quantity) and denominator (sum of quantities).

pub mod market_type;
mod ids;
pub mod trade;
pub mod trade_candle;
pub mod trade_candle_buffer;
pub mod trade_candle_builder;
pub mod strutil;
pub mod numeric;
pub mod binance;
pub mod bybit;
pub mod hyperliquid;
pub mod sampler;
pub mod sink;
pub mod symbol_manager;

pub use market_type::MarketType;
