use vstd::prelude::*;

verus! {

/// The errors the candle sink contract can answer with.
#[derive(Debug, Clone, Copy, PartialEq, Eq, Structural)]
pub enum SinkError {
    /// The candle's period is not one the sink stores.
    UnsupportedPeriod,
}

/// The period lengths, in seconds, the sink accepts.
pub open spec fn spec_supported_period(period_seconds: u32) -> bool {
    ||| period_seconds == 1
    ||| period_seconds == 5
    ||| period_seconds == 10
    ||| period_seconds == 30
    ||| period_seconds == 60
    ||| period_seconds == 300
    ||| period_seconds == 900
    ||| period_seconds == 1800
    ||| period_seconds == 3600
    ||| period_seconds == 7200
    ||| period_seconds == 14400
    ||| period_seconds == 86400
}

/// The collection a supported period's candles are routed to.
pub open spec fn spec_collection_name(period_seconds: u32) -> Seq<char> {
    if period_seconds == 1 {
        "candles_1s"@
    } else if period_seconds == 5 {
        "candles_5s"@
    } else if period_seconds == 10 {
        "candles_10s"@
    } else if period_seconds == 30 {
        "candles_30s"@
    } else if period_seconds == 60 {
        "candles_1m"@
    } else if period_seconds == 300 {
        "candles_5m"@
    } else if period_seconds == 900 {
        "candles_15m"@
    } else if period_seconds == 1800 {
        "candles_30m"@
    } else if period_seconds == 3600 {
        "candles_1h"@
    } else if period_seconds == 7200 {
        "candles_2h"@
    } else if period_seconds == 14400 {
        "candles_4h"@
    } else if period_seconds == 86400 {
        "candles_1d"@
    } else {
        Seq::<char>::empty()
    }
}

/// Routes a candle period to its storage collection. Exactly the periods
/// of `spec_supported_period` are accepted; any other period is rejected
/// with `UnsupportedPeriod`.
pub fn collection_name_for_period(period_seconds: u32) -> (r: Result<&'static str, SinkError>)
    ensures
        r is Ok <==> spec_supported_period(period_seconds),
        r matches Ok(name) ==> name@ == spec_collection_name(period_seconds),
{
    match period_seconds {
        1 => Ok("candles_1s"),
        5 => Ok("candles_5s"),
        10 => Ok("candles_10s"),
        30 => Ok("candles_30s"),
        60 => Ok("candles_1m"),
        300 => Ok("candles_5m"),
        900 => Ok("candles_15m"),
        1800 => Ok("candles_30m"),
        3600 => Ok("candles_1h"),
        7200 => Ok("candles_2h"),
        14400 => Ok("candles_4h"),
        86400 => Ok("candles_1d"),
        _ => Err(SinkError::UnsupportedPeriod),
    }
}

} // verus!
