use vstd::prelude::*;

verus! {

/// The market segment a trade or candle belongs to: spot, linear futures,
/// or inverse futures. Exactly one is configured per feed.
#[derive(Debug, Clone, Copy, PartialEq, Eq, Structural, Hash)]
pub enum MarketType {
    Spot,
    Linear,
    Inverse,
}

impl MarketType {
    /// Resolves the three command-line market flags: exactly one of them
    /// must be set, anything else is rejected.
    pub fn from_flags(spot: bool, linear: bool, inverse: bool) -> (r: Option<MarketType>)
        ensures
            spot && !linear && !inverse ==> r == Some(MarketType::Spot),
            !spot && linear && !inverse ==> r == Some(MarketType::Linear),
            !spot && !linear && inverse ==> r == Some(MarketType::Inverse),
            r is Some ==> (spot != linear || linear != inverse) && !(spot && linear) && !(spot
                && inverse) && !(linear && inverse),
            !spot && !linear && !inverse ==> r is None,
            spot && linear ==> r is None,
            spot && inverse ==> r is None,
            linear && inverse ==> r is None,
    {
        match (spot, linear, inverse) {
            (true, false, false) => Some(MarketType::Spot),
            (false, true, false) => Some(MarketType::Linear),
            (false, false, true) => Some(MarketType::Inverse),
            _ => None,
        }
    }

    /// The lower-case name used in endpoint URLs and in the symbol table.
    pub fn as_str(&self) -> (r: &'static str)
        ensures
            self is Spot ==> r@ == "spot"@,
            self is Linear ==> r@ == "linear"@,
            self is Inverse ==> r@ == "inverse"@,
    {
        match self {
            MarketType::Spot => "spot",
            MarketType::Linear => "linear",
            MarketType::Inverse => "inverse",
        }
    }
}

} // verus!
