use vstd::prelude::*;
use vstd::string::StringExecFns;

verus! {

/// A trading pair that the public trade-history endpoint accepts.
#[derive(Clone, Copy, PartialEq, Eq, Structural, Debug)]
pub enum Symbol {
    Btc,
    Eth,
    Bch,
    Ltc,
    Xrp,
}

/// The canonical wire name of each symbol.
pub open spec fn symbol_str(s: Symbol) -> Seq<char> {
    match s {
        Symbol::Btc => "BTC"@,
        Symbol::Eth => "ETH"@,
        Symbol::Bch => "BCH"@,
        Symbol::Ltc => "LTC"@,
        Symbol::Xrp => "XRP"@,
    }
}

/// Renders a symbol as the API spells it in query strings.
pub fn to_string(s: &Symbol) -> (r: String)
    ensures
        r@ == symbol_str(*s),
{
    match s {
        Symbol::Btc => String::from_str("BTC"),
        Symbol::Eth => String::from_str("ETH"),
        Symbol::Bch => String::from_str("BCH"),
        Symbol::Ltc => String::from_str("LTC"),
        Symbol::Xrp => String::from_str("XRP"),
    }
}

} // verus!
