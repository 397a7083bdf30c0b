//! The closed enumeration of supported trading symbols.

use vstd::prelude::*;

verus! {

/// Enumeration of the available symbols.  To add support for new symbols add
/// them here and extend the match arms of [`Symbol::wire_name`] and
/// [`Symbol::from_str`].
#[derive(Debug, Copy, Clone, Eq, PartialEq, Structural, Hash)]
pub enum Symbol {
    ETHBTC,
    BTCUSDT,
}

impl Symbol {
    /// The lowercase wire form of the symbol, as venues accept it.
    pub open spec fn spec_wire_name(self) -> Seq<char> {
        match self {
            Symbol::ETHBTC => "ethbtc"@,
            Symbol::BTCUSDT => "btcusdt"@,
        }
    }

    /// The lowercase wire form of the symbol.
    pub fn wire_name(&self) -> (r: &'static str)
        ensures
            r@ == self.spec_wire_name(),
    {
        match self {
            Symbol::ETHBTC => "ethbtc",
            Symbol::BTCUSDT => "btcusdt",
        }
    }

    /// Reads a symbol from its lowercase wire form.
    pub fn from_str(input: &str) -> (r: Result<Symbol, ()>)
        ensures
            input@ == "ethbtc"@ ==> r == Ok::<Symbol, ()>(Symbol::ETHBTC),
            input@ == "btcusdt"@ ==> r == Ok::<Symbol, ()>(Symbol::BTCUSDT),
            input@ != "ethbtc"@ && input@ != "btcusdt"@ ==> r == Err::<Symbol, ()>(()),
    {
        proof {
            // The two names are distinct strings.
            broadcast use vstd::string::group_string_axioms;

            reveal_strlit("ethbtc");
            reveal_strlit("btcusdt");
            assert("ethbtc"@.len() == 6);
            assert("btcusdt"@.len() == 7);
        }
        let owned = input.to_owned();
        if owned == "ethbtc".to_owned() {
            Ok(Symbol::ETHBTC)
        } else if owned == "btcusdt".to_owned() {
            Ok(Symbol::BTCUSDT)
        } else {
            Err(())
        }
    }
}

} // verus!
