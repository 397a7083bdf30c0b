//! The closed enumeration of supported exchanges.

use vstd::prelude::*;

verus! {

/// Enumeration of the supported exchanges.  It is required by any exchange
/// client implementation.  To add support for new exchanges add them here
/// and extend the match arms of [`Exchange::name`] and
/// [`Exchange::from_str`].
#[derive(Debug, Copy, Clone, PartialEq, Eq, Structural, PartialOrd, Ord, Hash)]
pub enum Exchange {
    Binance,
    Bitstamp,
}

impl Exchange {
    /// The display name of the exchange.
    pub open spec fn spec_name(self) -> Seq<char> {
        match self {
            Exchange::Binance => "Binance"@,
            Exchange::Bitstamp => "Bitstamp"@,
        }
    }

    /// The display name of the exchange.
    pub fn name(&self) -> (r: &'static str)
        ensures
            r@ == self.spec_name(),
    {
        match self {
            Exchange::Binance => "Binance",
            Exchange::Bitstamp => "Bitstamp",
        }
    }

    /// Reads an exchange from its display name.
    pub fn from_str(input: &str) -> (r: Result<Exchange, ()>)
        ensures
            input@ == "Binance"@ ==> r == Ok::<Exchange, ()>(Exchange::Binance),
            input@ == "Bitstamp"@ ==> r == Ok::<Exchange, ()>(Exchange::Bitstamp),
            input@ != "Binance"@ && input@ != "Bitstamp"@ ==> r == Err::<Exchange, ()>(()),
    {
        proof {
            // The two names are distinct strings.
            broadcast use vstd::string::group_string_axioms;

            reveal_strlit("Binance");
            reveal_strlit("Bitstamp");
            assert("Binance"@.len() == 7);
            assert("Bitstamp"@.len() == 8);
        }
        let owned = input.to_owned();
        if owned == "Binance".to_owned() {
            Ok(Exchange::Binance)
        } else if owned == "Bitstamp".to_owned() {
            Ok(Exchange::Bitstamp)
        } else {
            Err(())
        }
    }
}

} // verus!
