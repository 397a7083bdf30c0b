//! The Bitstamp subscription message.

use vstd::prelude::*;
use vstd::string::StringExecFns;

verus! {

/// The channel name and event of one Bitstamp subscription.
pub struct Subscription {
    event: String,
    data: Data,
}

struct Data {
    channel: String,
}

/// The mathematical content of a [`Subscription`].
pub struct SubscriptionView {
    pub event: Seq<char>,
    pub channel: Seq<char>,
}

impl View for Subscription {
    type V = SubscriptionView;

    closed spec fn view(&self) -> SubscriptionView {
        SubscriptionView { event: self.event@, channel: self.data.channel@ }
    }
}

/// The wire form of a subscription: a JSON object with the event and the
/// channel.  The two values never hold characters that JSON would escape,
/// so splicing them in verbatim is the JSON encoding.
pub open spec fn spec_subscription_message(event: Seq<char>, channel: Seq<char>) -> Seq<char> {
    "{\"event\":\""@ + event + "\",\"data\":{\"channel\":\""@ + channel + "\"}}"@
}

impl Subscription {
    /// Constructs the subscription for one symbol's order-book channel.
    pub fn new(symbol: &String) -> (r: Self)
        ensures
            r@.event == "bts:subscribe"@,
            r@.channel == "order_book_"@ + symbol@,
    {
        let mut channel = "order_book_".to_owned();
        channel.append(symbol.as_str());
        Subscription { event: "bts:subscribe".to_owned(), data: Data { channel } }
    }

    /// The message text sent after the connection opens.
    pub fn serialize(&self) -> (r: String)
        ensures
            r@ == spec_subscription_message(self@.event, self@.channel),
    {
        let mut out = "{\"event\":\"".to_owned();
        out.append(self.event.as_str());
        out.append("\",\"data\":{\"channel\":\"");
        out.append(self.data.channel.as_str());
        out.append("\"}}");
        out
    }
}

} // verus!
