//! Subscribing to the order-book channel of a feed.
//!
//! Every exchange has its own request and its own way of saying that the
//! subscription stands. Sending the request and reading the answer are the
//! caller's work; what is sent and whether the answer confirms it is decided
//! here.

use crate::constants::Feed;
use crate::error::{ClientError, SubscriberError};
use crate::text::str_eq;
use vstd::prelude::*;
use vstd::string::StringExecFns;

verus! {

/// A piece of text as `serde_json` writes it down as a JSON string: in
/// quotes, with what JSON cannot hold literally escaped.
pub uninterp spec fn json_quoted(text: Seq<char>) -> Seq<char>;

/// What `serde_json` finds under `key` at the top of a JSON document:
/// `None` where the document is not JSON, `Some(None)` where there is no
/// text under the key, else the text.
pub uninterp spec fn json_text_field(document: Seq<char>, key: Seq<char>) -> Option<
    Option<Seq<char>>,
>;

/// The name of the order-book channel of an instrument.
pub open spec fn channel_name(feed: Feed, instrument: Seq<char>) -> Seq<char> {
    match feed {
        Feed::BinanceSpot => instrument + "@depth20@100ms"@,
        Feed::BitstampSpot => "order_book_"@ + instrument,
    }
}

/// The request that subscribes to a channel, given the channel's name as a
/// JSON string.
pub open spec fn request_text(feed: Feed, quoted_channel: Seq<char>) -> Seq<char> {
    match feed {
        Feed::BinanceSpot => "{\"method\":\"SUBSCRIBE\",\"params\":["@ + quoted_channel
            + "],\"id\":1}"@,
        Feed::BitstampSpot => "{\"event\":\"bts:subscribe\",\"data\":{\"channel\":"@
            + quoted_channel + "}}"@,
    }
}

/// The request that subscribes to the order-book channel of an instrument.
pub open spec fn subscribe_request_of(feed: Feed, instrument: Seq<char>) -> Seq<char> {
    request_text(feed, json_quoted(channel_name(feed, instrument)))
}

/// Whether an answer confirms the subscription, given the text that the
/// answer holds under `"event"`.
pub open spec fn confirms(feed: Feed, answer: Seq<char>, event: Option<Option<Seq<char>>>) -> bool {
    match feed {
        Feed::BinanceSpot => answer == "{\"result\":null,\"id\":1}"@,
        Feed::BitstampSpot => event == Some(Some("bts:subscription_succeeded"@)),
    }
}

/// Whether an answer confirms the subscription.
pub open spec fn is_subscribe_ack(feed: Feed, answer: Seq<char>) -> bool {
    confirms(feed, answer, json_text_field(answer, "event"@))
}

/// What goes with the error where an answer does not confirm the
/// subscription: the answer, or nothing where none could be read.
pub open spec fn offending_payload(answer: Result<String, ClientError>) -> Option<Seq<char>> {
    match answer {
        Ok(text) => Some(text@),
        Err(_) => None,
    }
}

/// The text under a key, as a value.
pub open spec fn field_view(field: Option<Option<String>>) -> Option<Option<Seq<char>>> {
    match field {
        None => None,
        Some(None) => Some(None),
        Some(Some(text)) => Some(Some(text@)),
    }
}

/// The subscriber of one feed.
#[derive(Clone, Copy, Debug)]
pub struct Subscriber {
    pub feed: Feed,
}

impl Subscriber {
    pub fn new(feed: Feed) -> (subscriber: Subscriber)
        ensures
            subscriber.feed == feed,
    {
        Subscriber { feed }
    }

    /// The name of the order-book channel of an instrument.
    pub fn channel(&self, instrument_name: &str) -> (name: String)
        ensures
            name@ == channel_name(self.feed, instrument_name@),
    {
        match self.feed {
            Feed::BinanceSpot => {
                let mut name = instrument_name.to_owned();
                name.append("@depth20@100ms");
                name
            },
            Feed::BitstampSpot => {
                let mut name = "order_book_".to_owned();
                name.append(instrument_name);
                name
            },
        }
    }

    /// The request that subscribes to a channel whose name is already
    /// written as a JSON string.
    pub fn request_with(&self, quoted_channel: &str) -> (request: String)
        ensures
            request@ == request_text(self.feed, quoted_channel@),
    {
        match self.feed {
            Feed::BinanceSpot => {
                let mut request = "{\"method\":\"SUBSCRIBE\",\"params\":[".to_owned();
                request.append(quoted_channel);
                request.append("],\"id\":1}");
                request
            },
            Feed::BitstampSpot => {
                let mut request = "{\"event\":\"bts:subscribe\",\"data\":{\"channel\":".to_owned();
                request.append(quoted_channel);
                request.append("}}");
                request
            },
        }
    }

    /// The request to send in order to subscribe to the order-book snapshots
    /// of an instrument.
    pub fn subscribe_request(&self, instrument_name: &str) -> (request: String)
        ensures
            request@ == subscribe_request_of(self.feed, instrument_name@),
    {
        let channel = self.channel(instrument_name);
        let quoted = json_quote(channel.as_str());
        self.request_with(quoted.as_str())
    }

    /// Whether an answer confirms the subscription, given the text that the
    /// answer holds under `"event"`.
    pub fn confirmed_by(&self, answer: &str, event: &Option<Option<String>>) -> (ok: bool)
        ensures
            ok == confirms(self.feed, answer@, field_view(*event)),
    {
        match self.feed {
            Feed::BinanceSpot => str_eq(answer, "{\"result\":null,\"id\":1}"),
            Feed::BitstampSpot => match event {
                Some(Some(text)) => str_eq(text.as_str(), "bts:subscription_succeeded"),
                _ => false,
            },
        }
    }

    /// Judges the one message that was read after the request was sent: the
    /// subscription stands if the message could be read and confirms it.
    /// Otherwise the error takes the offending message along.
    pub fn subscribe_to_l2_snap(&self, answer: &Result<String, ClientError>) -> (r: Result<
        (),
        SubscriberError,
    >)
        ensures
            r is Ok <==> (answer matches Ok(text) && is_subscribe_ack(self.feed, text@)),
            r matches Err(e) ==> e.payload_view() == offending_payload(*answer),
    {
        match answer {
            Ok(text) => {
                let event = json_read_text_field(text.as_str(), "event");
                if self.confirmed_by(text.as_str(), &event) {
                    Ok(())
                } else {
                    Err(SubscriberError { payload: Some(text.clone()) })
                }
            },
            Err(_) => Err(SubscriberError { payload: None }),
        }
    }
}

/// `serde_json`'s `Display` of a `Value::String`: the text as one JSON
/// string. The text decides the result.
#[verifier::external_body]
fn json_quote(text: &str) -> (quoted: String)
    ensures
        quoted@ == json_quoted(text@),
{
    serde_json::Value::String(text.to_owned()).to_string()
}

/// `serde_json::from_str` into a `Value`, then the value under `key` by
/// indexing, then `as_str`. Document and key decide the result; a document
/// that is not JSON gives `None`, and indexing never fails.
#[verifier::external_body]
fn json_read_text_field(document: &str, key: &str) -> (field: Option<Option<String>>)
    ensures
        field_view(field) == json_text_field(document@, key@),
{
    match serde_json::from_str::<serde_json::Value>(document) {
        Ok(value) => Some(value[key].as_str().map(|text| text.to_owned())),
        Err(_) => None,
    }
}

} // verus!
