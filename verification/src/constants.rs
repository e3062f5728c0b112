//! Fixed parameters of the pipeline and the closed set of feeds.

use vstd::prelude::*;

verus! {

/// Capacity of the queue between the listeners and the aggregator.
pub const QUEUE_BUFFER_SIZE: usize = 1048576;

/// A price that no instrument reaches; prices at or beyond it mark a feed as unhealthy.
pub const ORDER_PRICE_INF: i32 = 100_000_000;

/// Number of price levels kept per side of a book.
pub const TOP_N_BBO: usize = 10;

/// Port on which the summary stream is served.
pub const GRPC_SERVER_PORT: usize = 50051;

/// Number of variants of [`Feed`].
pub const FEED_COUNT: usize = 2;

/// Byte position at which the order-book payload of a Binance frame begins.
pub const MSG_OFFSET_BINANCE: usize = 76;

/// Byte position at which the order-book payload of a Bitstamp frame begins.
pub const MSG_OFFSET_BITSTAMP: usize = 78;

/// The message that stands for the previous frame before a feed has sent one.
pub const INIT_DUMMY_MSG: &'static str =
    "{\"data\":{\"timestamp\":\"1686616236\",\"microtimestamp\":\"1686616236740643\",\"bids\":[";

/// Wire protocol spoken by a feed.
#[allow(non_camel_case_types)]
#[derive(Clone, Copy, Debug, PartialEq, Eq, Structural)]
pub enum Protocol {
    WEBSOCKETS,
}

/// Where a feed is reached.
#[derive(Clone, Copy, Debug)]
pub struct FeedInfo<'a> {
    pub domain: &'a str,
    pub path: &'a str,
    pub port: u16,
    pub protocol: Protocol,
}

/// The supported exchanges. The order of the variants is the order in which
/// equal prices of different feeds are ranked.
#[derive(Clone, Copy, Debug, PartialEq, Eq, Structural)]
pub enum Feed {
    BinanceSpot,
    BitstampSpot,
}

impl Feed {
    /// Host name of the feed's endpoint.
    pub open spec fn domain(self) -> Seq<char> {
        match self {
            Feed::BinanceSpot => "stream.binance.com"@,
            Feed::BitstampSpot => "ws.bitstamp.net"@,
        }
    }

    /// Request path of the feed's endpoint.
    pub open spec fn path(self) -> Seq<char> {
        match self {
            Feed::BinanceSpot => "/stream"@,
            Feed::BitstampSpot => ""@,
        }
    }

    /// TCP port of the feed's endpoint.
    pub open spec fn port(self) -> u16 {
        match self {
            Feed::BinanceSpot => 9443,
            Feed::BitstampSpot => 443,
        }
    }

    /// Name under which the feed's levels are published.
    pub open spec fn exchange_name(self) -> Seq<char> {
        match self {
            Feed::BinanceSpot => "binance"@,
            Feed::BitstampSpot => "bitstamp"@,
        }
    }

    /// Position of the feed among the variants.
    pub open spec fn ordinal(self) -> int {
        match self {
            Feed::BinanceSpot => 0,
            Feed::BitstampSpot => 1,
        }
    }

    /// Byte position at which the order-book payload of the feed's frames begins.
    pub open spec fn payload_offset(self) -> usize {
        match self {
            Feed::BinanceSpot => MSG_OFFSET_BINANCE,
            Feed::BitstampSpot => MSG_OFFSET_BITSTAMP,
        }
    }

    /// Different feeds are published under different names.
    pub proof fn lemma_exchange_names_differ(a: Feed, b: Feed)
        requires
            a != b,
        ensures
            a.exchange_name() != b.exchange_name(),
    {
        reveal_strlit("binance");
        reveal_strlit("bitstamp");
        assert("binance"@[2] == 'n');
        assert("bitstamp"@[2] == 't');
    }

    pub fn feed_info(&self) -> (info: FeedInfo<'static>)
        ensures
            info.domain@ == self.domain(),
            info.path@ == self.path(),
            info.port == self.port(),
            info.protocol == Protocol::WEBSOCKETS,
    {
        match self {
            Feed::BinanceSpot => FeedInfo {
                domain: "stream.binance.com",
                path: "/stream",
                port: 9443,
                protocol: Protocol::WEBSOCKETS,
            },
            Feed::BitstampSpot => FeedInfo {
                domain: "ws.bitstamp.net",
                path: "",
                port: 443,
                protocol: Protocol::WEBSOCKETS,
            },
        }
    }

    pub fn feed_name_for_grpc_service(&self) -> (name: &'static str)
        ensures
            name@ == self.exchange_name(),
    {
        match self {
            Feed::BinanceSpot => "binance",
            Feed::BitstampSpot => "bitstamp",
        }
    }

    /// Slot of the feed in a per-feed array.
    pub fn index(&self) -> (i: usize)
        ensures
            i == self.ordinal(),
            i < FEED_COUNT,
    {
        match self {
            Feed::BinanceSpot => 0,
            Feed::BitstampSpot => 1,
        }
    }

    /// The feed at a slot, if there is one.
    pub fn from_index(i: usize) -> (feed: Option<Feed>)
        ensures
            i < FEED_COUNT ==> feed is Some && feed->0.ordinal() == i,
            i >= FEED_COUNT ==> feed is None,
    {
        if i == 0 {
            Some(Feed::BinanceSpot)
        } else if i == 1 {
            Some(Feed::BitstampSpot)
        } else {
            None
        }
    }

    /// Payload offset of the feed's frames.
    pub fn msg_offset_orderbook_start(&self) -> (offset: usize)
        ensures
            offset == self.payload_offset(),
    {
        match self {
            Feed::BinanceSpot => MSG_OFFSET_BINANCE,
            Feed::BitstampSpot => MSG_OFFSET_BITSTAMP,
        }
    }
}

} // verus!
