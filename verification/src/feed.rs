//! The feeds as types, for code that fixes its feed when it is compiled.

use crate::constants;
use vstd::prelude::*;

verus! {

/// A type that stands for one feed. Only such types can be handed to a
/// listener in place of the feed itself.
pub trait Feed {
    /// The feed that the type stands for.
    spec fn id() -> constants::Feed;

    /// The feed that the type stands for.
    fn feed() -> (feed: constants::Feed)
        ensures
            feed == Self::id(),
    ;
}

/// Stands for `constants::Feed::BinanceSpot`.
pub struct BinanceSpot {}

/// Stands for `constants::Feed::BitstampSpot`.
pub struct BitstampSpot {}

impl Feed for BinanceSpot {
    open spec fn id() -> constants::Feed {
        constants::Feed::BinanceSpot
    }

    fn feed() -> (feed: constants::Feed) {
        constants::Feed::BinanceSpot
    }
}

impl Feed for BitstampSpot {
    open spec fn id() -> constants::Feed {
        constants::Feed::BitstampSpot
    }

    fn feed() -> (feed: constants::Feed) {
        constants::Feed::BitstampSpot
    }
}

} // verus!
