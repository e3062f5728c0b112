//! Orders and fixed-size books of the best price levels of one feed.

use crate::constants::{Feed, ORDER_PRICE_INF, TOP_N_BBO};
use crate::decimal::{units_of, Decimal};
use vstd::prelude::*;

verus! {

/// One price level of one feed.
#[derive(Clone, Copy, Debug)]
pub struct Order {
    pub feed: Feed,
    pub price: Decimal,
    pub amount: Decimal,
}

impl Order {
    /// The order that stands where a feed sent none: nothing, at price zero.
    pub open spec fn empty() -> Order {
        Order {
            feed: Feed::BinanceSpot,
            price: Decimal::of((0int, 0nat)),
            amount: Decimal::of((0int, 0nat)),
        }
    }
}

impl Default for Order {
    fn default() -> (order: Order)
        ensures
            order == Order::empty(),
            order.feed == Feed::BinanceSpot,
            order.price@ == (0int, 0nat),
            order.amount@ == (0int, 0nat),
    {
        let zero = Decimal::from_i32(0);
        proof {
            zero.lemma_of_view();
        }
        Order { feed: Feed::BinanceSpot, price: zero, amount: zero }
    }
}

/// The unreachable price, in units of 10^-28.
pub open spec fn price_inf_units() -> int {
    units_of(ORDER_PRICE_INF as int, 0)
}

/// The best `TOP_N_BBO` asks and bids of one feed.
///
/// A book as a feed sends it has its asks from the lowest price up and its
/// bids from the highest price down. A book whose asks all stand at the
/// unreachable price and whose bids all stand at its negation is unhealthy:
/// sorted among real books, none of its levels comes first.
#[derive(Clone, Copy, Debug)]
pub struct OrderBookTopN {
    pub asks: [Order; TOP_N_BBO],
    pub bids: [Order; TOP_N_BBO],
}

/// A book as a value: its asks and its bids, best first.
pub struct BookView {
    pub asks: Seq<Order>,
    pub bids: Seq<Order>,
}

impl View for OrderBookTopN {
    type V = BookView;

    open spec fn view(&self) -> BookView {
        BookView { asks: self.asks@, bids: self.bids@ }
    }
}

/// The book that a feed with nothing to contribute is given.
pub open spec fn unhealthy_view() -> BookView {
    BookView {
        asks: Seq::new(
            TOP_N_BBO as nat,
            |i: int|
                Order {
                    feed: Feed::BinanceSpot,
                    price: Decimal::of((ORDER_PRICE_INF as int, 0nat)),
                    amount: Decimal::of((0int, 0nat)),
                },
        ),
        bids: Seq::new(
            TOP_N_BBO as nat,
            |i: int|
                Order {
                    feed: Feed::BinanceSpot,
                    price: Decimal::of((-ORDER_PRICE_INF as int, 0nat)),
                    amount: Decimal::of((0int, 0nat)),
                },
        ),
    }
}

impl Default for OrderBookTopN {
    fn default() -> (book: OrderBookTopN)
        ensures
            forall|i: int|
                0 <= i < TOP_N_BBO ==> {
                    &&& (#[trigger] book.asks[i]).feed == Feed::BinanceSpot
                    &&& book.asks[i].price@ == (0int, 0nat)
                    &&& book.asks[i].amount@ == (0int, 0nat)
                },
            forall|i: int|
                0 <= i < TOP_N_BBO ==> {
                    &&& (#[trigger] book.bids[i]).feed == Feed::BinanceSpot
                    &&& book.bids[i].price@ == (0int, 0nat)
                    &&& book.bids[i].amount@ == (0int, 0nat)
                },
    {
        OrderBookTopN { asks: [Order::default();TOP_N_BBO], bids: [Order::default();TOP_N_BBO] }
    }
}

impl OrderBookTopN {
    /// Asks in non-decreasing price order, bids in non-increasing price order.
    pub open spec fn is_sorted(self) -> bool {
        &&& forall|i: int, j: int|
            0 <= i <= j < TOP_N_BBO ==> (#[trigger] self.asks[i]).price.units() <= (
            #[trigger] self.asks[j]).price.units()
        &&& forall|i: int, j: int|
            0 <= i <= j < TOP_N_BBO ==> (#[trigger] self.bids[i]).price.units() >= (
            #[trigger] self.bids[j]).price.units()
    }

    /// Every ask at the unreachable price, every bid at its negation.
    pub open spec fn is_unhealthy(self) -> bool {
        &&& forall|i: int|
            0 <= i < TOP_N_BBO ==> (#[trigger] self.asks[i]).price.units() == price_inf_units()
        &&& forall|i: int|
            0 <= i < TOP_N_BBO ==> (#[trigger] self.bids[i]).price.units() == -price_inf_units()
    }

    /// Every price strictly between the negated and the unreachable price.
    pub open spec fn is_real(self) -> bool {
        &&& forall|i: int|
            0 <= i < TOP_N_BBO ==> -price_inf_units() < (#[trigger] self.asks[i]).price.units()
                < price_inf_units()
        &&& forall|i: int|
            0 <= i < TOP_N_BBO ==> -price_inf_units() < (#[trigger] self.bids[i]).price.units()
                < price_inf_units()
    }

    /// Moves every ask to the unreachable price and every bid to its negation,
    /// leaving feeds and amounts as they are.
    pub fn set_unreachable_price(&mut self)
        ensures
            final(self).is_unhealthy(),
            forall|i: int|
                0 <= i < TOP_N_BBO ==> {
                    &&& (#[trigger] final(self).asks[i]).price@ == (ORDER_PRICE_INF as int, 0nat)
                    &&& final(self).asks[i].feed == old(self).asks[i].feed
                    &&& final(self).asks[i].amount == old(self).asks[i].amount
                },
            forall|i: int|
                0 <= i < TOP_N_BBO ==> {
                    &&& (#[trigger] final(self).bids[i]).price@ == (-ORDER_PRICE_INF as int, 0nat)
                    &&& final(self).bids[i].feed == old(self).bids[i].feed
                    &&& final(self).bids[i].amount == old(self).bids[i].amount
                },
    {
        let inf = Decimal::from_i32(ORDER_PRICE_INF);
        let neg_inf = Decimal::from_i32(-ORDER_PRICE_INF);
        let mut i: usize = 0;
        while i < TOP_N_BBO
            invariant
                i <= TOP_N_BBO,
                inf@ == (ORDER_PRICE_INF as int, 0nat),
                neg_inf@ == (-ORDER_PRICE_INF as int, 0nat),
                forall|k: int|
                    0 <= k < i ==> {
                        &&& (#[trigger] self.asks[k]).price@ == inf@
                        &&& self.asks[k].feed == old(self).asks[k].feed
                        &&& self.asks[k].amount == old(self).asks[k].amount
                    },
                forall|k: int|
                    0 <= k < i ==> {
                        &&& (#[trigger] self.bids[k]).price@ == neg_inf@
                        &&& self.bids[k].feed == old(self).bids[k].feed
                        &&& self.bids[k].amount == old(self).bids[k].amount
                    },
                forall|k: int| i <= k < TOP_N_BBO ==> (#[trigger] self.asks[k]) == old(self).asks[k],
                forall|k: int| i <= k < TOP_N_BBO ==> (#[trigger] self.bids[k]) == old(self).bids[k],
            decreases TOP_N_BBO - i,
        {
            self.asks[i].price = inf;
            self.bids[i].price = neg_inf;
            i += 1;
        }
        proof {
            vstd::arithmetic::mul::lemma_mul_unary_negation(
                ORDER_PRICE_INF as int,
                crate::decimal::pow10(28),
            );
        }
    }

    /// The book of a feed that has nothing to contribute.
    pub fn unhealthy() -> (book: OrderBookTopN)
        ensures
            book.is_unhealthy(),
            book@ == unhealthy_view(),
            forall|i: int|
                0 <= i < TOP_N_BBO ==> {
                    &&& (#[trigger] book.asks[i]).feed == Feed::BinanceSpot
                    &&& book.asks[i].price@ == (ORDER_PRICE_INF as int, 0nat)
                    &&& book.asks[i].amount@ == (0int, 0nat)
                },
            forall|i: int|
                0 <= i < TOP_N_BBO ==> {
                    &&& (#[trigger] book.bids[i]).feed == Feed::BinanceSpot
                    &&& book.bids[i].price@ == (-ORDER_PRICE_INF as int, 0nat)
                    &&& book.bids[i].amount@ == (0int, 0nat)
                },
    {
        let mut book = OrderBookTopN::default();
        book.set_unreachable_price();
        proof {
            assert forall|i: int| 0 <= i < TOP_N_BBO implies #[trigger] book.asks@[i]
                == unhealthy_view().asks[i] by {
                book.asks[i].price.lemma_of_view();
                book.asks[i].amount.lemma_of_view();
            }
            assert forall|i: int| 0 <= i < TOP_N_BBO implies #[trigger] book.bids@[i]
                == unhealthy_view().bids[i] by {
                book.bids[i].price.lemma_of_view();
                book.bids[i].amount.lemma_of_view();
            }
            assert(book.asks@ =~= unhealthy_view().asks);
            assert(book.bids@ =~= unhealthy_view().bids);
        }
        book
    }
}

/// A book together with the feed it came from: what a listener hands to the
/// aggregator.
#[derive(Clone, Copy, Debug)]
pub struct FeedOrderBook {
    pub feed: Feed,
    pub orderbook: OrderBookTopN,
}

} // verus!
