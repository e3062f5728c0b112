//! The aggregator: the latest book of every feed, merged into one summary.
//!
//! The aggregator is the only reader of the queue that the listeners fill.
//! It takes everything the queue holds before it computes, so that a summary
//! always shows one moment of the market and never a half-absorbed backlog.
//! Waiting on the queue and publishing are the caller's work: `step` takes
//! what the queue gave and answers what to do next.

use crate::book::{price_inf_units, unhealthy_view, FeedOrderBook, Order, OrderBookTopN};
use crate::constants::{Feed, FEED_COUNT, TOP_N_BBO};
use crate::decimal::{decimal_difference, Decimal};
use crate::merge::{
    ahead_of, at_rank, comes_before, lemma_at_rank, lemma_rank_below_len, lemma_ranked_at_rank,
    lemma_ranked_in_order, rank, ranked, sort_by_price, sort_key, Side,
};
use vstd::prelude::*;
use vstd::set_lib::{lemma_int_range, lemma_len_subset, set_int_range};

verus! {

/// One published price level.
#[derive(Clone, Debug)]
pub struct Level {
    pub exchange: String,
    pub price: Decimal,
    pub amount: Decimal,
}

/// The merged top of the book: the best asks and bids over all feeds and the
/// distance between the best ask and the best bid.
#[derive(Clone, Debug)]
pub struct Summary {
    pub spread: Decimal,
    pub bids: Vec<Level>,
    pub asks: Vec<Level>,
}

/// A level as a value: the exchange's name, and price and amount as
/// (mantissa, scale).
pub struct LevelView {
    pub exchange: Seq<char>,
    pub price: (int, nat),
    pub amount: (int, nat),
}

/// A summary as a value.
pub struct SummaryView {
    pub spread: (int, nat),
    pub bids: Seq<LevelView>,
    pub asks: Seq<LevelView>,
}

impl View for Level {
    type V = LevelView;

    open spec fn view(&self) -> LevelView {
        LevelView { exchange: self.exchange@, price: self.price@, amount: self.amount@ }
    }
}

impl View for Summary {
    type V = SummaryView;

    open spec fn view(&self) -> SummaryView {
        SummaryView {
            spread: self.spread@,
            bids: self.bids@.map_values(|level: Level| level@),
            asks: self.asks@.map_values(|level: Level| level@),
        }
    }
}

/// The level that is published for an order.
pub open spec fn level_of(order: Order) -> LevelView {
    LevelView { exchange: order.feed.exchange_name(), price: order.price@, amount: order.amount@ }
}

/// The level `i` of one side of a book.
pub open spec fn side_level(book: OrderBookTopN, side: Side, i: int) -> Order {
    match side {
        Side::Ask => book.asks[i],
        Side::Bid => book.bids[i],
    }
}

/// One side of all books, one book after the other in the order of the
/// feeds: position `t` holds level `t % TOP_N_BBO` of feed `t / TOP_N_BBO`.
pub open spec fn side_orders(books: Seq<OrderBookTopN>, side: Side) -> Seq<Order> {
    Seq::new(
        (books.len() * TOP_N_BBO) as nat,
        |t: int| side_level(books[t / (TOP_N_BBO as int)], side, t % (TOP_N_BBO as int)),
    )
}

/// The best `TOP_N_BBO` orders of one side over all books. Among equal
/// prices the earlier feed comes first, and within a feed the earlier level.
pub open spec fn merged(books: Seq<OrderBookTopN>, side: Side) -> Seq<Order> {
    ranked(side_orders(books, side), side).take(TOP_N_BBO as int)
}

/// The summary of the books, or `None` where the distance between the best
/// ask and the best bid is not a representable decimal.
pub open spec fn summary_of(books: Seq<OrderBookTopN>) -> Option<SummaryView> {
    let asks = merged(books, Side::Ask);
    let bids = merged(books, Side::Bid);
    match decimal_difference(asks[0].price@, bids[0].price@) {
        Some(spread) => Some(
            SummaryView {
                spread,
                bids: bids.map_values(|order: Order| level_of(order)),
                asks: asks.map_values(|order: Order| level_of(order)),
            },
        ),
        None => None,
    }
}

/// What a look at the queue gave.
#[derive(Clone, Copy, Debug)]
pub enum QueueEvent {
    /// The next book of a feed.
    Item(FeedOrderBook),
    /// Nothing is waiting.
    Empty,
    /// The queue could not be read.
    Disconnected,
}

/// What the aggregator's caller does next.
#[derive(Clone, Debug)]
pub enum AggregatorAction {
    /// Look at the queue again, without waiting.
    Poll,
    /// Wait until the queue holds an item.
    Wait,
    /// Publish the summary, then look at the queue again.
    Publish(Summary),
}

/// An action as a value.
pub enum ActionView {
    Poll,
    Wait,
    Publish(SummaryView),
}

impl View for AggregatorAction {
    type V = ActionView;

    open spec fn view(&self) -> ActionView {
        match self {
            AggregatorAction::Poll => ActionView::Poll,
            AggregatorAction::Wait => ActionView::Wait,
            AggregatorAction::Publish(summary) => ActionView::Publish(summary@),
        }
    }
}

/// The aggregator as a value: one book per feed, in the order of the feeds,
/// and whether a book has come in since the last summary.
pub struct AggregatorView {
    pub books: Seq<OrderBookTopN>,
    pub dirty: bool,
}

impl AggregatorView {
    /// The state after an event, and the action that answers it.
    pub open spec fn next(self, event: QueueEvent) -> (AggregatorView, ActionView) {
        match event {
            QueueEvent::Item(item) => (
                AggregatorView {
                    books: self.books.update(item.feed.ordinal(), item.orderbook),
                    dirty: true,
                },
                ActionView::Poll,
            ),
            QueueEvent::Empty => if self.dirty {
                (
                    AggregatorView { books: self.books, dirty: false },
                    match summary_of(self.books) {
                        Some(summary) => ActionView::Publish(summary),
                        None => ActionView::Wait,
                    },
                )
            } else {
                (self, ActionView::Wait)
            },
            QueueEvent::Disconnected => (self, ActionView::Poll),
        }
    }

    /// The state after a sequence of events.
    pub open spec fn after(self, events: Seq<QueueEvent>) -> AggregatorView
        decreases events.len(),
    {
        if events.len() == 0 {
            self
        } else {
            self.after(events.drop_last()).next(events.last()).0
        }
    }

    /// The number of summaries published in answer to a sequence of events.
    pub open spec fn published(self, events: Seq<QueueEvent>) -> nat
        decreases events.len(),
    {
        if events.len() == 0 {
            0
        } else {
            let before = self.published(events.drop_last());
            if self.after(events.drop_last()).next(events.last()).1 is Publish {
                before + 1
            } else {
                before
            }
        }
    }
}

/// The latest book of every feed.
pub struct Aggregator {
    orderbooks: [OrderBookTopN; FEED_COUNT],
    new_update_available: bool,
}

impl View for Aggregator {
    type V = AggregatorView;

    closed spec fn view(&self) -> AggregatorView {
        AggregatorView { books: self.orderbooks@, dirty: self.new_update_available }
    }
}

/// One unhealthy book per feed: before a feed has sent anything, none of its
/// levels may come first.
pub fn get_initialized_orderbooks() -> (books: [OrderBookTopN; FEED_COUNT])
    ensures
        forall|f: int|
            0 <= f < FEED_COUNT ==> (#[trigger] books[f]).is_unhealthy() && books[f]@
                == unhealthy_view(),
{
    [OrderBookTopN::unhealthy();FEED_COUNT]
}

impl Aggregator {
    /// An aggregator that has heard of no feed yet.
    pub fn new() -> (aggregator: Aggregator)
        ensures
            aggregator@.books.len() == FEED_COUNT,
            forall|f: int|
                0 <= f < FEED_COUNT ==> (#[trigger] aggregator@.books[f]).is_unhealthy()
                    && aggregator@.books[f]@ == unhealthy_view(),
            !aggregator@.dirty,
    {
        Aggregator { orderbooks: get_initialized_orderbooks(), new_update_available: false }
    }

    /// There is one book per feed.
    pub proof fn lemma_one_book_per_feed(self)
        ensures
            self@.books.len() == FEED_COUNT,
    {
    }

    /// The book that is held for a feed.
    pub fn orderbook(&self, feed: Feed) -> (book: OrderBookTopN)
        ensures
            book == self@.books[feed.ordinal()],
    {
        self.orderbooks[feed.index()]
    }

    /// Whether a book has come in since the last summary.
    pub fn has_update(&self) -> (dirty: bool)
        ensures
            dirty == self@.dirty,
    {
        self.new_update_available
    }

    /// One side of all books, one book after the other.
    fn collect(&self, side: Side) -> (all: Vec<Order>)
        ensures
            all@ == side_orders(self@.books, side),
    {
        let mut all: Vec<Order> = Vec::with_capacity(FEED_COUNT * TOP_N_BBO);
        let mut f: usize = 0;
        while f < FEED_COUNT
            invariant
                f <= FEED_COUNT,
                all.len() == f * TOP_N_BBO,
                forall|t: int|
                    0 <= t < all.len() ==> #[trigger] all[t] == side_level(
                        self@.books[t / (TOP_N_BBO as int)],
                        side,
                        t % (TOP_N_BBO as int),
                    ),
            decreases FEED_COUNT - f,
        {
            let mut i: usize = 0;
            while i < TOP_N_BBO
                invariant
                    f < FEED_COUNT,
                    i <= TOP_N_BBO,
                    all.len() == f * TOP_N_BBO + i,
                    forall|t: int|
                        0 <= t < all.len() ==> #[trigger] all[t] == side_level(
                            self@.books[t / (TOP_N_BBO as int)],
                            side,
                            t % (TOP_N_BBO as int),
                        ),
                decreases TOP_N_BBO - i,
            {
                let order = match side {
                    Side::Ask => self.orderbooks[f].asks[i],
                    Side::Bid => self.orderbooks[f].bids[i],
                };
                all.push(order);
                i += 1;
            }
            f += 1;
        }
        assert(all@ =~= side_orders(self@.books, side));
        all
    }

    /// The best `TOP_N_BBO` orders of one side over all feeds.
    pub fn merge(&self, side: Side) -> (best: Vec<Order>)
        ensures
            best@ == merged(self@.books, side),
            best.len() == TOP_N_BBO,
    {
        let all = self.collect(side);
        let mut best = sort_by_price(&all, side);
        best.truncate(TOP_N_BBO);
        best
    }

    /// The summary of the books as they stand, or `None` where the distance
    /// between the best ask and the best bid is not a representable decimal.
    pub fn summary(&self) -> (summary: Option<Summary>)
        ensures
            summary is Some <==> summary_of(self@.books) is Some,
            summary matches Some(s) ==> Some(s@) == summary_of(self@.books),
    {
        let asks = self.merge(Side::Ask);
        let bids = self.merge(Side::Bid);
        match asks[0].price.checked_sub(&bids[0].price) {
            Some(spread) => {
                let summary = Summary { spread, bids: to_levels(&bids), asks: to_levels(&asks) };
                assert(summary@.bids =~= merged(self@.books, Side::Bid).map_values(
                    |order: Order| level_of(order),
                ));
                assert(summary@.asks =~= merged(self@.books, Side::Ask).map_values(
                    |order: Order| level_of(order),
                ));
                Some(summary)
            },
            None => None,
        }
    }

    /// Takes what the queue gave and says what to do next.
    ///
    /// A book replaces the one held for its feed, and the queue is looked at
    /// again at once. When the queue is empty, one summary is published if a
    /// book has come in since the last one; otherwise there is nothing to do
    /// but wait.
    pub fn step(&mut self, event: QueueEvent) -> (action: AggregatorAction)
        ensures
            (final(self)@, action@) == old(self)@.next(event),
    {
        match event {
            QueueEvent::Item(item) => {
                self.orderbooks[item.feed.index()] = item.orderbook;
                self.new_update_available = true;
                assert(self@.books =~= old(self)@.books.update(
                    item.feed.ordinal(),
                    item.orderbook,
                ));
                AggregatorAction::Poll
            },
            QueueEvent::Empty => {
                if self.new_update_available {
                    self.new_update_available = false;
                    match self.summary() {
                        Some(summary) => AggregatorAction::Publish(summary),
                        None => AggregatorAction::Wait,
                    }
                } else {
                    AggregatorAction::Wait
                }
            },
            QueueEvent::Disconnected => AggregatorAction::Poll,
        }
    }
}

/// The events of a backlog: one item after the other.
pub open spec fn items(backlog: Seq<FeedOrderBook>) -> Seq<QueueEvent> {
    backlog.map_values(|item: FeedOrderBook| QueueEvent::Item(item))
}

/// While a backlog is taken in, nothing is published; afterwards the state
/// is dirty if it was, or if the backlog held anything.
pub proof fn lemma_backlog_is_absorbed(state: AggregatorView, backlog: Seq<FeedOrderBook>)
    ensures
        state.published(items(backlog)) == 0,
        state.after(items(backlog)).dirty == (state.dirty || backlog.len() >= 1),
    decreases backlog.len(),
{
    if backlog.len() > 0 {
        lemma_backlog_is_absorbed(state, backlog.drop_last());
        assert(items(backlog).drop_last() =~= items(backlog.drop_last()));
    }
}

/// Coalescing: however many books wait in the queue, once they are taken in
/// and the queue is found empty, one summary is published for all of them
/// together, and none before. (None at all where nothing has come in since
/// the last summary, or where the spread is not representable.)
pub proof fn lemma_one_summary_per_backlog(state: AggregatorView, backlog: Seq<FeedOrderBook>)
    ensures
        state.published(items(backlog)) == 0,
        state.published(items(backlog).push(QueueEvent::Empty)) == (if (state.dirty || backlog.len()
            >= 1) && summary_of(state.after(items(backlog)).books) is Some {
            1nat
        } else {
            0nat
        }),
        !state.after(items(backlog).push(QueueEvent::Empty)).dirty,
{
    lemma_backlog_is_absorbed(state, backlog);
    let events = items(backlog).push(QueueEvent::Empty);
    assert(events.drop_last() =~= items(backlog));
}

/// Spread identity: a summary holds `TOP_N_BBO` levels on either side, and
/// its spread is the best ask less the best bid, as the decimal arithmetic
/// gives it.
pub proof fn lemma_spread_is_best_ask_less_best_bid(books: Seq<OrderBookTopN>)
    requires
        books.len() >= 1,
        summary_of(books) is Some,
    ensures
        summary_of(books)->0.asks.len() == TOP_N_BBO,
        summary_of(books)->0.bids.len() == TOP_N_BBO,
        decimal_difference(summary_of(books)->0.asks[0].price, summary_of(books)->0.bids[0].price)
            == Some(summary_of(books)->0.spread),
{
    lemma_merged_takes_the_best(books, Side::Ask);
    lemma_merged_takes_the_best(books, Side::Bid);
}

/// The book of a feed after a backlog: the last one that the backlog holds
/// for the feed, or the one held before where it holds none.
pub open spec fn latest(backlog: Seq<FeedOrderBook>, feed: Feed, held: OrderBookTopN) -> OrderBookTopN
    decreases backlog.len(),
{
    if backlog.len() == 0 {
        held
    } else if backlog.last().feed == feed {
        backlog.last().orderbook
    } else {
        latest(backlog.drop_last(), feed, held)
    }
}

/// The aggregator holds one book for every feed at all times: the most
/// recent one that came in for the feed, and until one comes in, the one it
/// started with.
pub proof fn lemma_slots_hold_the_latest(
    state: AggregatorView,
    backlog: Seq<FeedOrderBook>,
    feed: Feed,
)
    requires
        state.books.len() == FEED_COUNT,
    ensures
        state.after(items(backlog)).books.len() == FEED_COUNT,
        state.after(items(backlog)).books[feed.ordinal()] == latest(
            backlog,
            feed,
            state.books[feed.ordinal()],
        ),
    decreases backlog.len(),
{
    if backlog.len() > 0 {
        lemma_slots_hold_the_latest(state, backlog.drop_last(), feed);
        assert(items(backlog).drop_last() =~= items(backlog.drop_last()));
    }
}

/// Where the orders of a book stand among the orders of all books.
proof fn lemma_side_orders_index(books: Seq<OrderBookTopN>, side: Side, g: int, i: int)
    requires
        0 <= g < books.len(),
        0 <= i < TOP_N_BBO,
    ensures
        0 <= g * TOP_N_BBO + i < side_orders(books, side).len(),
        side_orders(books, side)[g * TOP_N_BBO + i] == side_level(books[g], side, i),
{
    let n = TOP_N_BBO as int;
    let t = g * n + i;
    assert(g * n + n <= books.len() * n) by (nonlinear_arith)
        requires
            0 <= g < books.len(),
            n > 0,
    ;
    assert(t / n == g && t % n == i) by (nonlinear_arith)
        requires
            t == g * n + i,
            0 <= i < n,
    ;
}

/// Merge correctness: the merged side is made of the `TOP_N_BBO` orders that
/// rank first among the orders of all books, by price and, among equal
/// prices, by feed and level. Each stands at its rank, so the side runs from
/// the best price on, and every order left out ranks after every order taken.
pub proof fn lemma_merged_takes_the_best(books: Seq<OrderBookTopN>, side: Side)
    requires
        books.len() >= 1,
    ensures
        merged(books, side).len() == TOP_N_BBO,
        forall|t: int|
            0 <= t < side_orders(books, side).len() && #[trigger] rank(
                side_orders(books, side),
                t,
                side,
            ) < TOP_N_BBO ==> merged(books, side)[rank(side_orders(books, side), t, side) as int]
                == side_orders(books, side)[t],
        forall|k: int|
            0 <= k < TOP_N_BBO ==> {
                let t = #[trigger] at_rank(side_orders(books, side), k, side);
                &&& 0 <= t < side_orders(books, side).len()
                &&& rank(side_orders(books, side), t, side) == k
                &&& merged(books, side)[k] == side_orders(books, side)[t]
            },
        forall|k: int, l: int|
            0 <= k <= l < TOP_N_BBO ==> sort_key(#[trigger] merged(books, side)[k], side)
                <= sort_key(#[trigger] merged(books, side)[l], side),
        forall|k: int, t: int|
            0 <= k < TOP_N_BBO && 0 <= t < side_orders(books, side).len() && #[trigger] rank(
                side_orders(books, side),
                t,
                side,
            ) >= TOP_N_BBO ==> comes_before(
                side_orders(books, side),
                #[trigger] at_rank(side_orders(books, side), k, side),
                t,
                side,
            ),
{
    let all = side_orders(books, side);
    lemma_side_orders_index(books, side, 0, 0);
    assert(all.len() >= TOP_N_BBO) by (nonlinear_arith)
        requires
            all.len() == books.len() * TOP_N_BBO,
            books.len() >= 1,
    ;
    assert forall|t: int|
        0 <= t < all.len() && #[trigger] rank(all, t, side) < TOP_N_BBO implies merged(
        books,
        side,
    )[rank(all, t, side) as int] == all[t] by {
        lemma_ranked_at_rank(all, t, side);
    }
    assert forall|k: int| 0 <= k < TOP_N_BBO implies {
        let t = #[trigger] at_rank(all, k, side);
        &&& 0 <= t < all.len()
        &&& rank(all, t, side) == k
        &&& merged(books, side)[k] == all[t]
    } by {
        lemma_at_rank(all, k, side);
    }
    assert forall|k: int, l: int| 0 <= k <= l < TOP_N_BBO implies sort_key(
        #[trigger] merged(books, side)[k],
        side,
    ) <= sort_key(#[trigger] merged(books, side)[l], side) by {
        if k < l {
            lemma_ranked_in_order(all, k, l, side);
        }
    }
    assert forall|k: int, t: int|
        0 <= k < TOP_N_BBO && 0 <= t < all.len() && #[trigger] rank(all, t, side)
            >= TOP_N_BBO implies comes_before(all, #[trigger] at_rank(all, k, side), t, side) by {
        lemma_at_rank(all, k, side);
        let s = at_rank(all, k, side);
        if !comes_before(all, s, t, side) {
            assert(comes_before(all, t, s, side));
            crate::merge::lemma_rank_follows_order(all, t, s, side);
        }
    }
}

/// Of a book that is sorted, the merged side takes a run of levels from the
/// top: a level that is taken has every better level of its book taken
/// before it.
pub proof fn lemma_sorted_book_is_taken_from_the_top(
    books: Seq<OrderBookTopN>,
    side: Side,
    g: int,
    better: int,
    worse: int,
)
    requires
        0 <= g < books.len(),
        books[g].is_sorted(),
        0 <= better < worse < TOP_N_BBO,
    ensures
        rank(side_orders(books, side), g * TOP_N_BBO + better, side) < rank(
            side_orders(books, side),
            g * TOP_N_BBO + worse,
            side,
        ),
{
    let all = side_orders(books, side);
    lemma_side_orders_index(books, side, g, better);
    lemma_side_orders_index(books, side, g, worse);
    match side {
        Side::Ask => {
            assert(books[g].asks[better].price.units() <= books[g].asks[worse].price.units());
        },
        Side::Bid => {
            assert(books[g].bids[better].price.units() >= books[g].bids[worse].price.units());
        },
    }
    crate::merge::lemma_rank_follows_order(
        all,
        g * TOP_N_BBO + better,
        g * TOP_N_BBO + worse,
        side,
    );
}

/// Sentinel isolation: where one feed has sent a real book, no order of an
/// unhealthy book is among the merged orders. Every merged order has a price
/// inside the unreachable bounds and comes from a book that is not unhealthy.
pub proof fn lemma_unhealthy_feed_is_left_out(
    books: Seq<OrderBookTopN>,
    f: int,
    g: int,
    side: Side,
    k: int,
)
    requires
        0 <= f < books.len(),
        0 <= g < books.len(),
        books[f].is_unhealthy(),
        books[g].is_real(),
        0 <= k < TOP_N_BBO,
    ensures
        sort_key(merged(books, side)[k], side) < price_inf_units(),
        0 <= at_rank(side_orders(books, side), k, side) < side_orders(books, side).len(),
        merged(books, side)[k] == side_orders(books, side)[at_rank(
            side_orders(books, side),
            k,
            side,
        )],
        at_rank(side_orders(books, side), k, side) / (TOP_N_BBO as int) != f,
{
    let all = side_orders(books, side);
    let n = TOP_N_BBO as int;
    lemma_merged_takes_the_best(books, side);
    let t = at_rank(all, k, side);
    assert(merged(books, side)[k] == all[t]);
    if sort_key(all[t], side) >= price_inf_units() {
        let sound = set_int_range(g * n, g * n + n);
        lemma_int_range(g * n, g * n + n);
        lemma_rank_below_len(all, t, side);
        assert(sound.subset_of(ahead_of(all, t, side))) by {
            assert forall|j: int| sound.contains(j) implies ahead_of(all, t, side).contains(j) by {
                let i = j - g * n;
                lemma_side_orders_index(books, side, g, i);
                assert(all[j] == side_level(books[g], side, i));
                match side {
                    Side::Ask => {
                        assert(books[g].asks[i].price.units() < price_inf_units());
                    },
                    Side::Bid => {
                        assert(books[g].bids[i].price.units() > -price_inf_units());
                    },
                }
                assert(comes_before(all, j, t, side));
            }
        }
        lemma_len_subset(sound, ahead_of(all, t, side));
        assert(false);
    }
    if t / n == f {
        let i = t % n;
        assert(t == f * n + i) by (nonlinear_arith)
            requires
                t / n == f,
                i == t % n,
                n > 0,
        ;
        lemma_side_orders_index(books, side, f, i);
        match side {
            Side::Ask => {
                assert(books[f].asks[i].price.units() == price_inf_units());
            },
            Side::Bid => {
                assert(books[f].bids[i].price.units() == -price_inf_units());
            },
        }
        assert(false);
    }
}

/// Sentinel isolation, as a client sees it: where the other feeds' books
/// carry their own feed in every order and one of them is real, no published
/// level bears the name of a feed whose book is unhealthy.
pub proof fn lemma_unhealthy_feed_is_not_published(
    books: Seq<OrderBookTopN>,
    feed: Feed,
    g: int,
    side: Side,
    k: int,
)
    requires
        books.len() == FEED_COUNT,
        books[feed.ordinal()].is_unhealthy(),
        0 <= g < books.len(),
        books[g].is_real(),
        forall|h: int, i: int|
            0 <= h < books.len() && h != feed.ordinal() && 0 <= i < TOP_N_BBO ==> (
            #[trigger] side_level(books[h], side, i)).feed.ordinal() == h,
        0 <= k < TOP_N_BBO,
    ensures
        level_of(merged(books, side)[k]).exchange != feed.exchange_name(),
{
    let all = side_orders(books, side);
    let n = TOP_N_BBO as int;
    lemma_unhealthy_feed_is_left_out(books, feed.ordinal(), g, side, k);
    let t = at_rank(all, k, side);
    let h = t / n;
    let i = t % n;
    assert(0 <= h < books.len() && 0 <= i < n) by (nonlinear_arith)
        requires
            0 <= t < books.len() * n,
            h == t / n,
            i == t % n,
            n > 0,
    ;
    assert(all[t] == side_level(books[h], side, i));
    assert(merged(books, side)[k].feed.ordinal() == h);
    Feed::lemma_exchange_names_differ(merged(books, side)[k].feed, feed);
}

/// The levels that are published for a sequence of orders.
fn to_levels(orders: &Vec<Order>) -> (levels: Vec<Level>)
    ensures
        levels.len() == orders.len(),
        forall|k: int| 0 <= k < orders.len() ==> (#[trigger] levels[k])@ == level_of(orders[k]),
{
    let mut levels: Vec<Level> = Vec::with_capacity(orders.len());
    let mut k: usize = 0;
    while k < orders.len()
        invariant
            k <= orders.len(),
            levels.len() == k,
            forall|j: int| 0 <= j < k ==> (#[trigger] levels[j])@ == level_of(orders[j]),
        decreases orders.len() - k,
    {
        let order = orders[k];
        levels.push(
            Level {
                exchange: order.feed.feed_name_for_grpc_service().to_owned(),
                price: order.price,
                amount: order.amount,
            },
        );
        k += 1;
    }
    levels
}

} // verus!
