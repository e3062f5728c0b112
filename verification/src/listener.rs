//! The listener of one feed: from frames to books.
//!
//! A feed sends its order book many times a second, and most frames differ
//! from the one before only in their time stamps. The listener therefore
//! compares what a frame carries behind its preamble with what the last
//! forwarded frame carried there, and parses a frame only where that differs.
//! Reading frames and pushing books are the caller's work: `step` takes what
//! happened on the connection and answers what to do next.

use crate::book::{unhealthy_view, BookView, FeedOrderBook, Order, OrderBookTopN};
use crate::constants::{Feed, INIT_DUMMY_MSG, TOP_N_BBO};
use crate::decimal::{parsed_decimal, Decimal};
use crate::error::{ClientError, ListenerError, SubscriberError};
use crate::subscriber::{is_subscribe_ack, subscribe_request_of, Subscriber};
use crate::text::{payload, same_payload, text_of_bytes};
use vstd::prelude::*;
use vstd::slice::slice_to_vec;
use vstd::utf8::{decode_utf8, encode_utf8, valid_utf8};

verus! {

/// What `gjson` finds at a path of a JSON document, read as a table: one row
/// for each element of the array at the path, one cell for each element of a
/// row, each cell as the bytes that `gjson` gives for it. The bytes of a
/// cell need not be text.
pub uninterp spec fn json_rows(document: Seq<char>, path: Seq<char>) -> Seq<Seq<Seq<u8>>>;

/// A table as a value.
pub open spec fn rows_view(rows: Vec<Vec<Vec<u8>>>) -> Seq<Seq<Seq<u8>>> {
    rows@.map_values(|row: Vec<Vec<u8>>| row@.map_values(|cell: Vec<u8>| cell@))
}

/// A row as a value.
pub open spec fn row_view(row: Vec<Vec<u8>>) -> Seq<Seq<u8>> {
    row@.map_values(|cell: Vec<u8>| cell@)
}

/// The decimal that a cell holds: its bytes read as text, the text read as a
/// decimal. A cell that is not text holds none.
pub open spec fn cell_decimal(cell: Seq<u8>) -> Option<(int, nat)> {
    if valid_utf8(cell) {
        parsed_decimal(decode_utf8(cell))
    } else {
        None
    }
}

/// Whether a decimal, given as (mantissa, scale), is below zero.
pub open spec fn is_negative(parts: (int, nat)) -> bool {
    parts.0 < 0
}

/// Price and amount of a row: its first two cells, read as decimals. An
/// amount is never negative, so a row with a negative one is no level.
pub open spec fn level_of_row(row: Seq<Seq<u8>>) -> Option<(Decimal, Decimal)> {
    if row.len() >= 2 && cell_decimal(row[0]) is Some && cell_decimal(row[1]) is Some
        && !is_negative(cell_decimal(row[1])->0) {
        Some((Decimal::of(cell_decimal(row[0])->0), Decimal::of(cell_decimal(row[1])->0)))
    } else {
        None
    }
}

/// The number of rows that are read: all of them, up to `limit`.
pub open spec fn rows_read(rows: Seq<Seq<Seq<u8>>>, limit: nat) -> nat {
    if rows.len() <= limit {
        rows.len()
    } else {
        limit
    }
}

/// Price and amount of the first `limit` rows, or `None` where one of those
/// rows is not a price and an amount.
pub open spec fn levels_of_rows(rows: Seq<Seq<Seq<u8>>>, limit: nat) -> Option<
    Seq<(Decimal, Decimal)>,
> {
    if forall|i: int| 0 <= i < rows_read(rows, limit) ==> (#[trigger] level_of_row(rows[i])) is Some {
        Some(Seq::new(rows_read(rows, limit), |i: int| level_of_row(rows[i])->0))
    } else {
        None
    }
}

/// One side of a book from its levels: the levels in their order under the
/// feed's name, and empty orders where the feed sent fewer than a side holds.
pub open spec fn orders_of_levels(feed: Feed, levels: Seq<(Decimal, Decimal)>) -> Seq<Order> {
    Seq::new(
        TOP_N_BBO as nat,
        |i: int|
            if i < levels.len() {
                Order { feed, price: levels[i].0, amount: levels[i].1 }
            } else {
                Order::empty()
            },
    )
}

/// One side of a book, read from the array at a path of a frame.
pub open spec fn side_of_document(feed: Feed, document: Seq<char>, path: Seq<char>) -> Option<
    Seq<Order>,
> {
    match levels_of_rows(json_rows(document, path), TOP_N_BBO as nat) {
        Some(levels) => Some(orders_of_levels(feed, levels)),
        None => None,
    }
}

/// The book that a frame holds: asks from `data.asks`, bids from `data.bids`.
pub open spec fn snapshot_of(feed: Feed, document: Seq<char>) -> Option<BookView> {
    match (
        side_of_document(feed, document, "data.asks"@),
        side_of_document(feed, document, "data.bids"@),
    ) {
        (Some(asks), Some(bids)) => Some(BookView { asks, bids }),
        _ => None,
    }
}

/// Whether a frame carries something else behind its preamble than another.
pub open spec fn orderbook_changed(old_msg: Seq<char>, new_msg: Seq<char>, offset: usize) -> bool {
    payload(encode_utf8(old_msg), offset as int) != payload(encode_utf8(new_msg), offset as int)
}

/// The decimal that a cell holds.
pub fn parse_cell(cell: &Vec<u8>) -> (decimal: Option<Decimal>)
    ensures
        decimal is Some <==> cell_decimal(cell@) is Some,
        decimal matches Some(d) ==> Some(d@) == cell_decimal(cell@),
{
    match text_of_bytes(slice_to_vec(cell.as_slice())) {
        Some(text) => Decimal::parse(text.as_str()),
        None => None,
    }
}

/// Price and amount of one row.
pub fn parse_level(row: &Vec<Vec<u8>>) -> (level: Option<(Decimal, Decimal)>)
    ensures
        level == level_of_row(row_view(*row)),
{
    if row.len() < 2 {
        return None;
    }
    assert(row_view(*row)[0] == row[0]@);
    assert(row_view(*row)[1] == row[1]@);
    match parse_cell(&row[0]) {
        Some(price) => match parse_cell(&row[1]) {
            Some(amount) => {
                if amount.mantissa() < 0 {
                    return None;
                }
                proof {
                    price.lemma_of_view();
                    amount.lemma_of_view();
                }
                Some((price, amount))
            },
            None => None,
        },
        None => None,
    }
}

/// Price and amount of the first `limit` rows of a table, or `None` where
/// one of those rows is not a price and an amount.
pub fn parse_levels(rows: &Vec<Vec<Vec<u8>>>, limit: usize) -> (levels: Option<
    Vec<(Decimal, Decimal)>,
>)
    ensures
        levels is Some <==> levels_of_rows(rows_view(*rows), limit as nat) is Some,
        levels matches Some(found) ==> Some(found@) == levels_of_rows(
            rows_view(*rows),
            limit as nat,
        ),
{
    let ghost table = rows_view(*rows);
    let count = if rows.len() <= limit {
        rows.len()
    } else {
        limit
    };
    let mut found: Vec<(Decimal, Decimal)> = Vec::with_capacity(count);
    let mut i: usize = 0;
    while i < count
        invariant
            i <= count,
            count == rows_read(table, limit as nat),
            count <= rows.len(),
            table == rows_view(*rows),
            found.len() == i,
            forall|k: int| 0 <= k < i ==> (#[trigger] level_of_row(table[k])) is Some,
            forall|k: int| 0 <= k < i ==> #[trigger] found[k] == level_of_row(table[k])->0,
        decreases count - i,
    {
        assert(table[i as int] == row_view(rows[i as int]));
        match parse_level(&rows[i]) {
            Some(level) => {
                found.push(level);
            },
            None => {
                assert(!(level_of_row(table[i as int]) is Some));
                return None;
            },
        }
        i += 1;
    }
    assert(found@ =~= levels_of_rows(table, limit as nat)->0);
    Some(found)
}

/// One side of a book from its levels.
pub fn orders_from_levels(feed: Feed, levels: &Vec<(Decimal, Decimal)>) -> (orders: [Order;
    TOP_N_BBO])
    ensures
        orders@ == orders_of_levels(feed, levels@),
{
    let empty = Order::default();
    let mut side = [empty;TOP_N_BBO];
    let mut i: usize = 0;
    while i < TOP_N_BBO
        invariant
            i <= TOP_N_BBO,
            empty == Order::empty(),
            forall|k: int| 0 <= k < i ==> #[trigger] side[k] == orders_of_levels(feed, levels@)[k],
        decreases TOP_N_BBO - i,
    {
        if i < levels.len() {
            let level = levels[i];
            side[i] = Order { feed, price: level.0, amount: level.1 };
        } else {
            side[i] = empty;
        }
        i += 1;
    }
    assert(side@ =~= orders_of_levels(feed, levels@));
    side
}

/// Reading the books that a feed's frames hold.
pub trait ParseMsg {
    /// One side of a book, read from the array at a path of a frame: the
    /// first `TOP_N_BBO` rows as orders of the feed, or `None` where one of
    /// them is not a price and an amount.
    fn parse_json_array_slice(&self, feed: Feed, msg: &str, gjson_path: &str) -> (orders: Option<
        [Order; TOP_N_BBO],
    >)
        ensures
            orders is Some <==> side_of_document(feed, msg@, gjson_path@) is Some,
            orders matches Some(found) ==> Some(found@) == side_of_document(
                feed,
                msg@,
                gjson_path@,
            ),
    {
        let rows = json_byte_rows(msg, gjson_path);
        match parse_levels(&rows, TOP_N_BBO) {
            Some(levels) => Some(orders_from_levels(feed, &levels)),
            None => None,
        }
    }

    /// The book that a frame holds, or `None` where the frame cannot be read
    /// as one.
    ///
    /// What is taken for granted of a frame and not looked at: that it holds
    /// at least `TOP_N_BBO` asks and bids, asks from the lowest price up and
    /// bids from the highest price down.
    fn parse_orderbook_snap(&self, feed: Feed, msg: &str) -> (book: Option<OrderBookTopN>)
        ensures
            book is Some <==> snapshot_of(feed, msg@) is Some,
            book matches Some(found) ==> Some(found@) == snapshot_of(feed, msg@),
    {
        match self.parse_json_array_slice(feed, msg, "data.asks") {
            Some(asks) => match self.parse_json_array_slice(feed, msg, "data.bids") {
                Some(bids) => Some(OrderBookTopN { asks, bids }),
                None => None,
            },
            None => None,
        }
    }
}

/// Where a listener stands.
#[derive(Clone, Copy, Debug, PartialEq, Eq, Structural)]
pub enum ListenerState {
    /// The connection is being made.
    Connecting,
    /// The subscription was asked for; its confirmation is awaited.
    Subscribing,
    /// Frames are read and forwarded.
    Streaming,
    /// The connection was lost and is being made again.
    Recovering,
    /// The listener has given up.
    Fatal,
}

/// What happened on the connection.
#[derive(Debug)]
pub enum ListenerEvent {
    /// The connection stands.
    Connected,
    /// The connection could not be made.
    ConnectFailed,
    /// A message was read, or reading failed.
    Frame(Result<String, ClientError>),
}

/// What the listener's caller does next.
#[derive(Debug)]
pub enum ListenerAction {
    /// Send this request, which subscribes to the order-book channel, then
    /// read a message.
    Subscribe(String),
    /// Read the next message.
    Read,
    /// Push the book to the aggregator, then read the next message.
    Forward(FeedOrderBook),
    /// The message could not be read as a book: warn, then read the next
    /// message.
    Discard,
    /// Push the unhealthy book, which takes the feed out of the summaries,
    /// then read the next message.
    Exclude(FeedOrderBook),
    /// Push the unhealthy book, then make the connection again.
    Reconnect(FeedOrderBook),
    /// Stop with this error. Where the subscription was not confirmed, the
    /// subscriber's error comes with it.
    Fail(ListenerError, Option<SubscriberError>),
}

/// An action as a value.
pub enum ListenerActionView {
    Subscribe(Seq<char>),
    Read,
    Forward(Feed, BookView),
    Discard,
    Exclude(Feed, BookView),
    Reconnect(Feed, BookView),
    /// With `Some` where the subscription was not confirmed: the message
    /// that was read in place of the confirmation, if one could be read.
    Fail(Option<Option<Seq<char>>>),
}

impl View for ListenerAction {
    type V = ListenerActionView;

    open spec fn view(&self) -> ListenerActionView {
        match self {
            ListenerAction::Subscribe(request) => ListenerActionView::Subscribe(request@),
            ListenerAction::Read => ListenerActionView::Read,
            ListenerAction::Forward(item) => ListenerActionView::Forward(
                item.feed,
                item.orderbook@,
            ),
            ListenerAction::Discard => ListenerActionView::Discard,
            ListenerAction::Exclude(item) => ListenerActionView::Exclude(
                item.feed,
                item.orderbook@,
            ),
            ListenerAction::Reconnect(item) => ListenerActionView::Reconnect(
                item.feed,
                item.orderbook@,
            ),
            ListenerAction::Fail(_, cause) => ListenerActionView::Fail(
                match cause {
                    Some(e) => Some(e.payload_view()),
                    None => None,
                },
            ),
        }
    }
}

/// A listener as a value.
pub struct ListenerView {
    pub feed: Feed,
    pub instrument_name: Seq<char>,
    /// Where the order-book payload of a frame begins.
    pub offset: usize,
    /// The frame against which the next one is compared.
    pub baseline: Seq<char>,
    /// Whether a message that does not confirm the subscription has been
    /// let pass since the subscription was asked for.
    pub unsolicited_seen: bool,
    /// Whether the first frame has been read. Until then the baseline is
    /// `INIT_DUMMY_MSG`.
    pub warm: bool,
    pub state: ListenerState,
}

impl ListenerView {
    /// The listener in another state.
    pub open spec fn in_state(self, state: ListenerState) -> ListenerView {
        ListenerView { state, ..self }
    }

    /// The answer to a frame of a subscribed feed.
    ///
    /// The first frame that a listener reads is let pass as if nothing had
    /// changed, whatever it carries: nothing is published while the feed
    /// warms up. From then on a frame is forwarded where it carries
    /// something else behind its preamble than the last forwarded one (or,
    /// before any was forwarded, than `INIT_DUMMY_MSG`), and it then takes
    /// that frame's place. A frame that cannot be read as a book is dropped,
    /// and nothing else changes.
    pub open spec fn on_message(self, msg: Seq<char>) -> (ListenerView, ListenerActionView) {
        if !self.warm {
            (ListenerView { warm: true, ..self }, ListenerActionView::Read)
        } else if !orderbook_changed(self.baseline, msg, self.offset) {
            (self, ListenerActionView::Read)
        } else {
            match snapshot_of(self.feed, msg) {
                Some(book) => (
                    ListenerView { baseline: msg, ..self },
                    ListenerActionView::Forward(self.feed, book),
                ),
                None => (self, ListenerActionView::Discard),
            }
        }
    }

    /// The answer to a message that was read while the confirmation of the
    /// subscription is awaited.
    ///
    /// Some feeds greet a new connection with a message of their own before
    /// they confirm anything. So one message that is no confirmation is let
    /// pass; a second one means that the subscription has failed.
    pub open spec fn on_answer(self, answer: Seq<char>) -> (ListenerView, ListenerActionView) {
        if is_subscribe_ack(self.feed, answer) {
            (self.in_state(ListenerState::Streaming), ListenerActionView::Read)
        } else if !self.unsolicited_seen {
            (ListenerView { unsolicited_seen: true, ..self }, ListenerActionView::Read)
        } else {
            (self.in_state(ListenerState::Fatal), ListenerActionView::Fail(Some(Some(answer))))
        }
    }

    /// The state after an event, and the action that answers it.
    ///
    /// Once the connection stands, the subscription is asked for, and once
    /// it is confirmed, frames are read. A message that is not text takes
    /// the feed out of the summaries, and reading goes on. A connection that
    /// is closed or broken takes the feed out of the summaries too, and is
    /// then made again. The listener gives up where the connection cannot be
    /// made, or where the subscription is not confirmed.
    pub open spec fn next(self, event: ListenerEvent) -> (ListenerView, ListenerActionView) {
        match self.state {
            ListenerState::Connecting | ListenerState::Recovering => match event {
                ListenerEvent::Connected => (
                    ListenerView {
                        state: ListenerState::Subscribing,
                        unsolicited_seen: false,
                        ..self
                    },
                    ListenerActionView::Subscribe(
                        subscribe_request_of(self.feed, self.instrument_name),
                    ),
                ),
                _ => (self.in_state(ListenerState::Fatal), ListenerActionView::Fail(None)),
            },
            ListenerState::Subscribing => match event {
                ListenerEvent::Frame(Ok(answer)) => self.on_answer(answer@),
                ListenerEvent::Frame(Err(_)) => (
                    self.in_state(ListenerState::Fatal),
                    ListenerActionView::Fail(Some(None)),
                ),
                _ => (self.in_state(ListenerState::Fatal), ListenerActionView::Fail(None)),
            },
            ListenerState::Streaming => match event {
                ListenerEvent::Frame(Ok(msg)) => self.on_message(msg@),
                ListenerEvent::Frame(Err(ClientError::ParsingError)) => (
                    self,
                    ListenerActionView::Exclude(self.feed, unhealthy_view()),
                ),
                ListenerEvent::Frame(Err(_)) => (
                    self.in_state(ListenerState::Recovering),
                    ListenerActionView::Reconnect(self.feed, unhealthy_view()),
                ),
                _ => (self.in_state(ListenerState::Fatal), ListenerActionView::Fail(None)),
            },
            ListenerState::Fatal => (self, ListenerActionView::Fail(None)),
        }
    }

    /// The state after a sequence of events.
    pub open spec fn after(self, events: Seq<ListenerEvent>) -> ListenerView
        decreases events.len(),
    {
        if events.len() == 0 {
            self
        } else {
            self.after(events.drop_last()).next(events.last()).0
        }
    }

    /// The number of books forwarded in answer to a sequence of events.
    pub open spec fn forwarded(self, events: Seq<ListenerEvent>) -> nat
        decreases events.len(),
    {
        if events.len() == 0 {
            0
        } else {
            let before = self.forwarded(events.drop_last());
            if self.after(events.drop_last()).next(events.last()).1 is Forward {
                before + 1
            } else {
                before
            }
        }
    }
}

/// The listener of one feed.
pub struct Listener {
    feed: Feed,
    instrument_name: String,
    msg_offset_orderbook_start: usize,
    subscriber: Subscriber,
    old_msg: String,
    unsolicited_seen: bool,
    warm: bool,
    state: ListenerState,
}

impl View for Listener {
    type V = ListenerView;

    closed spec fn view(&self) -> ListenerView {
        ListenerView {
            feed: self.feed,
            instrument_name: self.instrument_name@,
            offset: self.msg_offset_orderbook_start,
            baseline: self.old_msg@,
            unsolicited_seen: self.unsolicited_seen,
            warm: self.warm,
            state: self.state,
        }
    }
}

impl ParseMsg for Listener {

}

impl Listener {
    /// The listener's subscriber always belongs to the listener's feed.
    #[verifier::type_invariant]
    closed spec fn wf(self) -> bool {
        self.subscriber.feed == self.feed
    }

    /// A listener that is about to connect. Before the feed has sent
    /// anything, `INIT_DUMMY_MSG` stands for the last frame.
    pub fn new(feed: Feed, msg_offset_orderbook_start: usize, instrument_name: String) -> (listener:
        Listener)
        ensures
            listener@ == (ListenerView {
                feed,
                instrument_name: instrument_name@,
                offset: msg_offset_orderbook_start,
                baseline: INIT_DUMMY_MSG@,
                unsolicited_seen: false,
                warm: false,
                state: ListenerState::Connecting,
            }),
    {
        Listener {
            feed,
            instrument_name,
            msg_offset_orderbook_start,
            subscriber: Subscriber::new(feed),
            old_msg: INIT_DUMMY_MSG.to_owned(),
            unsolicited_seen: false,
            warm: false,
            state: ListenerState::Connecting,
        }
    }

    /// A listener of the feed that `T` stands for, with the payload offset
    /// of that feed's frames.
    pub fn of<T: crate::feed::Feed>(instrument_name: String) -> (listener: Listener)
        ensures
            listener@ == (ListenerView {
                feed: T::id(),
                instrument_name: instrument_name@,
                offset: T::id().payload_offset(),
                baseline: INIT_DUMMY_MSG@,
                unsolicited_seen: false,
                warm: false,
                state: ListenerState::Connecting,
            }),
    {
        let feed = T::feed();
        Listener::new(feed, feed.msg_offset_orderbook_start(), instrument_name)
    }

    pub fn feed(&self) -> (feed: Feed)
        ensures
            feed == self@.feed,
    {
        self.feed
    }

    pub fn state(&self) -> (state: ListenerState)
        ensures
            state == self@.state,
    {
        self.state
    }

    /// The request that subscribes to the listener's instrument.
    pub fn subscribe_request(&self) -> (request: String)
        ensures
            request@ == subscribe_request_of(self@.feed, self@.instrument_name),
    {
        proof {
            use_type_invariant(self);
        }
        self.subscriber.subscribe_request(self.instrument_name.as_str())
    }

    /// Whether `new_msg` carries something else behind the preamble than
    /// `old_msg`: whether their bytes from the listener's offset on differ.
    /// What stands before the offset does not count.
    pub fn has_orderbook_changed(&self, old_msg: &str, new_msg: &str) -> (changed: bool)
        ensures
            changed == orderbook_changed(old_msg@, new_msg@, self@.offset),
    {
        !same_payload(old_msg.as_bytes(), new_msg.as_bytes(), self.msg_offset_orderbook_start)
    }

    /// The book that takes the listener's feed out of the summaries.
    pub fn exclude_listener_from_grpc_stream(&self) -> (item: FeedOrderBook)
        ensures
            item.feed == self@.feed,
            item.orderbook@ == unhealthy_view(),
            item.orderbook.is_unhealthy(),
    {
        FeedOrderBook { feed: self.feed, orderbook: OrderBookTopN::unhealthy() }
    }

    /// Takes what happened on the connection and says what to do next.
    pub fn step(&mut self, event: ListenerEvent) -> (action: ListenerAction)
        ensures
            (final(self)@, action@) == old(self)@.next(event),
    {
        proof {
            use_type_invariant(&*self);
        }
        match self.state {
            ListenerState::Connecting | ListenerState::Recovering => match event {
                ListenerEvent::Connected => {
                    self.state = ListenerState::Subscribing;
                    self.unsolicited_seen = false;
                    ListenerAction::Subscribe(self.subscribe_request())
                },
                _ => {
                    self.state = ListenerState::Fatal;
                    ListenerAction::Fail(ListenerError, None)
                },
            },
            ListenerState::Subscribing => match event {
                ListenerEvent::Frame(answer) => {
                    match self.subscriber.subscribe_to_l2_snap(&answer) {
                        Ok(_) => {
                            self.state = ListenerState::Streaming;
                            ListenerAction::Read
                        },
                        Err(e) => {
                            if answer.is_ok() && !self.unsolicited_seen {
                                self.unsolicited_seen = true;
                                ListenerAction::Read
                            } else {
                                self.state = ListenerState::Fatal;
                                ListenerAction::Fail(ListenerError, Some(e))
                            }
                        },
                    }
                },
                _ => {
                    self.state = ListenerState::Fatal;
                    ListenerAction::Fail(ListenerError, None)
                },
            },
            ListenerState::Streaming => match event {
                ListenerEvent::Frame(Ok(msg)) => {
                    if !self.warm {
                        self.warm = true;
                        ListenerAction::Read
                    } else if !self.has_orderbook_changed(self.old_msg.as_str(), msg.as_str()) {
                        ListenerAction::Read
                    } else {
                        match self.parse_orderbook_snap(self.feed, msg.as_str()) {
                            Some(orderbook) => {
                                self.old_msg = msg;
                                ListenerAction::Forward(FeedOrderBook { feed: self.feed, orderbook })
                            },
                            None => ListenerAction::Discard,
                        }
                    }
                },
                ListenerEvent::Frame(Err(ClientError::ParsingError)) => ListenerAction::Exclude(
                    self.exclude_listener_from_grpc_stream(),
                ),
                ListenerEvent::Frame(Err(_)) => {
                    self.state = ListenerState::Recovering;
                    ListenerAction::Reconnect(self.exclude_listener_from_grpc_stream())
                },
                _ => {
                    self.state = ListenerState::Fatal;
                    ListenerAction::Fail(ListenerError, None)
                },
            },
            ListenerState::Fatal => ListenerAction::Fail(ListenerError, None),
        }
    }
}

/// The events of messages that were read: one after the other.
pub open spec fn frames(msgs: Seq<String>) -> Seq<ListenerEvent> {
    msgs.map_values(|msg: String| ListenerEvent::Frame(Ok(msg)))
}

/// The number of books that a run of frames with one and the same payload
/// brings about: one, where the payload is new and the run reaches past the
/// frame that a listener lets pass at its start; else none.
pub open spec fn forwarded_of_same(listener: ListenerView, msgs: Seq<String>) -> nat {
    if msgs.len() > (if listener.warm {
        0nat
    } else {
        1nat
    }) && orderbook_changed(listener.baseline, msgs[0]@, listener.offset) {
        1
    } else {
        0
    }
}

/// How a streaming listener gets through a run of frames with one and the
/// same payload, each of which can be read as a book.
proof fn lemma_run_of_same(listener: ListenerView, msgs: Seq<String>)
    requires
        listener.state == ListenerState::Streaming,
        forall|i: int|
            0 <= i < msgs.len() ==> !orderbook_changed(
                msgs[0]@,
                (#[trigger] msgs[i])@,
                listener.offset,
            ),
        forall|i: int|
            0 <= i < msgs.len() ==> snapshot_of(listener.feed, (#[trigger] msgs[i])@) is Some,
    ensures
        listener.after(frames(msgs)).state == ListenerState::Streaming,
        listener.after(frames(msgs)).feed == listener.feed,
        listener.after(frames(msgs)).offset == listener.offset,
        listener.after(frames(msgs)).warm == (listener.warm || msgs.len() >= 1),
        listener.forwarded(frames(msgs)) == forwarded_of_same(listener, msgs),
        listener.forwarded(frames(msgs)) == 1 ==> !orderbook_changed(
            msgs[0]@,
            listener.after(frames(msgs)).baseline,
            listener.offset,
        ),
        listener.forwarded(frames(msgs)) == 0 ==> listener.after(frames(msgs)).baseline
            == listener.baseline,
    decreases msgs.len(),
{
    if msgs.len() > 0 {
        let earlier = msgs.drop_last();
        assert(frames(msgs).drop_last() =~= frames(earlier));
        assert(frames(msgs).last() == ListenerEvent::Frame(Ok(msgs.last())));
        assert forall|i: int| 0 <= i < earlier.len() implies !orderbook_changed(
            earlier[0]@,
            (#[trigger] earlier[i])@,
            listener.offset,
        ) by {
            assert(earlier[i] == msgs[i]);
            assert(earlier[0] == msgs[0]);
        }
        assert forall|i: int| 0 <= i < earlier.len() implies snapshot_of(
            listener.feed,
            (#[trigger] earlier[i])@,
        ) is Some by {
            assert(earlier[i] == msgs[i]);
        }
        lemma_run_of_same(listener, earlier);
        let last = msgs[msgs.len() - 1];
        assert(!orderbook_changed(msgs[0]@, last@, listener.offset));
        assert(snapshot_of(listener.feed, last@) is Some);
        if earlier.len() > 0 {
            assert(earlier[0] == msgs[0]);
        }
    }
}

/// No duplicate publication: of a run of frames that carry one and the same
/// payload and can each be read as a book, a streaming listener forwards
/// exactly one where the payload differs from that of the last forwarded
/// frame, and none where it does not. A listener that has not read a frame
/// yet lets the first of the run pass and forwards the second.
pub proof fn lemma_identical_frames_forward_once(listener: ListenerView, msgs: Seq<String>)
    requires
        listener.state == ListenerState::Streaming,
        forall|i: int|
            0 <= i < msgs.len() ==> !orderbook_changed(
                msgs[0]@,
                (#[trigger] msgs[i])@,
                listener.offset,
            ),
        forall|i: int|
            0 <= i < msgs.len() ==> snapshot_of(listener.feed, (#[trigger] msgs[i])@) is Some,
    ensures
        listener.forwarded(frames(msgs)) == forwarded_of_same(listener, msgs),
        listener.forwarded(frames(msgs)) <= 1,
{
    lemma_run_of_same(listener, msgs);
}

/// Change-filter determinism: whether a frame counts as changed depends on
/// nothing but the bytes of the two frames from the offset on. Frames that
/// differ only before the offset are unchanged.
pub proof fn lemma_change_is_in_the_payload(
    old_msg: Seq<char>,
    new_msg: Seq<char>,
    offset: usize,
)
    requires
        offset <= encode_utf8(old_msg).len(),
        offset <= encode_utf8(new_msg).len(),
    ensures
        orderbook_changed(old_msg, new_msg, offset) <==> encode_utf8(old_msg).skip(offset as int)
            != encode_utf8(new_msg).skip(offset as int),
        orderbook_changed(old_msg, new_msg, offset) == orderbook_changed(new_msg, old_msg, offset),
        !orderbook_changed(old_msg, old_msg, offset),
{
}

/// `gjson::get` at a path of a document, the found value's elements by
/// `array()`, each element's elements by `array()` again, and of each of
/// those the bytes of what `str()` gives. Document and path decide the
/// result. `gjson` reads without checking that the document is JSON and does
/// not fail on one that is not; what it gives for a cell need not be text,
/// so nothing is claimed of the bytes.
#[verifier::external_body]
fn json_byte_rows(document: &str, path: &str) -> (rows: Vec<Vec<Vec<u8>>>)
    ensures
        rows_view(rows) == json_rows(document@, path@),
{
    gjson::get(document, path)
        .array()
        .iter()
        .map(|row| row.array().iter().map(|cell| cell.str().as_bytes().to_vec()).collect())
        .collect()
}

} // verus!
