use orderbook_aggregator::aggregator::{Aggregator, AggregatorAction, QueueEvent, Summary};
use orderbook_aggregator::constants::{Feed, MSG_OFFSET_BINANCE, MSG_OFFSET_BITSTAMP};
use orderbook_aggregator::error::ClientError;
use orderbook_aggregator::listener::{Listener, ListenerAction, ListenerEvent};

/// A frame of Binance: asks rise from `ask` cents, bids fall from `bid` cents.
fn binance_frame(update_id: u64, ask: i128, bid: i128) -> String {
    let mut bids = Vec::new();
    let mut asks = Vec::new();
    for i in 0..20 {
        let k = i as i128;
        bids.push(format!("[\"{}.{:02}\",\"{}\"]", (bid - k) / 100, (bid - k) % 100, i + 1));
        asks.push(format!("[\"{}.{:02}\",\"{}\"]", (ask + k) / 100, (ask + k) % 100, i + 1));
    }
    format!(
        "{{\"stream\":\"btcusdt@depth20@100ms\",\"data\":{{\"lastUpdateId\":{:011},\"bids\":[{}],\"asks\":[{}]}}}}",
        update_id,
        bids.join(","),
        asks.join(",")
    )
}

/// A frame of Bitstamp: asks rise from `ask` tenths of a cent, bids fall
/// from `bid` tenths of a cent, ten tenths at a time.
fn bitstamp_frame(microtimestamp: u64, ask: i128, bid: i128) -> String {
    let mut bids = Vec::new();
    let mut asks = Vec::new();
    for i in 0..10 {
        let k = 10 * i as i128;
        bids.push(format!("[\"{}.{:03}\",\"{}\"]", (bid - k) / 1000, (bid - k) % 1000, i + 1));
        asks.push(format!("[\"{}.{:03}\",\"{}\"]", (ask + k) / 1000, (ask + k) % 1000, i + 1));
    }
    format!(
        "{{\"data\":{{\"timestamp\":\"1686616236\",\"microtimestamp\":\"{:016}\",\"bids\":[{}],\"asks\":[{}]}},\"channel\":\"order_book_btcusd\",\"event\":\"data\"}}",
        microtimestamp,
        bids.join(","),
        asks.join(",")
    )
}

fn subscribed(feed: Feed) -> Listener {
    let (offset, ack) = match feed {
        Feed::BinanceSpot => (MSG_OFFSET_BINANCE, "{\"result\":null,\"id\":1}"),
        Feed::BitstampSpot => (MSG_OFFSET_BITSTAMP, "{\"event\":\"bts:subscription_succeeded\"}"),
    };
    let mut listener = Listener::new(feed, offset, "btcusdt".to_owned());
    listener.step(ListenerEvent::Connected);
    assert!(matches!(
        listener.step(ListenerEvent::Frame(Ok(ack.to_owned()))),
        ListenerAction::Read
    ));
    listener
}

/// A listener that is subscribed and has read its first frame.
fn warmed_up(feed: Feed) -> Listener {
    let mut listener = subscribed(feed);
    let first = match feed {
        Feed::BinanceSpot => binance_frame(0, 5000, 4000),
        Feed::BitstampSpot => bitstamp_frame(0, 50_000, 40_000),
    };
    assert!(matches!(listener.step(ListenerEvent::Frame(Ok(first))), ListenerAction::Read));
    listener
}

/// Hands what a listener forwards to the aggregator; says how many books
/// went over.
fn deliver(
    listener: &mut Listener,
    aggregator: &mut Aggregator,
    event: ListenerEvent,
) -> usize {
    match listener.step(event) {
        ListenerAction::Forward(item)
        | ListenerAction::Exclude(item)
        | ListenerAction::Reconnect(item) => {
            assert!(matches!(aggregator.step(QueueEvent::Item(item)), AggregatorAction::Poll));
            1
        }
        _ => 0,
    }
}

fn quiesce(aggregator: &mut Aggregator) -> Option<Summary> {
    match aggregator.step(QueueEvent::Empty) {
        AggregatorAction::Publish(summary) => Some(summary),
        AggregatorAction::Wait => None,
        AggregatorAction::Poll => panic!("an empty queue is not looked at again at once"),
    }
}

#[test]
fn nothing_is_published_before_a_feed_has_sent_something() {
    let mut aggregator = Aggregator::new();
    let _binance = subscribed(Feed::BinanceSpot);
    let _bitstamp = subscribed(Feed::BitstampSpot);
    assert!(quiesce(&mut aggregator).is_none());
    assert!(quiesce(&mut aggregator).is_none());
}

#[test]
fn the_first_frame_of_a_feed_is_not_published() {
    let mut aggregator = Aggregator::new();
    let mut binance = subscribed(Feed::BinanceSpot);
    let frame = binance_frame(36126961578, 1000, 999);
    assert_eq!(deliver(&mut binance, &mut aggregator, ListenerEvent::Frame(Ok(frame))), 0);
    assert!(quiesce(&mut aggregator).is_none());
}

#[test]
fn one_feed_is_published_under_its_name() {
    let mut aggregator = Aggregator::new();
    let mut binance = warmed_up(Feed::BinanceSpot);
    let frame = binance_frame(36126961578, 1000, 999);
    assert_eq!(deliver(&mut binance, &mut aggregator, ListenerEvent::Frame(Ok(frame))), 1);
    let summary = quiesce(&mut aggregator).expect("a summary");
    assert_eq!(summary.asks.len(), 10);
    assert_eq!(summary.bids.len(), 10);
    for i in 0..10 {
        let k = i as i128;
        assert_eq!(summary.asks[i].exchange, "binance");
        assert_eq!(summary.bids[i].exchange, "binance");
        assert_eq!((summary.asks[i].price.mantissa(), summary.asks[i].price.scale()), (1000 + k, 2));
        assert_eq!((summary.bids[i].price.mantissa(), summary.bids[i].price.scale()), (999 - k, 2));
        assert_eq!(summary.asks[i].amount.mantissa(), k + 1);
        assert_eq!(summary.bids[i].amount.mantissa(), k + 1);
    }
    assert_eq!((summary.spread.mantissa(), summary.spread.scale()), (1, 2));
    assert!(quiesce(&mut aggregator).is_none());
}

#[test]
fn two_feeds_are_merged_with_their_names() {
    let mut aggregator = Aggregator::new();
    let mut binance = warmed_up(Feed::BinanceSpot);
    let mut bitstamp = warmed_up(Feed::BitstampSpot);
    deliver(&mut binance, &mut aggregator, ListenerEvent::Frame(Ok(binance_frame(1, 1000, 999))));
    deliver(
        &mut bitstamp,
        &mut aggregator,
        ListenerEvent::Frame(Ok(bitstamp_frame(1686616236740643, 9_995, 9_985))),
    );
    let summary = quiesce(&mut aggregator).expect("a summary");
    let asks: Vec<(String, i128, u32)> = summary
        .asks
        .iter()
        .map(|l| (l.exchange.clone(), l.price.mantissa(), l.price.scale()))
        .collect();
    let mut expected = Vec::new();
    for i in 0..5 {
        expected.push(("bitstamp".to_owned(), 9_995 + 10 * i, 3));
        expected.push(("binance".to_owned(), 1000 + i, 2));
    }
    assert_eq!(asks, expected);
    assert_eq!(summary.bids[0].exchange, "binance");
    assert_eq!(summary.bids[0].price.mantissa(), 999);
    assert_eq!(summary.bids[1].exchange, "bitstamp");
    assert_eq!(summary.bids[1].price.mantissa(), 9_985);
    assert_eq!((summary.spread.mantissa(), summary.spread.scale()), (5, 3));
}

#[test]
fn a_feed_that_drops_is_left_out_until_it_is_back() {
    let mut aggregator = Aggregator::new();
    let mut binance = warmed_up(Feed::BinanceSpot);
    let mut bitstamp = warmed_up(Feed::BitstampSpot);
    deliver(&mut binance, &mut aggregator, ListenerEvent::Frame(Ok(binance_frame(1, 1000, 999))));
    deliver(
        &mut bitstamp,
        &mut aggregator,
        ListenerEvent::Frame(Ok(bitstamp_frame(1686616236740643, 9_995, 9_985))),
    );
    let before = quiesce(&mut aggregator).expect("a summary");
    assert!(before.asks.iter().any(|l| l.exchange == "binance"));

    assert_eq!(
        deliver(
            &mut binance,
            &mut aggregator,
            ListenerEvent::Frame(Err(ClientError::EndpointClosedConnection))
        ),
        1
    );
    let during = quiesce(&mut aggregator).expect("a summary");
    assert!(during.asks.iter().all(|l| l.exchange == "bitstamp"));
    assert!(during.bids.iter().all(|l| l.exchange == "bitstamp"));

    assert!(matches!(binance.step(ListenerEvent::Connected), ListenerAction::Subscribe(_)));
    assert!(matches!(
        binance.step(ListenerEvent::Frame(Ok("{\"result\":null,\"id\":1}".to_owned()))),
        ListenerAction::Read
    ));
    assert_eq!(
        deliver(&mut binance, &mut aggregator, ListenerEvent::Frame(Ok(binance_frame(2, 1001, 999)))),
        1
    );
    let after = quiesce(&mut aggregator).expect("a summary");
    assert!(after.asks.iter().any(|l| l.exchange == "binance"));
    assert!(after.bids.iter().any(|l| l.exchange == "binance"));
}

#[test]
fn the_same_frame_over_and_over_gives_one_book_and_one_summary() {
    let mut aggregator = Aggregator::new();
    let mut binance = subscribed(Feed::BinanceSpot);
    let mut books = 0;
    let mut summaries = 0;
    for round in 0..1000u64 {
        books += deliver(
            &mut binance,
            &mut aggregator,
            ListenerEvent::Frame(Ok(binance_frame(36126961578 + round, 1000, 999))),
        );
        if quiesce(&mut aggregator).is_some() {
            summaries += 1;
        }
    }
    assert_eq!(books, 1);
    assert_eq!(summaries, 1);
}
