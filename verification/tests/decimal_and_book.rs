use orderbook_aggregator::book::{FeedOrderBook, Order, OrderBookTopN};
use orderbook_aggregator::constants::{
    Feed, Protocol, FEED_COUNT, GRPC_SERVER_PORT, INIT_DUMMY_MSG, MSG_OFFSET_BINANCE,
    MSG_OFFSET_BITSTAMP, ORDER_PRICE_INF, QUEUE_BUFFER_SIZE, TOP_N_BBO,
};
use orderbook_aggregator::decimal::{Decimal, MAX_MANTISSA, MAX_SCALE};
use orderbook_aggregator::error::{
    ClientError, Error, ListenerAggregatorError, ListenerError, SubscriberError,
};

fn parts(d: &Decimal) -> (i128, u32) {
    (d.mantissa(), d.scale())
}

fn dec(text: &str) -> Decimal {
    Decimal::parse(text).expect("a decimal")
}

#[test]
fn constants_have_their_values() {
    assert_eq!(QUEUE_BUFFER_SIZE, 1024 * 1024);
    assert_eq!(ORDER_PRICE_INF, 100_000_000);
    assert_eq!(TOP_N_BBO, 10);
    assert_eq!(GRPC_SERVER_PORT, 50051);
    assert_eq!(FEED_COUNT, 2);
    assert_eq!(MSG_OFFSET_BINANCE, 76);
    assert_eq!(MSG_OFFSET_BITSTAMP, 78);
    assert_eq!(INIT_DUMMY_MSG.len(), 78);
}

#[test]
fn feed_info_of_binance() {
    let info = Feed::BinanceSpot.feed_info();
    assert_eq!(info.domain, "stream.binance.com");
    assert_eq!(info.path, "/stream");
    assert_eq!(info.port, 9443);
    assert_eq!(info.protocol, Protocol::WEBSOCKETS);
}

#[test]
fn feed_info_of_bitstamp() {
    let info = Feed::BitstampSpot.feed_info();
    assert_eq!(info.domain, "ws.bitstamp.net");
    assert_eq!(info.path, "");
    assert_eq!(info.port, 443);
    assert_eq!(info.protocol, Protocol::WEBSOCKETS);
}

#[test]
fn feed_names_for_the_service() {
    assert_eq!(Feed::BinanceSpot.feed_name_for_grpc_service(), "binance");
    assert_eq!(Feed::BitstampSpot.feed_name_for_grpc_service(), "bitstamp");
}

#[test]
fn feed_index_and_back() {
    assert_eq!(Feed::BinanceSpot.index(), 0);
    assert_eq!(Feed::BitstampSpot.index(), 1);
    assert_eq!(Feed::from_index(0), Some(Feed::BinanceSpot));
    assert_eq!(Feed::from_index(1), Some(Feed::BitstampSpot));
    assert_eq!(Feed::from_index(2), None);
}

#[test]
fn feed_payload_offsets() {
    assert_eq!(Feed::BinanceSpot.msg_offset_orderbook_start(), 76);
    assert_eq!(Feed::BitstampSpot.msg_offset_orderbook_start(), 78);
}

#[test]
fn errors_are_shown_by_name() {
    assert_eq!(Error.to_string(), "MainError");
    assert_eq!(ClientError::Error.to_string(), "ClientError");
    assert_eq!(ClientError::ParsingError.to_string(), "ClientError");
    assert_eq!(ClientError::EndpointClosedConnection.to_string(), "ClientError");
    assert_eq!(ListenerError.to_string(), "MainError");
    assert_eq!(ListenerAggregatorError.to_string(), "ListenerAggregatorError");
    assert_eq!(SubscriberError { payload: None }.to_string(), "SubscriberError");
    assert_eq!(
        SubscriberError { payload: Some("{}".to_owned()) }.to_string(),
        "SubscriberError"
    );
}

#[test]
fn decimal_new_keeps_parts() {
    let d = Decimal::new(2700015, 2).expect("in range");
    assert_eq!(parts(&d), (2700015, 2));
    let n = Decimal::new(-5, 28).expect("in range");
    assert_eq!(parts(&n), (-5, 28));
}

#[test]
fn decimal_new_refuses_what_is_out_of_range() {
    assert!(Decimal::new(1, MAX_SCALE + 1).is_none());
    assert!(Decimal::new(MAX_MANTISSA + 1, 0).is_none());
    assert!(Decimal::new(-MAX_MANTISSA - 1, 0).is_none());
    assert!(Decimal::new(MAX_MANTISSA, MAX_SCALE).is_some());
    assert!(Decimal::new(-MAX_MANTISSA, 0).is_some());
}

#[test]
fn decimal_from_i32() {
    assert_eq!(parts(&Decimal::from_i32(0)), (0, 0));
    assert_eq!(parts(&Decimal::from_i32(ORDER_PRICE_INF)), (100_000_000, 0));
    assert_eq!(parts(&Decimal::from_i32(-ORDER_PRICE_INF)), (-100_000_000, 0));
}

#[test]
fn decimal_parse_reads_text_exactly() {
    assert_eq!(parts(&dec("27000.15")), (2700015, 2));
    assert_eq!(parts(&dec("0.00000001")), (1, 8));
    assert_eq!(parts(&dec("25890")), (25890, 0));
    assert_eq!(parts(&dec("-1.50")), (-150, 2));
    assert_eq!(parts(&dec("10.00")), (1000, 2));
}

#[test]
fn decimal_parse_refuses_what_is_no_number() {
    assert!(Decimal::parse("").is_none());
    assert!(Decimal::parse("abc").is_none());
    assert!(Decimal::parse("1.2.3").is_none());
}

#[test]
fn decimal_lt_orders_by_value_not_by_scale() {
    assert!(dec("1.5").lt(&dec("1.51")));
    assert!(!dec("1.51").lt(&dec("1.5")));
    assert!(!dec("1.50").lt(&dec("1.5")));
    assert!(!dec("1.5").lt(&dec("1.50")));
    assert!(dec("9.995").lt(&dec("10")));
    assert!(dec("-2").lt(&dec("-1.999")));
    assert!(dec("-0.01").lt(&dec("0")));
    assert!(!dec("3").lt(&dec("3")));
}

#[test]
fn decimal_lt_at_the_limits() {
    let max = Decimal::new(MAX_MANTISSA, 0).expect("in range");
    let tiny = Decimal::new(1, MAX_SCALE).expect("in range");
    let min = Decimal::new(-MAX_MANTISSA, 0).expect("in range");
    assert!(tiny.lt(&max));
    assert!(!max.lt(&tiny));
    assert!(min.lt(&tiny));
    assert!(min.lt(&max));
}

#[test]
fn decimal_checked_sub_is_exact() {
    let d = dec("10.00").checked_sub(&dec("9.99")).expect("fits");
    assert_eq!(parts(&d), (1, 2));
    let e = dec("9.995").checked_sub(&dec("10.00")).expect("fits");
    assert_eq!(parts(&e), (-5, 3));
    let f = dec("5").checked_sub(&dec("2")).expect("fits");
    assert_eq!(parts(&f), (3, 0));
}

#[test]
fn decimal_checked_sub_overflows_to_none() {
    let max = Decimal::new(MAX_MANTISSA, 0).expect("in range");
    let min = Decimal::new(-MAX_MANTISSA, 0).expect("in range");
    assert!(max.checked_sub(&min).is_none());
    assert!(min.checked_sub(&max).is_none());
}

#[test]
fn default_order_is_empty() {
    let order = Order::default();
    assert_eq!(order.feed, Feed::BinanceSpot);
    assert_eq!(parts(&order.price), (0, 0));
    assert_eq!(parts(&order.amount), (0, 0));
}

#[test]
fn default_book_holds_empty_orders() {
    let book = OrderBookTopN::default();
    assert_eq!(book.asks.len(), 10);
    assert_eq!(book.bids.len(), 10);
    for i in 0..TOP_N_BBO {
        assert_eq!(parts(&book.asks[i].price), (0, 0));
        assert_eq!(parts(&book.bids[i].price), (0, 0));
        assert_eq!(book.asks[i].feed, Feed::BinanceSpot);
    }
}

#[test]
fn set_unreachable_price_moves_prices_only() {
    let mut book = OrderBookTopN::default();
    for i in 0..TOP_N_BBO {
        book.asks[i].feed = Feed::BitstampSpot;
        book.asks[i].amount = dec("2.5");
        book.bids[i].amount = dec("0.75");
    }
    book.set_unreachable_price();
    for i in 0..TOP_N_BBO {
        assert_eq!(parts(&book.asks[i].price), (100_000_000, 0));
        assert_eq!(parts(&book.bids[i].price), (-100_000_000, 0));
        assert_eq!(book.asks[i].feed, Feed::BitstampSpot);
        assert_eq!(parts(&book.asks[i].amount), (25, 1));
        assert_eq!(book.bids[i].feed, Feed::BinanceSpot);
        assert_eq!(parts(&book.bids[i].amount), (75, 2));
    }
}

#[test]
fn unhealthy_book_stands_at_the_unreachable_price() {
    let book = OrderBookTopN::unhealthy();
    for i in 0..TOP_N_BBO {
        assert_eq!(parts(&book.asks[i].price), (100_000_000, 0));
        assert_eq!(parts(&book.bids[i].price), (-100_000_000, 0));
        assert_eq!(parts(&book.asks[i].amount), (0, 0));
        assert_eq!(parts(&book.bids[i].amount), (0, 0));
    }
}

#[test]
fn feed_order_book_carries_its_feed() {
    let item = FeedOrderBook { feed: Feed::BitstampSpot, orderbook: OrderBookTopN::unhealthy() };
    assert_eq!(item.feed, Feed::BitstampSpot);
    assert_eq!(parts(&item.orderbook.asks[0].price), (100_000_000, 0));
}
