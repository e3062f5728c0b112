use orderbook_aggregator::client::{read_msg, OpCode};
use orderbook_aggregator::constants::Feed;
use orderbook_aggregator::error::{ClientError, SubscriberError};
use orderbook_aggregator::session::{Session, SessionAction, SessionEvent, SessionState};
use orderbook_aggregator::subscriber::Subscriber;
use orderbook_aggregator::text::{same_payload, str_eq, text_of_bytes};

#[test]
fn a_text_frame_is_its_message() {
    let frame = Some((OpCode::Text, "{\"result\":null,\"id\":1}".as_bytes().to_vec()));
    assert_eq!(read_msg(frame), Ok("{\"result\":null,\"id\":1}".to_owned()));
    let umlaut = Some((OpCode::Text, "гривня €".as_bytes().to_vec()));
    assert_eq!(read_msg(umlaut), Ok("гривня €".to_owned()));
    assert_eq!(read_msg(Some((OpCode::Text, Vec::new()))), Ok(String::new()));
}

#[test]
fn a_text_frame_that_is_no_text_is_a_parsing_error() {
    let frame = Some((OpCode::Text, vec![0xff, 0xfe, 0x00]));
    assert_eq!(read_msg(frame), Err(ClientError::ParsingError));
    let cut = Some((OpCode::Text, vec![0xe2, 0x82]));
    assert_eq!(read_msg(cut), Err(ClientError::ParsingError));
}

#[test]
fn a_close_frame_says_that_the_peer_is_gone() {
    assert_eq!(
        read_msg(Some((OpCode::Close, vec![0x03, 0xe8]))),
        Err(ClientError::EndpointClosedConnection)
    );
}

#[test]
fn other_data_frames_are_parsing_errors() {
    assert_eq!(read_msg(Some((OpCode::Binary, b"abc".to_vec()))), Err(ClientError::ParsingError));
    assert_eq!(
        read_msg(Some((OpCode::Continuation, b"abc".to_vec()))),
        Err(ClientError::ParsingError)
    );
}

#[test]
fn a_failed_read_and_stray_control_frames_are_transport_errors() {
    assert_eq!(read_msg(None), Err(ClientError::Error));
    assert_eq!(read_msg(Some((OpCode::Ping, Vec::new()))), Err(ClientError::Error));
    assert_eq!(read_msg(Some((OpCode::Pong, b"x".to_vec()))), Err(ClientError::Error));
}

#[test]
fn text_of_bytes_knows_utf8() {
    assert_eq!(text_of_bytes(b"hello".to_vec()), Some("hello".to_owned()));
    assert_eq!(text_of_bytes(vec![0xc3, 0xa9]), Some("é".to_owned()));
    assert_eq!(text_of_bytes(vec![0xc3]), None);
    assert_eq!(text_of_bytes(vec![0x80]), None);
}

#[test]
fn same_payload_compares_from_the_offset_on() {
    assert!(same_payload(b"abcdef", b"xyzdef", 3));
    assert!(!same_payload(b"abcdef", b"xyzdeg", 3));
    assert!(!same_payload(b"abcdef", b"abcde", 3));
    assert!(same_payload(b"abc", b"xy", 5));
    assert!(same_payload(b"abc", b"abc", 0));
    assert!(!same_payload(b"abc", b"abd", 0));
    assert!(same_payload(b"abc", b"xyc", 2));
    assert!(same_payload(b"abc", b"xyz", 3));
}

#[test]
fn str_eq_compares_text() {
    assert!(str_eq("", ""));
    assert!(str_eq("bts:subscription_succeeded", "bts:subscription_succeeded"));
    assert!(!str_eq("bts:subscription_succeeded", "bts:subscription_failed"));
    assert!(!str_eq("a", "ab"));
}

#[test]
fn the_address_of_an_endpoint() {
    assert_eq!(Feed::BinanceSpot.feed_info().address(), "stream.binance.com:9443");
    assert_eq!(Feed::BitstampSpot.feed_info().address(), "ws.bitstamp.net:443");
    let mut info = Feed::BitstampSpot.feed_info();
    info.port = 0;
    assert_eq!(info.address(), "ws.bitstamp.net:0");
    info.port = 65535;
    assert_eq!(info.address(), "ws.bitstamp.net:65535");
    info.port = 10;
    assert_eq!(info.address(), "ws.bitstamp.net:10");
    info.port = 7;
    assert_eq!(info.address(), "ws.bitstamp.net:7");
}

#[test]
fn the_uri_of_an_endpoint() {
    assert_eq!(Feed::BinanceSpot.feed_info().uri(), "wss://stream.binance.com:9443/stream");
    assert_eq!(Feed::BitstampSpot.feed_info().uri(), "wss://ws.bitstamp.net:443");
}

#[test]
fn the_channel_of_an_instrument() {
    assert_eq!(Subscriber::new(Feed::BinanceSpot).channel("btceth"), "btceth@depth20@100ms");
    assert_eq!(Subscriber::new(Feed::BitstampSpot).channel("btceth"), "order_book_btceth");
}

#[test]
fn the_subscribe_request_of_binance() {
    let subscriber = Subscriber::new(Feed::BinanceSpot);
    assert_eq!(
        subscriber.subscribe_request("btceth"),
        "{\"method\":\"SUBSCRIBE\",\"params\":[\"btceth@depth20@100ms\"],\"id\":1}"
    );
}

#[test]
fn the_subscribe_request_of_bitstamp() {
    let subscriber = Subscriber::new(Feed::BitstampSpot);
    assert_eq!(
        subscriber.subscribe_request("btceth"),
        "{\"event\":\"bts:subscribe\",\"data\":{\"channel\":\"order_book_btceth\"}}"
    );
}

#[test]
fn an_instrument_is_written_as_a_json_string() {
    let subscriber = Subscriber::new(Feed::BitstampSpot);
    assert_eq!(
        subscriber.subscribe_request("a\"b\\c"),
        "{\"event\":\"bts:subscribe\",\"data\":{\"channel\":\"order_book_a\\\"b\\\\c\"}}"
    );
}

#[test]
fn request_with_takes_the_channel_as_it_is_given() {
    let subscriber = Subscriber::new(Feed::BinanceSpot);
    assert_eq!(
        subscriber.request_with("\"x\""),
        "{\"method\":\"SUBSCRIBE\",\"params\":[\"x\"],\"id\":1}"
    );
}

#[test]
fn binance_confirms_with_one_literal_message() {
    let subscriber = Subscriber::new(Feed::BinanceSpot);
    assert_eq!(subscriber.subscribe_to_l2_snap(&Ok("{\"result\":null,\"id\":1}".to_owned())), Ok(()));
    assert!(subscriber.subscribe_to_l2_snap(&Ok("{\"id\":1,\"result\":null}".to_owned())).is_err());
    assert!(subscriber.subscribe_to_l2_snap(&Ok("{\"result\":null,\"id\":1} ".to_owned())).is_err());
    assert!(subscriber
        .subscribe_to_l2_snap(&Ok("{\"event\":\"bts:subscription_succeeded\"}".to_owned()))
        .is_err());
    assert!(subscriber.subscribe_to_l2_snap(&Ok(String::new())).is_err());
}

#[test]
fn bitstamp_confirms_with_an_event() {
    let subscriber = Subscriber::new(Feed::BitstampSpot);
    assert_eq!(
        subscriber.subscribe_to_l2_snap(&Ok(
            "{\"event\":\"bts:subscription_succeeded\",\"channel\":\"order_book_btceth\",\"data\":{}}"
                .to_owned()
        )),
        Ok(())
    );
    assert_eq!(
        subscriber.subscribe_to_l2_snap(&Ok(
            " { \"data\" : {}, \"event\" : \"bts:subscription_succeeded\" } ".to_owned()
        )),
        Ok(())
    );
    assert!(subscriber
        .subscribe_to_l2_snap(&Ok("{\"event\":\"bts:error\",\"data\":{}}".to_owned()))
        .is_err());
    assert!(subscriber.subscribe_to_l2_snap(&Ok("{\"data\":{}}".to_owned())).is_err());
    assert!(subscriber.subscribe_to_l2_snap(&Ok("{\"event\":1}".to_owned())).is_err());
    assert!(subscriber.subscribe_to_l2_snap(&Ok("[\"bts:subscription_succeeded\"]".to_owned())).is_err());
    assert!(subscriber.subscribe_to_l2_snap(&Ok("not json".to_owned())).is_err());
    assert!(subscriber.subscribe_to_l2_snap(&Ok("{\"result\":null,\"id\":1}".to_owned())).is_err());
}

#[test]
fn the_offending_message_goes_with_the_error() {
    let binance = Subscriber::new(Feed::BinanceSpot);
    let answer = "{\"error\":{\"code\":2,\"msg\":\"Invalid request\"},\"id\":1}";
    assert_eq!(
        binance.subscribe_to_l2_snap(&Ok(answer.to_owned())),
        Err(SubscriberError { payload: Some(answer.to_owned()) })
    );
    let bitstamp = Subscriber::new(Feed::BitstampSpot);
    assert_eq!(
        bitstamp.subscribe_to_l2_snap(&Ok("not json".to_owned())),
        Err(SubscriberError { payload: Some("not json".to_owned()) })
    );
    assert_eq!(
        bitstamp.subscribe_to_l2_snap(&Ok("{\"event\":\"bts:error\"}".to_owned())),
        Err(SubscriberError { payload: Some("{\"event\":\"bts:error\"}".to_owned()) })
    );
    assert_eq!(
        bitstamp.subscribe_to_l2_snap(&Err(ClientError::EndpointClosedConnection)),
        Err(SubscriberError { payload: None })
    );
}

#[test]
fn a_failed_read_confirms_nothing() {
    for feed in [Feed::BinanceSpot, Feed::BitstampSpot] {
        let subscriber = Subscriber::new(feed);
        assert!(subscriber.subscribe_to_l2_snap(&Err(ClientError::Error)).is_err());
        assert!(subscriber.subscribe_to_l2_snap(&Err(ClientError::ParsingError)).is_err());
        assert!(subscriber
            .subscribe_to_l2_snap(&Err(ClientError::EndpointClosedConnection))
            .is_err());
    }
}

#[test]
fn confirmed_by_goes_by_the_event_it_is_given() {
    let bitstamp = Subscriber::new(Feed::BitstampSpot);
    assert!(bitstamp.confirmed_by("anything", &Some(Some("bts:subscription_succeeded".to_owned()))));
    assert!(!bitstamp.confirmed_by("anything", &Some(Some("bts:other".to_owned()))));
    assert!(!bitstamp.confirmed_by("anything", &Some(None)));
    assert!(!bitstamp.confirmed_by("anything", &None));
    let binance = Subscriber::new(Feed::BinanceSpot);
    assert!(binance.confirmed_by("{\"result\":null,\"id\":1}", &None));
    assert!(!binance.confirmed_by("x", &Some(Some("bts:subscription_succeeded".to_owned()))));
}

#[test]
fn a_session_forwards_what_it_receives() {
    let mut session = Session::new();
    assert_eq!(session.state(), SessionState::Receiving);
    for _ in 0..3 {
        assert_eq!(session.step(SessionEvent::Received), SessionAction::Forward);
        assert_eq!(session.state(), SessionState::Forwarding);
        assert_eq!(session.step(SessionEvent::Delivered), SessionAction::Receive);
        assert_eq!(session.state(), SessionState::Receiving);
    }
}

#[test]
fn a_session_that_lags_goes_on_with_the_next_summary() {
    let mut session = Session::new();
    assert_eq!(session.step(SessionEvent::Lagged(7)), SessionAction::Receive);
    assert_eq!(session.state(), SessionState::Receiving);
    assert_eq!(session.step(SessionEvent::Lagged(1)), SessionAction::Receive);
    assert_eq!(session.step(SessionEvent::Received), SessionAction::Forward);
    assert_eq!(session.step(SessionEvent::Delivered), SessionAction::Receive);
}

#[test]
fn a_session_ends_when_its_client_is_gone() {
    let mut session = Session::new();
    session.step(SessionEvent::Received);
    assert_eq!(session.step(SessionEvent::ClientGone), SessionAction::Close);
    assert_eq!(session.state(), SessionState::Closed);
    assert_eq!(session.step(SessionEvent::Received), SessionAction::Close);
    assert_eq!(session.state(), SessionState::Closed);
}

#[test]
fn a_broadcast_that_ends_is_told_to_the_client() {
    let mut session = Session::new();
    assert_eq!(session.step(SessionEvent::BroadcastClosed), SessionAction::SendInternalError);
    assert_eq!(session.state(), SessionState::Failing);
    assert_eq!(session.step(SessionEvent::Delivered), SessionAction::Close);
    assert_eq!(session.state(), SessionState::Closed);

    let mut other = Session::new();
    other.step(SessionEvent::BroadcastClosed);
    assert_eq!(other.step(SessionEvent::ClientGone), SessionAction::Close);
    assert_eq!(other.state(), SessionState::Closed);
}
