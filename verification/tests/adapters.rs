use fixed::types::U32F32;
use openhedge_arbitrage::integrations::aevo;
use openhedge_arbitrage::integrations::dydx;
use openhedge_arbitrage::integrations::{
    intake, orders2exchangemessages, AdapterError, Awaited, ExchangeMessage, Frame, Intake,
    Payload, SerializationError, TransportFault,
};
use openhedge_arbitrage::text::type_label;
use openhedge_arbitrage::{ArbitrageFinder, ExchangeId};

const AEVO: ExchangeId = 0;
const DYDX: ExchangeId = 1;

fn bits(literal: &str) -> u64 {
    U32F32::lit(literal).to_bits()
}

fn decode_failure() -> AdapterError {
    AdapterError::DecodeFailure(SerializationError::new(
        "data.bids[0][0]".to_string(),
        "invalid digit found in string".to_string(),
        b"{\"data\":{}}".to_vec(),
        "aevo::Data<aevo::DataInner<u64, u64>>",
    ))
}

fn feed(finder: &mut ArbitrageFinder, src: ExchangeId, events: &[ExchangeMessage<u64, u64>]) {
    for event in events {
        let _ = match *event {
            ExchangeMessage::Buy { price, quantity } => finder.buy(src, price, quantity),
            ExchangeMessage::Sell { price, quantity } => finder.sell(src, price, quantity),
        };
    }
}

#[test]
fn frames_with_a_body_are_delivered() {
    assert_eq!(
        intake(Some(Frame::Binary(vec![1, 2, 3]))),
        Intake::Deliver(Payload::Binary(vec![1, 2, 3]))
    );
    assert_eq!(
        intake(Some(Frame::Text("{}".to_string()))),
        Intake::Deliver(Payload::Text("{}".to_string()))
    );
}

#[test]
fn upkeep_frames_are_passed_over() {
    assert_eq!(intake(Some(Frame::Ping(vec![9]))), Intake::Skip);
    assert_eq!(intake(Some(Frame::Pong(vec![]))), Intake::Skip);
    assert_eq!(intake(Some(Frame::Raw)), Intake::Skip);
}

#[test]
fn a_closed_stream_has_ended() {
    assert_eq!(intake(Some(Frame::Close)), Intake::Ended);
    assert_eq!(intake(None), Intake::Ended);
}

#[test]
fn payload_bytes() {
    assert_eq!(Payload::Binary(vec![0xff, 0x00]).into_bytes(), vec![0xff, 0x00]);
    assert_eq!(
        Payload::Text("a\u{e9}".to_string()).into_bytes(),
        vec![0x61, 0xc3, 0xa9]
    );
}

#[test]
fn rows_become_events_bids_first() {
    let events = orders2exchangemessages(vec![(1u64, 2u64), (3, 4)], vec![(5, 6)]);
    assert_eq!(
        events,
        vec![
            ExchangeMessage::Buy { price: 1, quantity: 2 },
            ExchangeMessage::Buy { price: 3, quantity: 4 },
            ExchangeMessage::Sell { price: 5, quantity: 6 },
        ]
    );
    assert_eq!(
        orders2exchangemessages(Vec::<(u64, u64)>::new(), vec![]),
        vec![]
    );
}

#[test]
fn type_labels_lose_their_arguments() {
    assert_eq!(type_label("alloc::vec::Vec<u8>"), "alloc::vec::Vec");
    assert_eq!(type_label("a::Data<a::DataInner<u64, u64>>"), "a::Data");
    assert_eq!(type_label("u64"), "u64");
    assert_eq!(type_label("<T as U>::V"), "");
    assert_eq!(type_label(""), "");
    assert_eq!(type_label("\u{e9}t\u{e9}<x>"), "\u{e9}t\u{e9}");
}

#[test]
fn decode_failure_report() {
    let error = SerializationError::new(
        "contents.bids[0].price".to_string(),
        "invalid type: integer `1`, expected a string".to_string(),
        b"{\"type\":\"subscribed\"}".to_vec(),
        "dydx::Message<u64, u64>",
    );
    assert_eq!(error.ty, "dydx::Message");
    assert_eq!(error.path, "contents.bids[0].price");
    assert_eq!(
        error.message(),
        "couldn't serialize a dydx::Message\n\n\
         error: invalid type: integer `1`, expected a string\n\
         location: contents.bids[0].price\n\
         source text: {\"type\":\"subscribed\"}\n"
    );
}

#[test]
fn decode_failure_report_of_bytes_that_are_no_text() {
    let error = SerializationError::new(
        ".".to_string(),
        "expected value".to_string(),
        vec![b'a', 0xff, b'b'],
        "T",
    );
    assert_eq!(
        error.message(),
        "couldn't serialize a T\n\nerror: expected value\nlocation: .\nsource text: a\u{fffd}b\n"
    );
}

#[test]
fn errors_in_words() {
    assert_eq!(
        AdapterError::TransportFailure(TransportFault::EndedEarly).describe(),
        "underlying stream ended early"
    );
    assert_eq!(
        AdapterError::TransportFailure(TransportFault::Io("connection reset".to_string()))
            .describe(),
        "connection reset"
    );
    assert_eq!(
        AdapterError::ProtocolViolation(Awaited::Connected).describe(),
        "expected to receive \"connected\""
    );
    assert_eq!(
        AdapterError::ProtocolViolation(Awaited::Subscribed).describe(),
        "expected to receive \"subscribed\""
    );
    assert_eq!(
        AdapterError::ProtocolViolation(Awaited::ChannelData).describe(),
        "expected \"channel_data\""
    );
    assert_eq!(
        AdapterError::ProtocolViolation(Awaited::Snapshot).describe(),
        "expected to receive \"snapshot\""
    );
    assert_eq!(Awaited::Sent.complaint(), "expected the subscribe request to be sent");
    assert_eq!(
        Awaited::Acknowledgement.complaint(),
        "expected to receive an acknowledgement"
    );
    assert_eq!(Awaited::Update.complaint(), "expected to receive \"update\"");
    let failure = decode_failure();
    assert_eq!(
        failure.describe(),
        "couldn't serialize a aevo::Data\n\nerror: invalid digit found in string\n\
         location: data.bids[0][0]\nsource text: {\"data\":{}}\n"
    );
}

#[test]
fn dydx_subscribe_request_has_the_documented_shape() {
    let request = dydx::subscribe_request("BTC-USD").unwrap();
    assert_eq!(
        request,
        "{\"type\":\"subscribe\",\"channel\":\"v4_orderbook\",\"id\":\"BTC-USD\"}"
    );
    let parsed: serde_json::Value = serde_json::from_str(&request).unwrap();
    let fields = parsed.as_object().unwrap();
    assert_eq!(fields.len(), 3);
    assert_eq!(fields["type"], serde_json::Value::from("subscribe"));
    assert_eq!(fields["channel"], serde_json::Value::from("v4_orderbook"));
    assert_eq!(fields["id"], serde_json::Value::from("BTC-USD"));
}

#[test]
fn dydx_subscribe_request_escapes_the_instrument() {
    let request = dydx::subscribe_request("a\"b\\c\n").unwrap();
    assert_eq!(
        request,
        "{\"type\":\"subscribe\",\"channel\":\"v4_orderbook\",\"id\":\"a\\\"b\\\\c\\n\"}"
    );
    let parsed: serde_json::Value = serde_json::from_str(&request).unwrap();
    assert_eq!(parsed["id"], serde_json::Value::from("a\"b\\c\n"));
}

#[test]
fn dydx_request_frame() {
    assert_eq!(
        dydx::frame_subscribe("\"X\""),
        "{\"type\":\"subscribe\",\"channel\":\"v4_orderbook\",\"id\":\"X\"}"
    );
    assert_eq!(
        dydx::frame_subscribe(""),
        "{\"type\":\"subscribe\",\"channel\":\"v4_orderbook\",\"id\":}"
    );
}

#[test]
fn aevo_subscribe_request_has_the_documented_shape() {
    let request = aevo::subscribe_request("BTC-PERP").unwrap();
    assert_eq!(request, "{\"op\":\"subscribe\",\"data\":[\"orderbook:BTC-PERP\"]}");
    let parsed: serde_json::Value = serde_json::from_str(&request).unwrap();
    let fields = parsed.as_object().unwrap();
    assert_eq!(fields.len(), 2);
    assert_eq!(fields["op"], serde_json::Value::from("subscribe"));
    assert_eq!(
        fields["data"],
        serde_json::Value::from(vec![serde_json::Value::from("orderbook:BTC-PERP")])
    );
}

#[test]
fn aevo_subscribe_request_escapes_the_instrument() {
    let request = aevo::subscribe_request("\"]").unwrap();
    assert_eq!(request, "{\"op\":\"subscribe\",\"data\":[\"orderbook:\\\"]\"]}");
}

#[test]
fn aevo_request_frame() {
    assert_eq!(
        aevo::frame_subscribe("\"orderbook:X\""),
        "{\"op\":\"subscribe\",\"data\":[\"orderbook:X\"]}"
    );
}

#[test]
fn dydx_snapshot_then_removal() {
    let start = dydx::State::AwaitConnected;
    assert_eq!(start.awaits(), Some(Awaited::Connected));

    let greeted = dydx::step::<u64, u64>(start, dydx::Event::Greeting(dydx::Message::Connected));
    assert_eq!(greeted.state, dydx::State::Subscribe);
    assert_eq!(greeted.events, vec![]);
    assert_eq!(greeted.error, None);

    let sent = dydx::step::<u64, u64>(greeted.state, dydx::Event::Sent);
    assert_eq!(sent.state, dydx::State::AwaitSnapshot);
    assert_eq!(sent.events, vec![]);
    assert_eq!(sent.error, None);

    let snapshot = dydx::step(
        sent.state,
        dydx::Event::Received(dydx::Message::Subscribed(dydx::Subscribed {
            bids: vec![dydx::Named { price: bits("100"), size: bits("2") }],
            asks: vec![],
        })),
    );
    assert_eq!(snapshot.state, dydx::State::StreamDeltas);
    assert_eq!(
        snapshot.events,
        vec![ExchangeMessage::Buy { price: bits("100"), quantity: bits("2") }]
    );
    assert_eq!(snapshot.error, None);

    let delta = dydx::step(
        snapshot.state,
        dydx::Event::Received(dydx::Message::ChannelData(dydx::ChannelData {
            bids: vec![(bits("100"), bits("0"))],
            asks: vec![],
        })),
    );
    assert_eq!(delta.state, dydx::State::StreamDeltas);
    assert_eq!(
        delta.events,
        vec![ExchangeMessage::Buy { price: bits("100"), quantity: 0 }]
    );
    assert_eq!(delta.error, None);

    let mut finder = ArbitrageFinder::default();
    feed(&mut finder, DYDX, &snapshot.events);
    assert_eq!(finder.resting_bid(DYDX, bits("100")), Some(bits("2")));
    feed(&mut finder, DYDX, &delta.events);
    assert_eq!(finder.resting_bid(DYDX, bits("100")), None);
}

#[test]
fn dydx_snapshot_keeps_rows_apart_and_in_order() {
    let snapshot = dydx::step(
        dydx::State::AwaitSnapshot,
        dydx::Event::Received(dydx::Message::Subscribed(dydx::Subscribed {
            bids: vec![
                dydx::Named { price: 10u64, size: 1u64 },
                dydx::Named { price: 10, size: 4 },
                dydx::Named { price: 9, size: 2 },
            ],
            asks: vec![dydx::Named { price: 11, size: 3 }],
        })),
    );
    assert_eq!(
        snapshot.events,
        vec![
            ExchangeMessage::Buy { price: 10, quantity: 1 },
            ExchangeMessage::Buy { price: 10, quantity: 4 },
            ExchangeMessage::Buy { price: 9, quantity: 2 },
            ExchangeMessage::Sell { price: 11, quantity: 3 },
        ]
    );
    let mut finder = ArbitrageFinder::default();
    feed(&mut finder, DYDX, &snapshot.events);
    assert_eq!(finder.resting_bid(DYDX, 10), Some(4));
}

#[test]
fn dydx_anything_but_connected_first_is_a_violation() {
    let next = dydx::step::<u64, u64>(
        dydx::State::AwaitConnected,
        dydx::Event::Greeting(dydx::Message::Subscribed(dydx::Subscribed {
            bids: vec![],
            asks: vec![],
        })),
    );
    assert_eq!(next.state, dydx::State::Ended);
    assert_eq!(next.events, vec![]);
    assert_eq!(next.error, Some(AdapterError::ProtocolViolation(Awaited::Connected)));

    let next = dydx::step::<u64, u64>(
        dydx::State::AwaitConnected,
        dydx::Event::Greeting(dydx::Message::ChannelData(dydx::ChannelData {
            bids: vec![],
            asks: vec![],
        })),
    );
    assert_eq!(next.error, Some(AdapterError::ProtocolViolation(Awaited::Connected)));
}

#[test]
fn dydx_anything_but_a_snapshot_after_subscribing_is_a_violation() {
    let next = dydx::step::<u64, u64>(
        dydx::State::AwaitSnapshot,
        dydx::Event::Received(dydx::Message::Connected),
    );
    assert_eq!(next.state, dydx::State::Ended);
    assert_eq!(next.error, Some(AdapterError::ProtocolViolation(Awaited::Subscribed)));

    let next = dydx::step(
        dydx::State::AwaitSnapshot,
        dydx::Event::Received(dydx::Message::ChannelData(dydx::ChannelData {
            bids: vec![(1u64, 1u64)],
            asks: vec![],
        })),
    );
    assert_eq!(next.state, dydx::State::Ended);
    assert_eq!(next.events, vec![]);
    assert_eq!(next.error, Some(AdapterError::ProtocolViolation(Awaited::Subscribed)));
}

#[test]
fn dydx_anything_but_a_delta_while_streaming_is_a_violation() {
    let next = dydx::step::<u64, u64>(
        dydx::State::StreamDeltas,
        dydx::Event::Received(dydx::Message::Connected),
    );
    assert_eq!(next.state, dydx::State::Ended);
    assert_eq!(next.error, Some(AdapterError::ProtocolViolation(Awaited::ChannelData)));

    let next = dydx::step(
        dydx::State::StreamDeltas,
        dydx::Event::Received(dydx::Message::Subscribed(dydx::Subscribed {
            bids: vec![dydx::Named { price: 1u64, size: 1u64 }],
            asks: vec![],
        })),
    );
    assert_eq!(next.state, dydx::State::Ended);
    assert_eq!(next.events, vec![]);
    assert_eq!(next.error, Some(AdapterError::ProtocolViolation(Awaited::ChannelData)));
}

#[test]
fn dydx_out_of_turn_events_are_violations() {
    let next = dydx::step::<u64, u64>(dydx::State::AwaitConnected, dydx::Event::Sent);
    assert_eq!(next.error, Some(AdapterError::ProtocolViolation(Awaited::Connected)));
    let next = dydx::step::<u64, u64>(
        dydx::State::Subscribe,
        dydx::Event::Received(dydx::Message::Connected),
    );
    assert_eq!(next.state, dydx::State::Ended);
    assert_eq!(next.error, Some(AdapterError::ProtocolViolation(Awaited::Sent)));
}

#[test]
fn dydx_failures_end_the_sequence_once() {
    let states = [
        dydx::State::AwaitConnected,
        dydx::State::Subscribe,
        dydx::State::AwaitSnapshot,
        dydx::State::StreamDeltas,
    ];
    for state in states {
        let failed = dydx::step::<u64, u64>(
            state,
            dydx::Event::Failed(AdapterError::TransportFailure(TransportFault::EndedEarly)),
        );
        assert_eq!(failed.state, dydx::State::Ended);
        assert_eq!(failed.events, vec![]);
        assert_eq!(
            failed.error,
            Some(AdapterError::TransportFailure(TransportFault::EndedEarly))
        );

        let failed = dydx::step::<u64, u64>(state, dydx::Event::Failed(decode_failure()));
        assert_eq!(failed.state, dydx::State::Ended);
        assert_eq!(failed.error, Some(decode_failure()));
    }
    let after = dydx::step::<u64, u64>(dydx::State::Ended, dydx::Event::Failed(decode_failure()));
    assert_eq!(after.state, dydx::State::Ended);
    assert_eq!(after.events, vec![]);
    assert_eq!(after.error, None);
    assert_eq!(dydx::State::Ended.awaits(), None);
}

#[test]
fn aevo_snapshot_ack_then_removal() {
    let start: aevo::State<u64, u64> = aevo::State::Subscribe;
    assert_eq!(start.awaits(), Some(Awaited::Sent));

    let sent = aevo::step(start, aevo::Event::Sent);
    assert_eq!(sent.state, aevo::State::AwaitSnapshot);
    assert_eq!(sent.events, vec![]);
    assert_eq!(sent.error, None);

    let snapshot = aevo::step(
        sent.state,
        aevo::Event::Received(aevo::Data {
            data: aevo::DataInner::Snapshot {
                bids: vec![(bits("50"), bits("1"))],
                asks: vec![(bits("60"), bits("1"))],
            },
        }),
    );
    assert_eq!(
        snapshot.state,
        aevo::State::AwaitAck {
            bids: vec![(bits("50"), bits("1"))],
            asks: vec![(bits("60"), bits("1"))],
        }
    );
    assert_eq!(snapshot.state.awaits(), Some(Awaited::Acknowledgement));
    assert_eq!(snapshot.events, vec![]);
    assert_eq!(snapshot.error, None);

    let acknowledged = aevo::step(
        snapshot.state,
        aevo::Event::Acknowledged(aevo::Data { data: vec!["orderbook:BTC-PERP".to_string()] }),
    );
    assert_eq!(acknowledged.state, aevo::State::StreamUpdates);
    assert_eq!(
        acknowledged.events,
        vec![
            ExchangeMessage::Buy { price: bits("50"), quantity: bits("1") },
            ExchangeMessage::Sell { price: bits("60"), quantity: bits("1") },
        ]
    );
    assert_eq!(acknowledged.error, None);

    let update = aevo::step(
        acknowledged.state,
        aevo::Event::Received(aevo::Data {
            data: aevo::DataInner::Update { bids: vec![], asks: vec![(bits("60"), bits("0"))] },
        }),
    );
    assert_eq!(update.state, aevo::State::StreamUpdates);
    assert_eq!(
        update.events,
        vec![ExchangeMessage::Sell { price: bits("60"), quantity: 0 }]
    );
    assert_eq!(update.error, None);

    let mut finder = ArbitrageFinder::default();
    feed(&mut finder, AEVO, &acknowledged.events);
    assert_eq!(finder.resting_ask(AEVO, bits("60")), Some(bits("1")));
    feed(&mut finder, AEVO, &update.events);
    assert_eq!(finder.resting_ask(AEVO, bits("60")), None);
    assert_eq!(finder.resting_bid(AEVO, bits("50")), Some(bits("1")));
    assert_eq!(finder.buy(DYDX, bits("70"), bits("1")), Ok(vec![]));
}

#[test]
fn aevo_a_further_snapshot_is_passed_over() {
    let next = aevo::step(
        aevo::State::StreamUpdates,
        aevo::Event::Received(aevo::Data {
            data: aevo::DataInner::Snapshot { bids: vec![(1u64, 1u64)], asks: vec![(2, 2)] },
        }),
    );
    assert_eq!(next.state, aevo::State::StreamUpdates);
    assert_eq!(next.events, vec![]);
    assert_eq!(next.error, None);
}

#[test]
fn aevo_an_update_in_place_of_the_snapshot_is_a_violation() {
    let next = aevo::step(
        aevo::State::AwaitSnapshot,
        aevo::Event::Received(aevo::Data {
            data: aevo::DataInner::Update { bids: vec![(1u64, 1u64)], asks: vec![] },
        }),
    );
    assert_eq!(next.state, aevo::State::Ended);
    assert_eq!(next.events, vec![]);
    assert_eq!(next.error, Some(AdapterError::ProtocolViolation(Awaited::Snapshot)));
}

#[test]
fn aevo_a_missing_or_mismatched_acknowledgement_is_a_violation() {
    let holding = || aevo::State::AwaitAck { bids: vec![(1u64, 1u64)], asks: vec![] };

    let absent = aevo::step(
        holding(),
        aevo::Event::Failed(AdapterError::TransportFailure(TransportFault::EndedEarly)),
    );
    assert_eq!(absent.state, aevo::State::Ended);
    assert_eq!(absent.events, vec![]);
    assert_eq!(absent.error, Some(AdapterError::ProtocolViolation(Awaited::Acknowledgement)));

    let mismatched = aevo::step(holding(), aevo::Event::Failed(decode_failure()));
    assert_eq!(mismatched.state, aevo::State::Ended);
    assert_eq!(mismatched.events, vec![]);
    assert_eq!(
        mismatched.error,
        Some(AdapterError::ProtocolViolation(Awaited::Acknowledgement))
    );

    let other = aevo::step(
        holding(),
        aevo::Event::Received(aevo::Data {
            data: aevo::DataInner::Update { bids: vec![], asks: vec![] },
        }),
    );
    assert_eq!(other.error, Some(AdapterError::ProtocolViolation(Awaited::Acknowledgement)));

    let broken = aevo::step(
        holding(),
        aevo::Event::Failed(AdapterError::TransportFailure(TransportFault::Io(
            "connection reset".to_string(),
        ))),
    );
    assert_eq!(broken.state, aevo::State::Ended);
    assert_eq!(
        broken.error,
        Some(AdapterError::TransportFailure(TransportFault::Io("connection reset".to_string())))
    );
}

#[test]
fn aevo_failures_end_the_sequence_once() {
    let states: [aevo::State<u64, u64>; 3] =
        [aevo::State::Subscribe, aevo::State::AwaitSnapshot, aevo::State::StreamUpdates];
    for state in states {
        let failed = aevo::step(state.clone(), aevo::Event::Failed(decode_failure()));
        assert_eq!(failed.state, aevo::State::Ended);
        assert_eq!(failed.events, vec![]);
        assert_eq!(failed.error, Some(decode_failure()));

        let failed = aevo::step(
            state,
            aevo::Event::Failed(AdapterError::TransportFailure(TransportFault::EndedEarly)),
        );
        assert_eq!(
            failed.error,
            Some(AdapterError::TransportFailure(TransportFault::EndedEarly))
        );
    }
    let after = aevo::step::<u64, u64>(aevo::State::Ended, aevo::Event::Sent);
    assert_eq!(after.state, aevo::State::Ended);
    assert_eq!(after.events, vec![]);
    assert_eq!(after.error, None);
}

#[test]
fn aevo_out_of_turn_events_are_violations() {
    let next = aevo::step::<u64, u64>(
        aevo::State::Subscribe,
        aevo::Event::Acknowledged(aevo::Data { data: vec![] }),
    );
    assert_eq!(next.state, aevo::State::Ended);
    assert_eq!(next.error, Some(AdapterError::ProtocolViolation(Awaited::Sent)));
    let next = aevo::step::<u64, u64>(aevo::State::AwaitSnapshot, aevo::Event::Sent);
    assert_eq!(next.error, Some(AdapterError::ProtocolViolation(Awaited::Snapshot)));
    let next = aevo::step::<u64, u64>(aevo::State::StreamUpdates, aevo::Event::Sent);
    assert_eq!(next.error, Some(AdapterError::ProtocolViolation(Awaited::Update)));
}
