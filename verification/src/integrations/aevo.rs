//! The venue that takes the subscription at once: subscribe, snapshot, one
//! acknowledgement to pass over, then updates without end.

use crate::integrations::{
    normalized, orders2exchangemessages, AdapterError, Awaited, ExchangeMessage, TransportFault,
};
use crate::text::{json_quoted, quote_json};
use vstd::prelude::*;
use vstd::string::*;

verus! {

/// The envelope of every inbound message of the venue.
#[derive(Debug, PartialEq, Eq, PartialOrd, Ord, Hash, Clone)]
pub struct Data<T> {
    pub data: T,
}

/// What the envelope of an order book message holds: (price, quantity) rows
/// per side, aggregated by price, as a full snapshot or as an update to it.
#[derive(Debug, PartialEq, Eq, PartialOrd, Ord, Hash, Clone)]
pub enum DataInner<PriceT, QuantityT> {
    Update { bids: Vec<(PriceT, QuantityT)>, asks: Vec<(PriceT, QuantityT)> },
    Snapshot { bids: Vec<(PriceT, QuantityT)>, asks: Vec<(PriceT, QuantityT)> },
}

/// Where the protocol stands.
#[derive(Debug, PartialEq, Eq, Clone)]
pub enum State<PriceT, QuantityT> {
    /// Nothing was sent yet: the subscribe request is due.
    Subscribe,
    /// The request was sent: the snapshot is due.
    AwaitSnapshot,
    /// The snapshot arrived and is held back: the acknowledgement that the
    /// venue sends after it is due, and is passed over.
    AwaitAck { bids: Vec<(PriceT, QuantityT)>, asks: Vec<(PriceT, QuantityT)> },
    /// The snapshot was handed on: updates follow without end.
    StreamUpdates,
    /// The sequence is over.
    Ended,
}

/// What the transport did for the protocol.
#[derive(Debug, PartialEq, Eq, Clone)]
pub enum Event<PriceT, QuantityT> {
    /// The subscribe request was written.
    Sent,
    /// An order book message arrived.
    Received(Data<DataInner<PriceT, QuantityT>>),
    /// The acknowledgement arrived.
    Acknowledged(Data<Vec<String>>),
    /// Receiving, decoding or sending failed.
    Failed(AdapterError),
}

/// What one step hands on.
#[derive(Debug, PartialEq, Eq, Clone)]
pub struct Step<PriceT, QuantityT> {
    /// Where the protocol stands after the step.
    pub state: State<PriceT, QuantityT>,
    /// The order events to hand on, in their order.
    pub events: Vec<ExchangeMessage<PriceT, QuantityT>>,
    /// The error that ends the sequence, to hand on after the events.
    pub error: Option<AdapterError>,
}

impl<PriceT, QuantityT> State<PriceT, QuantityT> {
    /// What the protocol waits for in this state; nothing once it is over.
    pub open spec fn spec_awaits(self) -> Option<Awaited> {
        match self {
            State::Subscribe => Some(Awaited::Sent),
            State::AwaitSnapshot => Some(Awaited::Snapshot),
            State::AwaitAck { .. } => Some(Awaited::Acknowledgement),
            State::StreamUpdates => Some(Awaited::Update),
            State::Ended => None,
        }
    }

    /// What the protocol waits for in this state; nothing once it is over.
    pub fn awaits(&self) -> (awaited: Option<Awaited>)
        ensures
            awaited == self.spec_awaits(),
    {
        match self {
            State::Subscribe => Some(Awaited::Sent),
            State::AwaitSnapshot => Some(Awaited::Snapshot),
            State::AwaitAck { .. } => Some(Awaited::Acknowledgement),
            State::StreamUpdates => Some(Awaited::Update),
            State::Ended => None,
        }
    }
}

/// Whether `event` is what `state` waits for. While updates stream, a further
/// snapshot is in order too.
pub open spec fn advances<PriceT, QuantityT>(
    state: State<PriceT, QuantityT>,
    event: Event<PriceT, QuantityT>,
) -> bool {
    match (state, event) {
        (State::Subscribe, Event::Sent) => true,
        (State::AwaitSnapshot, Event::Received(Data { data: DataInner::Snapshot { .. } })) => true,
        (State::AwaitAck { .. }, Event::Acknowledged(_)) => true,
        (State::StreamUpdates, Event::Received(_)) => true,
        _ => false,
    }
}

/// The state that follows `state` on `event`: the next step of the protocol
/// where the event is the awaited one, the end otherwise. The rows of the
/// snapshot are held until the acknowledgement has come.
pub open spec fn next_state<PriceT, QuantityT>(
    state: State<PriceT, QuantityT>,
    event: Event<PriceT, QuantityT>,
) -> State<PriceT, QuantityT> {
    match (state, event) {
        (State::Subscribe, Event::Sent) => State::AwaitSnapshot,
        (
            State::AwaitSnapshot,
            Event::Received(Data { data: DataInner::Snapshot { bids, asks } }),
        ) => State::AwaitAck { bids, asks },
        (State::AwaitAck { .. }, Event::Acknowledged(_)) => State::StreamUpdates,
        (State::StreamUpdates, Event::Received(_)) => State::StreamUpdates,
        _ => State::Ended,
    }
}

/// The order events that `event` stands for in `state`: the rows of the held
/// snapshot once it is acknowledged, the rows of an update while updates
/// stream, bids before asks; none otherwise, and none for a further snapshot.
pub open spec fn emitted<PriceT, QuantityT>(
    state: State<PriceT, QuantityT>,
    event: Event<PriceT, QuantityT>,
) -> Seq<ExchangeMessage<PriceT, QuantityT>> {
    match (state, event) {
        (State::AwaitAck { bids, asks }, Event::Acknowledged(_)) => normalized(bids@, asks@),
        (
            State::StreamUpdates,
            Event::Received(Data { data: DataInner::Update { bids, asks } }),
        ) => normalized(bids@, asks@),
        _ => Seq::empty(),
    }
}

/// Whether `error` says that the awaited message is missing or is not the
/// one that was awaited: the stream ended early, or the payload did not
/// decode.
pub open spec fn absent_or_mismatched(error: AdapterError) -> bool {
    match error {
        AdapterError::TransportFailure(TransportFault::EndedEarly) => true,
        AdapterError::DecodeFailure(_) => true,
        _ => false,
    }
}

/// The error that ends the sequence on `event` in `state`: none where the
/// protocol advances or is over already; the failure that the transport
/// reported; or else a violation that names what was awaited. A missing or
/// mismatched acknowledgement is a violation as well.
pub open spec fn failure<PriceT, QuantityT>(
    state: State<PriceT, QuantityT>,
    event: Event<PriceT, QuantityT>,
) -> Option<AdapterError> {
    if advances(state, event) {
        None
    } else {
        match (state.spec_awaits(), event) {
            (None, _) => None,
            (Some(Awaited::Acknowledgement), Event::Failed(error)) => if absent_or_mismatched(
                error,
            ) {
                Some(AdapterError::ProtocolViolation(Awaited::Acknowledgement))
            } else {
                Some(error)
            },
            (Some(_), Event::Failed(error)) => Some(error),
            (Some(awaited), _) => Some(AdapterError::ProtocolViolation(awaited)),
        }
    }
}

/// The step that ends the sequence with `error`.
fn ending<PriceT, QuantityT>(error: AdapterError) -> (next: Step<PriceT, QuantityT>)
    ensures
        next.state == State::<PriceT, QuantityT>::Ended,
        next.events@ == Seq::<ExchangeMessage<PriceT, QuantityT>>::empty(),
        next.error == Some(error),
{
    Step { state: State::Ended, events: Vec::new(), error: Some(error) }
}

/// Takes the protocol one step further: from `state`, on what the transport
/// did, to the next state, with the order events and the error to hand on.
pub fn step<PriceT, QuantityT>(
    state: State<PriceT, QuantityT>,
    event: Event<PriceT, QuantityT>,
) -> (next: Step<PriceT, QuantityT>)
    ensures
        next.state == next_state(state, event),
        next.events@ == emitted(state, event),
        next.error == failure(state, event),
{
    match (state, event) {
        (State::Ended, _) => Step { state: State::Ended, events: Vec::new(), error: None },
        (State::Subscribe, Event::Sent) => Step {
            state: State::AwaitSnapshot,
            events: Vec::new(),
            error: None,
        },
        (
            State::AwaitSnapshot,
            Event::Received(Data { data: DataInner::Snapshot { bids, asks } }),
        ) => Step { state: State::AwaitAck { bids, asks }, events: Vec::new(), error: None },
        (State::AwaitAck { bids, asks }, Event::Acknowledged(_)) => Step {
            state: State::StreamUpdates,
            events: orders2exchangemessages(bids, asks),
            error: None,
        },
        (
            State::StreamUpdates,
            Event::Received(Data { data: DataInner::Update { bids, asks } }),
        ) => Step {
            state: State::StreamUpdates,
            events: orders2exchangemessages(bids, asks),
            error: None,
        },
        (State::StreamUpdates, Event::Received(Data { data: DataInner::Snapshot { .. } })) => Step {
            state: State::StreamUpdates,
            events: Vec::new(),
            error: None,
        },
        (State::AwaitAck { .. }, Event::Failed(error)) => {
            let violated = match error {
                AdapterError::TransportFailure(TransportFault::EndedEarly) => true,
                AdapterError::DecodeFailure(_) => true,
                _ => false,
            };
            if violated {
                ending(AdapterError::ProtocolViolation(Awaited::Acknowledgement))
            } else {
                ending(error)
            }
        },
        (_, Event::Failed(error)) => ending(error),
        (State::Subscribe, _) => ending(AdapterError::ProtocolViolation(Awaited::Sent)),
        (State::AwaitSnapshot, _) => ending(AdapterError::ProtocolViolation(Awaited::Snapshot)),
        (State::AwaitAck { .. }, _) => ending(
            AdapterError::ProtocolViolation(Awaited::Acknowledgement),
        ),
        (State::StreamUpdates, _) => ending(AdapterError::ProtocolViolation(Awaited::Update)),
    }
}

/// The topic of an instrument's order book.
pub open spec fn topic_of(id: Seq<char>) -> Seq<char> {
    "orderbook:"@ + id
}

/// The subscribe request around the topic's JSON string literal.
pub open spec fn subscribe_text(quoted_topic: Seq<char>) -> Seq<char> {
    "{\"op\":\"subscribe\",\"data\":["@ + quoted_topic + "]}"@
}

/// Frames the subscribe request around `quoted_topic`, the topic as a JSON
/// string literal.
pub fn frame_subscribe(quoted_topic: &str) -> (request: String)
    ensures
        request@ == subscribe_text(quoted_topic@),
{
    let mut request = String::from_str("{\"op\":\"subscribe\",\"data\":[");
    request.append(quoted_topic);
    request.append("]}");
    request
}

/// The request that subscribes to the order book of the instrument `id`, or
/// nothing where the topic has no JSON string literal.
pub fn subscribe_request(id: &str) -> (request: Option<String>)
    ensures
        match json_quoted(topic_of(id@)) {
            Some(quoted) => request.is_some() && request.unwrap()@ == subscribe_text(quoted),
            None => request.is_none(),
        },
{
    let mut topic = String::from_str("orderbook:");
    topic.append(id);
    match quote_json(topic.as_str()) {
        Some(quoted) => Some(frame_subscribe(quoted.as_str())),
        None => None,
    }
}

/// What a step hands on, as the items of the adapter's sequence: the order
/// events, then the error if there is one.
pub open spec fn handed_on<PriceT, QuantityT>(
    state: State<PriceT, QuantityT>,
    event: Event<PriceT, QuantityT>,
) -> Seq<Result<ExchangeMessage<PriceT, QuantityT>, AdapterError>> {
    let events = emitted(state, event).map_values(
        |m: ExchangeMessage<PriceT, QuantityT>|
            Ok::<ExchangeMessage<PriceT, QuantityT>, AdapterError>(m),
    );
    match failure(state, event) {
        Some(error) => events.push(Err(error)),
        None => events,
    }
}

/// The state that the protocol reaches from `state` over `events`.
pub open spec fn reached<PriceT, QuantityT>(
    state: State<PriceT, QuantityT>,
    events: Seq<Event<PriceT, QuantityT>>,
) -> State<PriceT, QuantityT>
    decreases events.len(),
{
    if events.len() == 0 {
        state
    } else {
        reached(next_state(state, events[0]), events.drop_first())
    }
}

/// The adapter's sequence from `state` over `events`: what each step hands
/// on, in the order of the events.
pub open spec fn sequence<PriceT, QuantityT>(
    state: State<PriceT, QuantityT>,
    events: Seq<Event<PriceT, QuantityT>>,
) -> Seq<Result<ExchangeMessage<PriceT, QuantityT>, AdapterError>>
    decreases events.len(),
{
    if events.len() == 0 {
        Seq::empty()
    } else {
        handed_on(state, events[0]) + sequence(next_state(state, events[0]), events.drop_first())
    }
}

/// Once the sequence is over it stays over, and nothing more is handed on.
pub proof fn lemma_ended_is_final<PriceT, QuantityT>(events: Seq<Event<PriceT, QuantityT>>)
    ensures
        reached(State::<PriceT, QuantityT>::Ended, events) == State::<PriceT, QuantityT>::Ended,
        sequence(State::<PriceT, QuantityT>::Ended, events).len() == 0,
    decreases events.len(),
{
    if events.len() > 0 {
        lemma_ended_is_final(events.drop_first());
    }
}

/// What is handed on follows the order in which the events arrive: the
/// sequence over `first` and then `then` is the sequence over `first`,
/// followed by the sequence over `then` from where `first` left the protocol.
pub proof fn lemma_sequence_follows_arrival<PriceT, QuantityT>(
    state: State<PriceT, QuantityT>,
    first: Seq<Event<PriceT, QuantityT>>,
    then: Seq<Event<PriceT, QuantityT>>,
)
    ensures
        reached(state, first + then) == reached(reached(state, first), then),
        sequence(state, first + then) == sequence(state, first) + sequence(
            reached(state, first),
            then,
        ),
    decreases first.len(),
{
    if first.len() == 0 {
        assert(first + then =~= then);
        assert(sequence(state, first) + sequence(state, then) =~= sequence(state, then));
    } else {
        let all = first + then;
        assert(all[0] == first[0]);
        assert(all.drop_first() =~= first.drop_first() + then);
        lemma_sequence_follows_arrival(next_state(state, first[0]), first.drop_first(), then);
        assert(sequence(state, all) =~= sequence(state, first) + sequence(
            reached(state, first),
            then,
        ));
    }
}

/// An error ends the sequence: the step that hands one on hands on nothing
/// else, and leaves the protocol at its end.
pub proof fn lemma_error_ends<PriceT, QuantityT>(
    state: State<PriceT, QuantityT>,
    event: Event<PriceT, QuantityT>,
)
    ensures
        failure(state, event).is_some() ==> next_state(state, event) == State::<
            PriceT,
            QuantityT,
        >::Ended && emitted(state, event).len() == 0,
        failure(state, event).is_none() && state != State::<PriceT, QuantityT>::Ended
            ==> next_state(state, event) != State::<PriceT, QuantityT>::Ended,
{
}

/// The adapter's sequence holds at most one error, and nothing after it.
pub proof fn lemma_error_is_last<PriceT, QuantityT>(
    state: State<PriceT, QuantityT>,
    events: Seq<Event<PriceT, QuantityT>>,
    i: int,
)
    requires
        0 <= i < sequence(state, events).len(),
        sequence(state, events)[i].is_err(),
    ensures
        i == sequence(state, events).len() - 1,
    decreases events.len(),
{
    let first = handed_on(state, events[0]);
    if failure(state, events[0]).is_some() {
        lemma_ended_is_final(events.drop_first());
    } else {
        assert(i >= first.len());
        lemma_error_is_last(next_state(state, events[0]), events.drop_first(), i - first.len());
    }
}

/// While updates stream, a further snapshot changes nothing: no order event
/// is handed on, no error, and updates go on streaming.
pub proof fn lemma_further_snapshot_is_passed_over<PriceT, QuantityT>(
    bids: Vec<(PriceT, QuantityT)>,
    asks: Vec<(PriceT, QuantityT)>,
)
    ensures
        ({
            let event = Event::Received(Data { data: DataInner::Snapshot { bids, asks } });
            let state = State::<PriceT, QuantityT>::StreamUpdates;
            &&& next_state(state, event) == state
            &&& emitted(state, event).len() == 0
            &&& failure(state, event).is_none()
        }),
{
}

} // verus!
