//! The venue that acknowledges the connection before it takes a
//! subscription: connected, subscribe, snapshot, then deltas without end.

use crate::integrations::{
    normalized, orders2exchangemessages, AdapterError, Awaited, ExchangeMessage,
};
use crate::text::{json_quoted, quote_json};
use vstd::prelude::*;
use vstd::string::*;

verus! {

/// An inbound message of the venue.
#[derive(Debug, PartialEq, Eq, PartialOrd, Ord, Hash, Clone)]
pub enum Message<PriceT, QuantityT> {
    Connected,
    Subscribed(Subscribed<PriceT, QuantityT>),
    ChannelData(ChannelData<PriceT, QuantityT>),
}

/// An incremental update: (price, quantity) rows per side, a quantity of
/// zero standing for a removal. A side without rows may be left out on the
/// wire.
#[derive(Debug, PartialEq, Eq, PartialOrd, Ord, Hash, Clone)]
pub struct ChannelData<PriceT, QuantityT> {
    pub bids: Vec<(PriceT, QuantityT)>,
    pub asks: Vec<(PriceT, QuantityT)>,
}

/// The full snapshot that answers a subscription: the resting orders of each
/// side, one row for each order.
#[derive(Debug, PartialEq, Eq, PartialOrd, Ord, Hash, Clone)]
pub struct Subscribed<PriceT, QuantityT> {
    pub bids: Vec<Named<PriceT, QuantityT>>,
    pub asks: Vec<Named<PriceT, QuantityT>>,
}

/// One resting order of a snapshot.
#[derive(Debug, PartialEq, Eq, PartialOrd, Ord, Hash, Clone, Copy)]
pub struct Named<PriceT, QuantityT> {
    pub price: PriceT,
    pub size: QuantityT,
}

/// Where the protocol stands.
#[derive(Debug, PartialEq, Eq, Clone, Copy)]
pub enum State {
    /// Nothing was received yet: the venue speaks first.
    AwaitConnected,
    /// The venue acknowledged the connection: the subscribe request is due.
    Subscribe,
    /// The request was sent: the snapshot is due.
    AwaitSnapshot,
    /// The snapshot was handed on: deltas follow without end.
    StreamDeltas,
    /// The sequence is over.
    Ended,
}

/// What the transport did for the protocol.
#[derive(Debug, PartialEq, Eq, Clone)]
pub enum Event<PriceT, QuantityT> {
    /// The first message arrived. It is decoded without its rows.
    Greeting(Message<(), ()>),
    /// A message arrived.
    Received(Message<PriceT, QuantityT>),
    /// The subscribe request was written.
    Sent,
    /// Receiving, decoding or sending failed.
    Failed(AdapterError),
}

/// What one step hands on.
#[derive(Debug, PartialEq, Eq, Clone)]
pub struct Step<PriceT, QuantityT> {
    /// Where the protocol stands after the step.
    pub state: State,
    /// The order events to hand on, in their order.
    pub events: Vec<ExchangeMessage<PriceT, QuantityT>>,
    /// The error that ends the sequence, to hand on after the events.
    pub error: Option<AdapterError>,
}

/// The rows of a snapshot as (price, quantity) pairs.
pub open spec fn rows_of<PriceT, QuantityT>(resting: Seq<Named<PriceT, QuantityT>>) -> Seq<
    (PriceT, QuantityT),
> {
    resting.map_values(|order: Named<PriceT, QuantityT>| (order.price, order.size))
}

impl State {
    /// What the protocol waits for in this state; nothing once it is over.
    pub open spec fn spec_awaits(self) -> Option<Awaited> {
        match self {
            State::AwaitConnected => Some(Awaited::Connected),
            State::Subscribe => Some(Awaited::Sent),
            State::AwaitSnapshot => Some(Awaited::Subscribed),
            State::StreamDeltas => Some(Awaited::ChannelData),
            State::Ended => None,
        }
    }

    /// What the protocol waits for in this state; nothing once it is over.
    pub fn awaits(self) -> (awaited: Option<Awaited>)
        ensures
            awaited == self.spec_awaits(),
    {
        match self {
            State::AwaitConnected => Some(Awaited::Connected),
            State::Subscribe => Some(Awaited::Sent),
            State::AwaitSnapshot => Some(Awaited::Subscribed),
            State::StreamDeltas => Some(Awaited::ChannelData),
            State::Ended => None,
        }
    }
}

/// Whether `event` is what `state` waits for.
pub open spec fn advances<PriceT, QuantityT>(
    state: State,
    event: Event<PriceT, QuantityT>,
) -> bool {
    match (state, event) {
        (State::AwaitConnected, Event::Greeting(Message::Connected)) => true,
        (State::Subscribe, Event::Sent) => true,
        (State::AwaitSnapshot, Event::Received(Message::Subscribed(_))) => true,
        (State::StreamDeltas, Event::Received(Message::ChannelData(_))) => true,
        _ => false,
    }
}

/// The state that follows `state` on `event`: the next step of the protocol
/// where the event is the awaited one, the end otherwise.
pub open spec fn next_state<PriceT, QuantityT>(
    state: State,
    event: Event<PriceT, QuantityT>,
) -> State {
    if advances(state, event) {
        match state {
            State::AwaitConnected => State::Subscribe,
            State::Subscribe => State::AwaitSnapshot,
            _ => State::StreamDeltas,
        }
    } else {
        State::Ended
    }
}

/// The order events that `event` stands for in `state`: the rows of the
/// awaited snapshot or delta, bids before asks; none otherwise.
pub open spec fn emitted<PriceT, QuantityT>(state: State, event: Event<PriceT, QuantityT>) -> Seq<
    ExchangeMessage<PriceT, QuantityT>,
> {
    match (state, event) {
        (State::AwaitSnapshot, Event::Received(Message::Subscribed(snapshot))) => normalized(
            rows_of(snapshot.bids@),
            rows_of(snapshot.asks@),
        ),
        (State::StreamDeltas, Event::Received(Message::ChannelData(delta))) => normalized(
            delta.bids@,
            delta.asks@,
        ),
        _ => Seq::empty(),
    }
}

/// The error that ends the sequence on `event` in `state`: none where the
/// protocol advances or is over already; the failure that the transport
/// reported; or else a violation that names what was awaited.
pub open spec fn failure<PriceT, QuantityT>(
    state: State,
    event: Event<PriceT, QuantityT>,
) -> Option<AdapterError> {
    if advances(state, event) {
        None
    } else {
        match (state.spec_awaits(), event) {
            (None, _) => None,
            (Some(_), Event::Failed(error)) => Some(error),
            (Some(awaited), _) => Some(AdapterError::ProtocolViolation(awaited)),
        }
    }
}

/// Turns the resting orders of a snapshot into (price, quantity) rows.
fn rows<PriceT, QuantityT>(resting: Vec<Named<PriceT, QuantityT>>) -> (out: Vec<
    (PriceT, QuantityT),
>)
    ensures
        out@ == rows_of(resting@),
{
    let mut out: Vec<(PriceT, QuantityT)> = Vec::new();
    let ghost all = resting@;
    for order in iter: resting
        invariant
            iter.seq() == all,
            out@ == rows_of(all.take(iter.index())),
    {
        let Named { price, size } = order;
        out.push((price, size));
        assert(out@ =~= rows_of(all.take(iter.index() + 1)));
    }
    assert(all.take(all.len() as int) =~= all);
    out
}

/// Takes the protocol one step further: from `state`, on what the transport
/// did, to the next state, with the order events and the error to hand on.
pub fn step<PriceT, QuantityT>(state: State, event: Event<PriceT, QuantityT>) -> (next: Step<
    PriceT,
    QuantityT,
>)
    ensures
        next.state == next_state(state, event),
        next.events@ == emitted(state, event),
        next.error == failure(state, event),
{
    match (state, event) {
        (State::Ended, _) => Step { state: State::Ended, events: Vec::new(), error: None },
        (State::AwaitConnected, Event::Greeting(Message::Connected)) => Step {
            state: State::Subscribe,
            events: Vec::new(),
            error: None,
        },
        (State::Subscribe, Event::Sent) => Step {
            state: State::AwaitSnapshot,
            events: Vec::new(),
            error: None,
        },
        (State::AwaitSnapshot, Event::Received(Message::Subscribed(snapshot))) => {
            let Subscribed { bids, asks } = snapshot;
            Step {
                state: State::StreamDeltas,
                events: orders2exchangemessages(rows(bids), rows(asks)),
                error: None,
            }
        },
        (State::StreamDeltas, Event::Received(Message::ChannelData(delta))) => {
            let ChannelData { bids, asks } = delta;
            Step {
                state: State::StreamDeltas,
                events: orders2exchangemessages(bids, asks),
                error: None,
            }
        },
        (_, Event::Failed(error)) => Step {
            state: State::Ended,
            events: Vec::new(),
            error: Some(error),
        },
        (State::AwaitConnected, _) => violation(Awaited::Connected),
        (State::Subscribe, _) => violation(Awaited::Sent),
        (State::AwaitSnapshot, _) => violation(Awaited::Subscribed),
        (State::StreamDeltas, _) => violation(Awaited::ChannelData),
    }
}

/// The step that ends the sequence because something else came than
/// `awaited`.
fn violation<PriceT, QuantityT>(awaited: Awaited) -> (next: Step<PriceT, QuantityT>)
    ensures
        next.state == State::Ended,
        next.events@ == Seq::<ExchangeMessage<PriceT, QuantityT>>::empty(),
        next.error == Some(AdapterError::ProtocolViolation(awaited)),
{
    Step {
        state: State::Ended,
        events: Vec::new(),
        error: Some(AdapterError::ProtocolViolation(awaited)),
    }
}

/// The subscribe request around the instrument's JSON string literal.
pub open spec fn subscribe_text(quoted_id: Seq<char>) -> Seq<char> {
    "{\"type\":\"subscribe\",\"channel\":\"v4_orderbook\",\"id\":"@ + quoted_id + "}"@
}

/// Frames the subscribe request around `quoted_id`, the instrument as a JSON
/// string literal.
pub fn frame_subscribe(quoted_id: &str) -> (request: String)
    ensures
        request@ == subscribe_text(quoted_id@),
{
    let mut request = String::from_str(
        "{\"type\":\"subscribe\",\"channel\":\"v4_orderbook\",\"id\":",
    );
    request.append(quoted_id);
    request.append("}");
    request
}

/// The request that subscribes to the order book of the instrument `id`, or
/// nothing where the instrument has no JSON string literal.
pub fn subscribe_request(id: &str) -> (request: Option<String>)
    ensures
        match json_quoted(id@) {
            Some(quoted) => request.is_some() && request.unwrap()@ == subscribe_text(quoted),
            None => request.is_none(),
        },
{
    match quote_json(id) {
        Some(quoted) => Some(frame_subscribe(quoted.as_str())),
        None => None,
    }
}

/// What a step hands on, as the items of the adapter's sequence: the order
/// events, then the error if there is one.
pub open spec fn handed_on<PriceT, QuantityT>(state: State, event: Event<PriceT, QuantityT>) -> Seq<
    Result<ExchangeMessage<PriceT, QuantityT>, AdapterError>,
> {
    let events = emitted(state, event).map_values(
        |m: ExchangeMessage<PriceT, QuantityT>|
            Ok::<ExchangeMessage<PriceT, QuantityT>, AdapterError>(m),
    );
    match failure(state, event) {
        Some(error) => events.push(Err(error)),
        None => events,
    }
}

/// The state that the protocol reaches from `state` over `events`.
pub open spec fn reached<PriceT, QuantityT>(
    state: State,
    events: Seq<Event<PriceT, QuantityT>>,
) -> State
    decreases events.len(),
{
    if events.len() == 0 {
        state
    } else {
        reached(next_state(state, events[0]), events.drop_first())
    }
}

/// The adapter's sequence from `state` over `events`: what each step hands
/// on, in the order of the events.
pub open spec fn sequence<PriceT, QuantityT>(
    state: State,
    events: Seq<Event<PriceT, QuantityT>>,
) -> Seq<Result<ExchangeMessage<PriceT, QuantityT>, AdapterError>>
    decreases events.len(),
{
    if events.len() == 0 {
        Seq::empty()
    } else {
        handed_on(state, events[0]) + sequence(next_state(state, events[0]), events.drop_first())
    }
}

/// Once the sequence is over it stays over, and nothing more is handed on.
pub proof fn lemma_ended_is_final<PriceT, QuantityT>(events: Seq<Event<PriceT, QuantityT>>)
    ensures
        reached(State::Ended, events) == State::Ended,
        sequence(State::Ended, events).len() == 0,
    decreases events.len(),
{
    if events.len() > 0 {
        lemma_ended_is_final(events.drop_first());
    }
}

/// What is handed on follows the order in which the events arrive: the
/// sequence over `first` and then `then` is the sequence over `first`,
/// followed by the sequence over `then` from where `first` left the protocol.
pub proof fn lemma_sequence_follows_arrival<PriceT, QuantityT>(
    state: State,
    first: Seq<Event<PriceT, QuantityT>>,
    then: Seq<Event<PriceT, QuantityT>>,
)
    ensures
        reached(state, first + then) == reached(reached(state, first), then),
        sequence(state, first + then) == sequence(state, first) + sequence(
            reached(state, first),
            then,
        ),
    decreases first.len(),
{
    if first.len() == 0 {
        assert(first + then =~= then);
        assert(sequence(state, first) + sequence(state, then) =~= sequence(state, then));
    } else {
        let all = first + then;
        assert(all[0] == first[0]);
        assert(all.drop_first() =~= first.drop_first() + then);
        lemma_sequence_follows_arrival(next_state(state, first[0]), first.drop_first(), then);
        assert(sequence(state, all) =~= sequence(state, first) + sequence(
            reached(state, first),
            then,
        ));
    }
}

/// An error ends the sequence: the step that hands one on hands on nothing
/// else, and leaves the protocol at its end.
pub proof fn lemma_error_ends<PriceT, QuantityT>(state: State, event: Event<PriceT, QuantityT>)
    ensures
        failure(state, event).is_some() ==> next_state(state, event) == State::Ended && emitted(
            state,
            event,
        ).len() == 0,
        failure(state, event).is_none() && state != State::Ended ==> next_state(state, event)
            != State::Ended,
{
}

/// The adapter's sequence holds at most one error, and nothing after it.
pub proof fn lemma_error_is_last<PriceT, QuantityT>(
    state: State,
    events: Seq<Event<PriceT, QuantityT>>,
    i: int,
)
    requires
        0 <= i < sequence(state, events).len(),
        sequence(state, events)[i].is_err(),
    ensures
        i == sequence(state, events).len() - 1,
    decreases events.len(),
{
    let first = handed_on(state, events[0]);
    let rest = sequence(next_state(state, events[0]), events.drop_first());
    if failure(state, events[0]).is_some() {
        lemma_ended_is_final(events.drop_first());
    } else {
        assert(i >= first.len());
        lemma_error_is_last(next_state(state, events[0]), events.drop_first(), i - first.len());
    }
}

} // verus!
