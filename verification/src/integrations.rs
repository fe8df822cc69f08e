//! What the venue adapters share: the normalized order event, the inbound
//! frames and what becomes of them, and the errors that end an adapter's
//! sequence.

use crate::text::{lossy_text, render_lossy, type_label};
use vstd::prelude::*;
use vstd::string::*;

pub mod aevo;
pub mod dydx;

verus! {

/// A normalized order event: the venue bids at `price` (`Buy`) or asks at
/// `price` (`Sell`). A quantity of zero withdraws what the venue had there.
#[derive(Debug, PartialEq, Eq, PartialOrd, Ord, Hash, Clone, Copy)]
pub enum ExchangeMessage<PriceT, QuantityT> {
    Buy { price: PriceT, quantity: QuantityT },
    Sell { price: PriceT, quantity: QuantityT },
}

/// One frame as the transport delivers it.
#[derive(Debug, PartialEq, Eq, Clone)]
pub enum Frame {
    Text(String),
    Binary(Vec<u8>),
    Ping(Vec<u8>),
    Pong(Vec<u8>),
    Close,
    Raw,
}

/// The body of a frame that carries a message.
#[derive(Debug, PartialEq, Eq, Clone)]
pub enum Payload {
    Binary(Vec<u8>),
    Text(String),
}

/// What the receiving side does with what the transport handed it.
#[derive(Debug, PartialEq, Eq, Clone)]
pub enum Intake {
    /// The frame carries a message: decode this.
    Deliver(Payload),
    /// The frame belongs to the transport's own upkeep: receive the next one.
    Skip,
    /// The stream is over although a message was awaited.
    Ended,
}

/// Decides what becomes of `frame`, the next thing that the transport
/// produced, `None` standing for the end of the stream. Text and binary
/// frames carry messages; pings, pongs and raw frames are passed over; a
/// close frame ends the stream as its end does.
pub fn intake(frame: Option<Frame>) -> (taken: Intake)
    ensures
        taken == match frame {
            Some(Frame::Binary(bytes)) => Intake::Deliver(Payload::Binary(bytes)),
            Some(Frame::Text(text)) => Intake::Deliver(Payload::Text(text)),
            Some(Frame::Ping(_)) | Some(Frame::Pong(_)) | Some(Frame::Raw) => Intake::Skip,
            Some(Frame::Close) | None => Intake::Ended,
        },
{
    match frame {
        Some(Frame::Binary(bytes)) => Intake::Deliver(Payload::Binary(bytes)),
        Some(Frame::Text(text)) => Intake::Deliver(Payload::Text(text)),
        Some(Frame::Ping(_)) => Intake::Skip,
        Some(Frame::Pong(_)) => Intake::Skip,
        Some(Frame::Raw) => Intake::Skip,
        Some(Frame::Close) => Intake::Ended,
        None => Intake::Ended,
    }
}

impl Payload {
    /// The bytes of the payload: those of a binary frame, or the UTF-8
    /// encoding of the text of a text frame.
    pub open spec fn spec_bytes(&self) -> Seq<u8> {
        match self {
            Payload::Binary(bytes) => bytes@,
            Payload::Text(text) => vstd::utf8::encode_utf8(text@),
        }
    }

    /// The bytes of the payload: those of a binary frame, or the UTF-8
    /// encoding of the text of a text frame.
    pub fn into_bytes(self) -> (bytes: Vec<u8>)
        ensures
            bytes@ == self.spec_bytes(),
    {
        match self {
            Payload::Binary(bytes) => bytes,
            Payload::Text(text) => text.as_str().as_bytes_vec(),
        }
    }
}

/// The step of a venue's protocol that an adapter was waiting for.
#[derive(Debug, PartialEq, Eq, Clone, Copy)]
pub enum Awaited {
    /// The venue's acknowledgement of the connection.
    Connected,
    /// The writing of the subscribe request.
    Sent,
    /// The snapshot of resting orders that answers the subscription.
    Subscribed,
    /// A delta to the book.
    ChannelData,
    /// The snapshot of price levels that answers the subscription.
    Snapshot,
    /// The acknowledgement that follows the snapshot.
    Acknowledgement,
    /// An update to the book.
    Update,
}

impl Awaited {
    /// What an adapter says when something else came than what it awaited.
    pub open spec fn spec_complaint(self) -> Seq<char> {
        match self {
            Awaited::Connected => "expected to receive \"connected\""@,
            Awaited::Sent => "expected the subscribe request to be sent"@,
            Awaited::Subscribed => "expected to receive \"subscribed\""@,
            Awaited::ChannelData => "expected \"channel_data\""@,
            Awaited::Snapshot => "expected to receive \"snapshot\""@,
            Awaited::Acknowledgement => "expected to receive an acknowledgement"@,
            Awaited::Update => "expected to receive \"update\""@,
        }
    }

    /// What an adapter says when something else came than what it awaited.
    pub fn complaint(self) -> (text: &'static str)
        ensures
            text@ == self.spec_complaint(),
    {
        match self {
            Awaited::Connected => "expected to receive \"connected\"",
            Awaited::Sent => "expected the subscribe request to be sent",
            Awaited::Subscribed => "expected to receive \"subscribed\"",
            Awaited::ChannelData => "expected \"channel_data\"",
            Awaited::Snapshot => "expected to receive \"snapshot\"",
            Awaited::Acknowledgement => "expected to receive an acknowledgement",
            Awaited::Update => "expected to receive \"update\"",
        }
    }
}

/// A payload that does not fit the schema it was decoded against.
#[derive(Debug, PartialEq, Eq, Clone)]
pub struct SerializationError {
    /// The path to the offending field.
    pub path: String,
    /// What the decoder objected to.
    pub inner: String,
    /// The payload as it arrived.
    pub src: Vec<u8>,
    /// The name of the type that was expected, without its generic arguments.
    pub ty: String,
}

impl SerializationError {
    /// Records a payload that failed to decode as the type named `expected`: where, why, and
    /// the payload itself. Of the type's name only the part before its generic
    /// arguments is kept.
    pub fn new(path: String, inner: String, src: Vec<u8>, expected: &str) -> (error: Self)
        ensures
            error.path == path,
            error.inner == inner,
            error.src == src,
            error.ty@.len() <= expected@.len(),
            error.ty@ == expected@.take(error.ty@.len() as int),
            !error.ty@.contains('<'),
            error.ty@.len() == expected@.len() || expected@[error.ty@.len() as int] == '<',
    {
        SerializationError { path, inner, src, ty: type_label(expected) }
    }

    /// The report of the failure: the expected type, the decoder's objection,
    /// the field path and the payload, one to a line.
    pub open spec fn spec_message(&self) -> Seq<char> {
        "couldn't serialize a "@ + self.ty@ + "\n\nerror: "@ + self.inner@ + "\nlocation: "@
            + self.path@ + "\nsource text: "@ + lossy_text(self.src@) + "\n"@
    }

    /// The report of the failure: the expected type, the decoder's objection,
    /// the field path and the payload, one to a line.
    pub fn message(&self) -> (text: String)
        ensures
            text@ == self.spec_message(),
    {
        let mut text = String::from_str("couldn't serialize a ");
        text.append(self.ty.as_str());
        text.append("\n\nerror: ");
        text.append(self.inner.as_str());
        text.append("\nlocation: ");
        text.append(self.path.as_str());
        text.append("\nsource text: ");
        let shown = render_lossy(&self.src);
        text.append(shown.as_str());
        text.append("\n");
        text
    }
}

/// Why the transport gave no message.
#[derive(Debug, PartialEq, Eq, Clone)]
pub enum TransportFault {
    /// The stream ended, or the peer closed it, while a message was awaited.
    EndedEarly,
    /// The connection or its I/O failed; the transport's own words.
    Io(String),
}

/// The errors that end an adapter's sequence.
#[derive(Debug, PartialEq, Eq, Clone)]
pub enum AdapterError {
    /// The connection failed or ended.
    TransportFailure(TransportFault),
    /// Something else came than the step of the protocol that was awaited.
    ProtocolViolation(Awaited),
    /// A payload did not fit its schema.
    DecodeFailure(SerializationError),
}

impl AdapterError {
    /// The error in words.
    pub open spec fn spec_describe(&self) -> Seq<char> {
        match self {
            AdapterError::TransportFailure(
                TransportFault::EndedEarly,
            ) => "underlying stream ended early"@,
            AdapterError::TransportFailure(TransportFault::Io(detail)) => detail@,
            AdapterError::ProtocolViolation(awaited) => awaited.spec_complaint(),
            AdapterError::DecodeFailure(error) => error.spec_message(),
        }
    }

    /// The error in words.
    pub fn describe(&self) -> (text: String)
        ensures
            text@ == self.spec_describe(),
    {
        match self {
            AdapterError::TransportFailure(TransportFault::EndedEarly) => String::from_str(
                "underlying stream ended early",
            ),
            AdapterError::TransportFailure(TransportFault::Io(detail)) => detail.clone(),
            AdapterError::ProtocolViolation(awaited) => String::from_str(awaited.complaint()),
            AdapterError::DecodeFailure(error) => error.message(),
        }
    }
}

/// The events that a venue's bid rows stand for, row by row.
pub open spec fn bought<PriceT, QuantityT>(rows: Seq<(PriceT, QuantityT)>) -> Seq<
    ExchangeMessage<PriceT, QuantityT>,
> {
    rows.map_values(
        |row: (PriceT, QuantityT)| ExchangeMessage::Buy { price: row.0, quantity: row.1 },
    )
}

/// The events that a venue's ask rows stand for, row by row.
pub open spec fn sold<PriceT, QuantityT>(rows: Seq<(PriceT, QuantityT)>) -> Seq<
    ExchangeMessage<PriceT, QuantityT>,
> {
    rows.map_values(
        |row: (PriceT, QuantityT)| ExchangeMessage::Sell { price: row.0, quantity: row.1 },
    )
}

/// The events of one message: its bids in their order, then its asks in
/// theirs.
pub open spec fn normalized<PriceT, QuantityT>(
    bids: Seq<(PriceT, QuantityT)>,
    asks: Seq<(PriceT, QuantityT)>,
) -> Seq<ExchangeMessage<PriceT, QuantityT>> {
    bought(bids) + sold(asks)
}

/// Turns the rows of one message into order events: a `Buy` for every bid
/// row, then a `Sell` for every ask row, each group in the order of its rows.
pub fn orders2exchangemessages<PriceT, QuantityT>(
    bids: Vec<(PriceT, QuantityT)>,
    asks: Vec<(PriceT, QuantityT)>,
) -> (events: Vec<ExchangeMessage<PriceT, QuantityT>>)
    ensures
        events@ == normalized(bids@, asks@),
{
    let mut events: Vec<ExchangeMessage<PriceT, QuantityT>> = Vec::new();
    let ghost bid_rows = bids@;
    let ghost ask_rows = asks@;
    for row in iter: bids
        invariant
            iter.seq() == bid_rows,
            events@ == bought(bid_rows.take(iter.index())),
    {
        let (price, quantity) = row;
        events.push(ExchangeMessage::Buy { price, quantity });
        assert(events@ =~= bought(bid_rows.take(iter.index() + 1)));
    }
    assert(bid_rows.take(bid_rows.len() as int) =~= bid_rows);
    for row in iter: asks
        invariant
            iter.seq() == ask_rows,
            events@ == bought(bid_rows) + sold(ask_rows.take(iter.index())),
    {
        let (price, quantity) = row;
        events.push(ExchangeMessage::Sell { price, quantity });
        assert(events@ =~= bought(bid_rows) + sold(ask_rows.take(iter.index() + 1)));
    }
    assert(ask_rows.take(ask_rows.len() as int) =~= ask_rows);
    events
}

} // verus!
