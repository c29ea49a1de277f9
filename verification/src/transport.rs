//! Data exchanged with the transport, and the rules by which events coming
//! from it are filtered before the session logic sees them.
//!
//! The transport itself owns the network endpoint and is driven from outside
//! this library. What it hands over is modelled here as plain values.

use vstd::prelude::*;
use crate::wire::{decoding, Packet};

verus! {

/// Network endpoint of a peer: an IP address and a port.
#[allow(inconsistent_fields)]
#[derive(Clone, Copy, Debug, PartialEq, Eq, Structural, Hash)]
pub enum PeerAddress {
    /// IPv4 endpoint; `ip` holds the four octets, first octet most significant.
    V4 { ip: u32, port: u16 },
    /// IPv6 endpoint; `ip` holds the sixteen octets, first octet most significant.
    V6 { ip: u128, port: u16, flowinfo: u32, scope_id: u32 },
}

/// Delivery guarantee asked of the transport for one message.
#[derive(Clone, Copy, Debug, PartialEq, Eq, Structural)]
pub enum DeliveryMode {
    /// Delivered exactly once, in the order sent.
    ReliableOrdered,
    /// Delivered unless a newer message of the stream arrived first.
    ReliableSequenced,
}

/// A payload together with the peer it came from.
#[derive(Debug, PartialEq, Eq)]
pub struct Envelope {
    pub source: PeerAddress,
    pub payload: Vec<u8>,
}

/// What an `Envelope` holds.
pub struct EnvelopeView {
    pub source: PeerAddress,
    pub payload: Seq<u8>,
}

impl View for Envelope {
    type V = EnvelopeView;

    open spec fn view(&self) -> EnvelopeView {
        EnvelopeView { source: self.source, payload: self.payload@ }
    }
}

impl Clone for Envelope {
    fn clone(&self) -> (copy: Self)
        ensures
            copy@ == self@,
    {
        let payload = self.payload.clone();
        assert(payload@ =~= self.payload@);
        Envelope { source: self.source, payload }
    }
}

/// Event surfaced by the transport.
#[derive(Debug, PartialEq, Eq)]
pub enum ConnectionEvent {
    /// A peer was seen for the first time.
    PeerConnected(PeerAddress),
    /// A peer stayed silent for too long.
    PeerTimedOut(PeerAddress),
    /// A payload arrived.
    Message(Envelope),
}

/// What a `ConnectionEvent` holds.
pub enum ConnectionEventView {
    PeerConnected(PeerAddress),
    PeerTimedOut(PeerAddress),
    Message(EnvelopeView),
}

impl View for ConnectionEvent {
    type V = ConnectionEventView;

    open spec fn view(&self) -> ConnectionEventView {
        match self {
            ConnectionEvent::PeerConnected(peer) => ConnectionEventView::PeerConnected(*peer),
            ConnectionEvent::PeerTimedOut(peer) => ConnectionEventView::PeerTimedOut(*peer),
            ConnectionEvent::Message(envelope) => ConnectionEventView::Message(envelope@),
        }
    }
}

impl Clone for ConnectionEvent {
    fn clone(&self) -> (copy: Self)
        ensures
            copy@ == self@,
    {
        match self {
            ConnectionEvent::PeerConnected(peer) => ConnectionEvent::PeerConnected(*peer),
            ConnectionEvent::PeerTimedOut(peer) => ConnectionEvent::PeerTimedOut(*peer),
            ConnectionEvent::Message(envelope) => ConnectionEvent::Message(envelope.clone()),
        }
    }
}

/// A message handed to the transport for sending.
#[derive(Debug, PartialEq, Eq)]
pub struct Outgoing {
    pub dest: PeerAddress,
    pub mode: DeliveryMode,
    pub payload: Vec<u8>,
}

/// What an `Outgoing` holds.
pub struct OutgoingView {
    pub dest: PeerAddress,
    pub mode: DeliveryMode,
    pub payload: Seq<u8>,
}

impl View for Outgoing {
    type V = OutgoingView;

    open spec fn view(&self) -> OutgoingView {
        OutgoingView { dest: self.dest, mode: self.mode, payload: self.payload@ }
    }
}

impl Clone for Outgoing {
    fn clone(&self) -> (copy: Self)
        ensures
            copy@ == self@,
    {
        let payload = self.payload.clone();
        assert(payload@ =~= self.payload@);
        Outgoing { dest: self.dest, mode: self.mode, payload }
    }
}

impl Outgoing {
    /// A message to be delivered exactly once and in sending order.
    pub fn reliable_ordered(dest: PeerAddress, payload: Vec<u8>) -> (message: Outgoing)
        ensures
            message@ == (OutgoingView {
                dest,
                mode: DeliveryMode::ReliableOrdered,
                payload: payload@,
            }),
    {
        Outgoing { dest, mode: DeliveryMode::ReliableOrdered, payload }
    }

    /// A message that a newer one of its stream may supersede.
    pub fn reliable_sequenced(dest: PeerAddress, payload: Vec<u8>) -> (message: Outgoing)
        ensures
            message@ == (OutgoingView {
                dest,
                mode: DeliveryMode::ReliableSequenced,
                payload: payload@,
            }),
    {
        Outgoing { dest, mode: DeliveryMode::ReliableSequenced, payload }
    }
}

/// The unspecified IPv4 address with the given port: every local interface.
pub open spec fn any_interface(port: u16) -> PeerAddress {
    PeerAddress::V4 { ip: 0, port }
}

/// The local address a transport binds to: the one asked for, or, when none
/// is asked for, any interface with a port that the system picks (port 0).
pub fn bind_target(host: Option<PeerAddress>) -> (local: PeerAddress)
    ensures
        local == match host {
            Some(asked) => asked,
            None => any_interface(0),
        },
{
    match host {
        Some(asked) => asked,
        None => PeerAddress::V4 { ip: 0, port: 0 },
    }
}

/// The payload-bearing events among `events`, in the order they came.
/// Connect and timeout notices carry no payload and are left out.
pub open spec fn messages(events: Seq<ConnectionEvent>) -> Seq<EnvelopeView>
    decreases events.len(),
{
    if events.len() == 0 {
        Seq::empty()
    } else {
        let earlier = messages(events.drop_last());
        match events.last() {
            ConnectionEvent::Message(envelope) => earlier.push(envelope@),
            _ => earlier,
        }
    }
}

/// The control message that `event` delivers, with its sender: an event
/// delivers one when it bears a payload and the payload decodes.
pub open spec fn delivery(event: ConnectionEventView) -> Option<(PeerAddress, Packet)> {
    match event {
        ConnectionEventView::Message(envelope) => match decoding(envelope.payload) {
            Some(packet) => Some((envelope.source, packet)),
            None => None,
        },
        _ => None,
    }
}

/// The contents of a list of envelopes.
pub open spec fn envelope_views(envelopes: Seq<Envelope>) -> Seq<EnvelopeView> {
    envelopes.map_values(|envelope: Envelope| envelope@)
}

/// The contents of a list of outgoing messages.
pub open spec fn outgoing_views(batch: Seq<Outgoing>) -> Seq<OutgoingView> {
    batch.map_values(|message: Outgoing| message@)
}

/// Keeps the payloads of a batch of transport events, in arrival order, and
/// drops the connect and timeout notices.
pub fn payloads(events: &Vec<ConnectionEvent>) -> (inbound: Vec<Envelope>)
    ensures
        envelope_views(inbound@) == messages(events@),
{
    let mut inbound: Vec<Envelope> = Vec::new();
    let mut i: usize = 0;
    while i < events.len()
        invariant
            i <= events.len(),
            envelope_views(inbound@) == messages(events@.take(i as int)),
        decreases events.len() - i,
    {
        let ghost before = inbound@;
        match &events[i] {
            ConnectionEvent::Message(envelope) => {
                inbound.push(envelope.clone());
                assert(envelope_views(inbound@) =~= envelope_views(before).push(envelope@));
            },
            _ => {},
        }
        assert(events@.take(i + 1).drop_last() =~= events@.take(i as int));
        i += 1;
    }
    assert(events@.take(events.len() as int) =~= events@);
    inbound
}

/// Decides what a single transport event delivers to a caller waiting for a
/// control message: the decoded message and its sender, or nothing when the
/// event is a notice or its payload does not decode.
pub fn deliver(event: &ConnectionEvent) -> (delivered: Option<(PeerAddress, Packet)>)
    ensures
        delivered == delivery(event@),
{
    match event {
        ConnectionEvent::Message(envelope) => match Packet::decode(envelope.payload.as_slice()) {
            Some(packet) => Some((envelope.source, packet)),
            None => None,
        },
        _ => None,
    }
}

/// Filtering keeps the order of arrival: the payloads of two batches taken
/// one after the other are the payloads of the first followed by those of
/// the second.
pub proof fn lemma_messages_keep_order(first: Seq<ConnectionEvent>, second: Seq<ConnectionEvent>)
    ensures
        messages(first + second) == messages(first) + messages(second),
    decreases second.len(),
{
    if second.len() == 0 {
        assert(first + second =~= first);
        assert(messages(first) + messages(second) =~= messages(first));
    } else {
        lemma_messages_keep_order(first, second.drop_last());
        assert((first + second).drop_last() =~= first + second.drop_last());
        assert((first + second).last() == second.last());
        match second.last() {
            ConnectionEvent::Message(envelope) => {
                assert(messages(first + second) =~= messages(first) + messages(second));
            },
            _ => {},
        }
    }
}

} // verus!
