//! The join protocol end to end: what the client sends is what the server
//! reads, and what the server answers is what moves the client on.

use vstd::prelude::*;
use crate::client::SessionView;
use crate::server::{fan_out, LobbyView};
use crate::transport::{delivery, ConnectionEventView, DeliveryMode, EnvelopeView, PeerAddress};
use crate::wire::{decoding, encoding, lemma_decode_encode, Color, Packet};

verus! {

/// The event with which a payload sent by `source` arrives.
pub open spec fn arrival(source: PeerAddress, payload: Seq<u8>) -> ConnectionEventView {
    ConnectionEventView::Message(EnvelopeView { source, payload })
}

/// A control message that arrives as it was encoded is delivered as it was
/// sent, with the address it came from.
pub proof fn lemma_sent_is_delivered(source: PeerAddress, packet: Packet)
    ensures
        delivery(arrival(source, encoding(packet))) == Some((source, packet)),
{
    lemma_decode_encode(packet, Seq::empty());
    assert(encoding(packet) + Seq::<u8>::empty() =~= encoding(packet));
}

/// A join request that reaches a waiting server is answered, and the answer
/// gives the client that asked the next free id, which is the size of the
/// roster after the join. The client goes on `Joining` with that id and is
/// `Joined` once it begins to wait for the start. The answer to the joiner
/// is the last message of the announcement.
pub proof fn lemma_join_is_answered(
    lobby: LobbyView,
    client: SessionView,
    from: PeerAddress,
    color: Color,
)
    requires
        lobby.wf(),
        lobby.waiting(),
        client.wf(),
        client.state is Menu,
    ensures
        ({
            let request = encoding(Packet::Join(color));
            let id = (lobby.roster.len() + 1) as usize;
            let answers = lobby.announced(from, Packet::Join(color));
            let answered = client.requested().received(Packet::Joined(id));
            &&& delivery(arrival(from, request)) == Some((from, Packet::Join(color)))
            &&& lobby.received(from, Packet::Join(color)).roster.last().id == id
            &&& answers.len() == id
            &&& answers.last().dest == from
            &&& answers.last().mode == DeliveryMode::ReliableOrdered
            &&& delivery(arrival(client.server, answers.last().payload)) == Some(
                (client.server, Packet::Joined(id)),
            )
            &&& answered.state is Joining
            &&& answered.admitted
            &&& answered.player_id == id
            &&& answered.awaiting().state is Joined
            &&& answered.awaiting().player_id == id
        }),
{
    let id = (lobby.roster.len() + 1) as usize;
    lemma_sent_is_delivered(from, Packet::Join(color));
    lemma_sent_is_delivered(client.server, Packet::Joined(id));
}

/// When the roster is full the game starts, every player is told so, and a
/// client that waits for the start and receives the message notes it and
/// can begin to play, under the id it was given. Until the roster is full
/// no such message is sent.
pub proof fn lemma_start_reaches_joined_clients(lobby: LobbyView, client: SessionView)
    requires
        lobby.wf(),
        client.wf(),
        client.state is Joined,
    ensures
        ({
            let started = fan_out(
                lobby.roster,
                DeliveryMode::ReliableOrdered,
                encoding(Packet::GameStarted),
            );
            let told = client.received(Packet::GameStarted);
            &&& lobby.ready() ==> lobby.started().state is Gameplay
            &&& !lobby.ready() ==> lobby.started() == lobby
            &&& forall|i: int|
                0 <= i < started.len() ==> delivery(
                    arrival(client.server, (#[trigger] started[i]).payload),
                ) == Some((client.server, Packet::GameStarted))
            &&& told.state is Joined
            &&& told.ready()
            &&& told.playing().state is Playing
            &&& told.playing().player_id == client.player_id
        }),
{
    lemma_sent_is_delivered(client.server, Packet::GameStarted);
}

/// A payload that is no control message moves neither side: it is not
/// delivered to the handshake at all.
pub proof fn lemma_garbage_is_not_delivered(source: PeerAddress, payload: Seq<u8>)
    requires
        decoding(payload) is None,
    ensures
        delivery(arrival(source, payload)) is None,
{
}

} // verus!
