//! The contracts between the session logic and the game it carries.
//!
//! The session logic knows nothing of a concrete game. On the server it
//! drives a `GameplayHost`, on the client a `GameplayClient`; both hand back
//! what is to be sent instead of touching the transport themselves.

use vstd::prelude::*;
use crate::server::Player;
use crate::transport::PeerAddress;

verus! {

/// Server side of a game: the authoritative simulation.
pub trait GameplayHost {
    /// Called once, with the full roster, before the first tick.
    fn init(&mut self, players: &Vec<Player>);

    /// Called for every payload received from a joined player.
    fn on_packet(&mut self, sender: usize, payload: &[u8]);

    /// Advances the simulation by one tick and returns the snapshot that
    /// every roster member is to receive.
    fn update(&mut self, players: &Vec<Player>) -> Vec<u8>;
}

/// Client side of a game: input and presentation.
pub trait GameplayClient {
    /// Local input event, as the display layer reports it.
    type Event;

    /// The display layer that the game draws on.
    type Display;

    /// Called once, when the server has started the game.
    fn init(&mut self, id: usize, server: PeerAddress);

    /// Called for every local input event of a frame.
    fn on_event(&mut self, event: &Self::Event, display: &mut Self::Display);

    /// Called for every payload received from the server.
    fn on_packet(&mut self, payload: &[u8], display: &mut Self::Display);

    /// Called once per frame; returns the state update to send, if any.
    fn update(&mut self, display: &mut Self::Display) -> Option<Vec<u8>>;
}

} // verus!
