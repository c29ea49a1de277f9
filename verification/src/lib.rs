//! Networked synchronisation layer of a small authoritative-server
//! multiplayer game.
//!
//! The library holds the rules of the layer as functions on plain values:
//! the wire format of the control messages, the filtering of transport
//! events, the lobby and tick logic of the server, the join handshake and
//! frame logic of the client, display smoothing, and tick pacing. Sockets,
//! threads, clocks and the display are driven from outside; they hand the
//! library what arrived and carry out what it returns.

pub mod catcher;
pub mod client;
pub mod gameplay;
pub mod pacing;
pub mod protocol;
pub mod server;
pub mod smoothing;
pub mod transport;
pub mod util;
pub mod wire;
