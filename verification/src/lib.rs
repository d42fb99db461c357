//! Replication of a small set of game entities between one authority and
//! several peers over datagrams, with remote calls by name.
//!
//! The library decides; it does no input or output. A program hands it the
//! datagrams that arrive, and gets back the datagrams to send:
//!
//! - [`wire`] is the format of a message on the wire, read and written.
//! - [`message`] holds the message and the typed values in it, and
//!   [`catalogue`] the messages that the two sides exchange.
//! - [`server`] is the authority: the peer registry, the entity map, and
//!   what each request does to them.
//! - [`client`] is a peer: its mirror of the entity map, and what each
//!   message from the authority does to it.
//! - [`rpc_funcs`] is the table of the functions that can be called by name,
//!   and the dispatch of a call.
//! - [`game_handle`] is the one entry point of the simulation, for either
//!   side, with the handshakes of a peer as bounded state machines.
//! - [`laws`] states what holds of all of this together.

use vstd::prelude::*;

pub mod address;
pub mod catalogue;
pub mod client;
pub mod game_handle;
pub mod ids;
pub mod laws;
pub mod message;
pub mod network_sync;
pub mod player;
pub mod player_spawner;
pub mod protocol;
pub mod rpc_funcs;
pub mod rpc_game_callables;
pub mod server;
pub mod text;
pub mod transport;
pub mod wire;

verus! {

/// UDP port the authority binds.
pub const SERVER_PORT: u16 = 13882;

/// UDP port every peer binds.
pub const CLIENT_PORT: u16 = 28831;

} // verus!
