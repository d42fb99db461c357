use crate::address::PeerAddr;
use crate::message::{FieldMap, Message, MessageError, Value};
use crate::protocol::ProtocolError;
use crate::wire::{encode_datagram, message_size, parse_message, put_all, MAX_DATAGRAM};
use vstd::prelude::*;

verus! {

/// How long a transport loop rests between two cycles, in milliseconds.
pub const CYCLE_MILLIS: u64 = 8;

/// How long a peer waits for an answer before it asks again, in
/// milliseconds.
pub const RETRY_MILLIS: u64 = 200;

/// Why a datagram was dropped.
#[derive(Clone, Copy, Debug, PartialEq, Eq, Structural)]
pub enum Dropped {
    /// It is no message.
    Malformed,
    /// It is a message, and the request in it was refused.
    Refused(ProtocolError),
}

/// Whether `bytes` is a datagram that holds a message to the reserved
/// target -1 with the fields `items`.
pub open spec fn is_datagram(bytes: Seq<u8>, items: Seq<(Seq<char>, Value)>) -> bool {
    &&& bytes.len() == message_size(items)
    &&& bytes.len() <= MAX_DATAGRAM
    &&& parse_message(bytes) == Some((-1i32, put_all(Seq::empty(), items)))
}

/// The datagram that carries `message`.
pub fn frame_bytes(message: &FieldMap) -> (r: Result<Vec<u8>, MessageError>)
    ensures
        match r {
            Ok(bytes) => is_datagram(bytes@, message.items()),
            Err(e) => e == MessageError::Oversized && message_size(message.items()) > MAX_DATAGRAM,
        },
{
    let envelope = match Message::new(-1, message.clone()) {
        Ok(m) => m,
        Err(e) => { return Err(e); },
    };
    match encode_datagram(&envelope) {
        Ok(bytes) => {
            assert(bytes@ + Seq::<u8>::empty() =~= bytes@);
            Ok(bytes)
        },
        Err(e) => Err(e),
    }
}

/// The datagram that carries `message` to `target`.
pub fn frame(message: &FieldMap, target: PeerAddr) -> (r: Result<(PeerAddr, Vec<u8>), MessageError>)
    ensures
        match r {
            Ok((to, bytes)) => to == target && is_datagram(bytes@, message.items()),
            Err(e) => e == MessageError::Oversized && message_size(message.items()) > MAX_DATAGRAM,
        },
{
    match frame_bytes(message) {
        Ok(bytes) => Ok((target, bytes)),
        Err(e) => Err(e),
    }
}

} // verus!
