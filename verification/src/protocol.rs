use crate::message::{lookup, MotionDataContainer, Value};
use crate::player::{DataWrapper, Player};
use vstd::prelude::*;

verus! {

/// Why a request was dropped. A dropped request changes nothing, and its
/// reader logs the reason once.
#[derive(Clone, Copy, Debug, PartialEq, Eq, Structural)]
pub enum ProtocolError {
    /// The message has no `goal` field.
    MissingGoal,
    /// The `goal` field is not text.
    InvalidGoal,
    /// The `goal` names no request that this side serves.
    UnknownGoal,
    /// The `id` field is missing or is not an integer.
    InvalidId,
    /// The `players` field is missing or is not an entity map.
    InvalidPlayers,
    /// The message has no `player` field.
    MissingPlayer,
    /// The `player` field is not an entity snapshot.
    InvalidPlayer,
    /// The `object_id` field is missing or is not an integer.
    InvalidObjectId,
    /// No entity has the id that the request names.
    UnknownObject(i32),
    /// The `motion_data` field is missing or is not a motion sample.
    InvalidMotion,
    /// The `rpc_data` field is missing or is not a remote call.
    InvalidRpcData,
    /// No function is registered under the name that the call gives.
    UnknownFunction,
    /// The function needs an entity and the call's first parameter is not
    /// an integer.
    MissingEntityParam,
    /// The function needs an entity and no live entity has the id that the
    /// call's first parameter gives.
    UnknownEntity(i32),
    /// Every positive id is taken.
    IdsExhausted,
}

/// The goal of a message with these fields: the text under `goal`.
pub open spec fn goal_of(items: Seq<(Seq<char>, Value)>) -> Result<Seq<char>, ProtocolError> {
    match lookup(items, "goal"@) {
        None => Err(ProtocolError::MissingGoal),
        Some(Value::Text(goal)) => Ok(goal),
        Some(_) => Err(ProtocolError::InvalidGoal),
    }
}

/// Whether a motion report is applied, and why not where it is not.
pub open spec fn motion_verdict(
    entities: Set<i32>,
    object_id: Option<Value>,
    motion_data: Option<Value>,
) -> Result<(i32, MotionDataContainer), ProtocolError> {
    match object_id {
        Some(Value::Int(id)) => if !entities.contains(id) {
            Err(ProtocolError::UnknownObject(id))
        } else {
            match motion_data {
                Some(Value::Motion(m)) => Ok((id, m)),
                _ => Err(ProtocolError::InvalidMotion),
            }
        },
        _ => Err(ProtocolError::InvalidObjectId),
    }
}

/// The live entities after a motion sample for `id`: the entity, where it is
/// among them, has moved.
pub open spec fn live_moved(live: Map<i32, Player>, id: i32, m: MotionDataContainer) -> Map<
    i32,
    Player,
> {
    if live.contains_key(id) {
        live.insert(id, live[id].moved(m))
    } else {
        live
    }
}

/// Whether every snapshot of an entity map has its key as its object id.
pub open spec fn keyed(entities: Map<i32, DataWrapper>) -> bool {
    forall|id: i32| entities.contains_key(id) ==> (#[trigger] entities[id]).object_id == id
}

} // verus!
