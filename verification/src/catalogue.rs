use crate::message::{
    put, FieldMap, MotionDataContainer, ObjectType, RpcCallContainer, Value,
};
use crate::player::DataWrapper;
use std::collections::HashMap;
use vstd::prelude::*;

verus! {

/// The fields of a message that holds its goal and nothing else.
pub open spec fn goal_only(goal: Seq<char>) -> Seq<(Seq<char>, Value)> {
    seq![("goal"@, Value::Text(goal))]
}

/// The fields of a message that holds its goal and one more field.
pub open spec fn goal_and(goal: Seq<char>, key: Seq<char>, value: Value) -> Seq<
    (Seq<char>, Value),
> {
    seq![("goal"@, Value::Text(goal)), (key, value)]
}

/// The fields of a message that holds its goal and two more fields.
pub open spec fn goal_and_two(
    goal: Seq<char>,
    key1: Seq<char>,
    value1: Value,
    key2: Seq<char>,
    value2: Value,
) -> Seq<(Seq<char>, Value)> {
    seq![("goal"@, Value::Text(goal)), (key1, value1), (key2, value2)]
}

/// The names of the fields of the catalogue differ from one another.
pub proof fn lemma_field_names()
    ensures
        "goal"@ != "id"@,
        "goal"@ != "players"@,
        "goal"@ != "player"@,
        "goal"@ != "object_id"@,
        "goal"@ != "motion_data"@,
        "goal"@ != "rpc_data"@,
        "object_id"@ != "motion_data"@,
{
    reveal_strlit("goal");
    reveal_strlit("id");
    reveal_strlit("players");
    reveal_strlit("player");
    reveal_strlit("object_id");
    reveal_strlit("motion_data");
    reveal_strlit("rpc_data");
    assert("goal"@.len() == 4);
    assert("id"@.len() == 2);
    assert("players"@.len() == 7);
    assert("player"@.len() == 6);
    assert("object_id"@.len() == 9);
    assert("motion_data"@.len() == 11);
    assert("rpc_data"@.len() == 8);
}

fn with_goal(goal: &str) -> (m: FieldMap)
    ensures
        m.items() == goal_only(goal@),
        m.wf(),
{
    let mut m = FieldMap::new();
    m.insert("goal".to_owned(), ObjectType::StringMsg(goal.to_owned()));
    assert(m.items() =~= goal_only(goal@));
    m
}

fn with_goal_and(goal: &str, key: &str, value: ObjectType) -> (m: FieldMap)
    requires
        key@ != "goal"@,
    ensures
        m.items() == goal_and(goal@, key@, value@),
        m.wf(),
{
    let mut m = with_goal(goal);
    m.insert(key.to_owned(), value);
    proof {
        let first = goal_only(goal@);
        assert(first.drop_first() =~= Seq::empty());
        assert(put(first.drop_first(), key@, value@) =~= seq![(key@, value@)]);
        assert(put(first, key@, value@) =~= goal_and(goal@, key@, value@));
    }
    m
}

/// The request that asks the authority for a client id.
pub fn sync_request() -> (m: FieldMap)
    ensures
        m.items() == goal_only("sync"@),
        m.wf(),
{
    with_goal("sync")
}

/// The answer to `sync`: the client id that the authority assigned.
pub fn confirm_connect(id: i32) -> (m: FieldMap)
    ensures
        m.items() == goal_and("confirm connect"@, "id"@, Value::Int(id)),
        m.wf(),
{
    proof {
        lemma_field_names();
    }
    with_goal_and("confirm connect", "id", ObjectType::Integer(id))
}

/// The request that asks the authority for its whole entity map.
pub fn get_sync_players_request() -> (m: FieldMap)
    ensures
        m.items() == goal_only("get_sync_players"@),
        m.wf(),
{
    with_goal("get_sync_players")
}

/// The answer to `get_sync_players`: the authority's whole entity map.
pub fn ret_sync_players(players: HashMap<i32, DataWrapper>) -> (m: FieldMap)
    ensures
        m.items() == goal_and("ret_sync_players"@, "players"@, Value::EntityMap(players@)),
        m.wf(),
{
    proof {
        lemma_field_names();
    }
    with_goal_and("ret_sync_players", "players", ObjectType::PlayerMap(players))
}

/// The request that asks the authority to create an entity, and the push
/// that tells a peer of an entity that was created.
pub fn add_player_request(player: DataWrapper) -> (m: FieldMap)
    ensures
        m.items() == goal_and("add_player"@, "player"@, Value::Entity(player)),
        m.wf(),
{
    proof {
        lemma_field_names();
    }
    with_goal_and("add_player", "player", ObjectType::Player(player))
}

/// The answer to `add_player`: the id under which the entity was created.
pub fn ret_player_obj_id(id: i32) -> (m: FieldMap)
    ensures
        m.items() == goal_and("ret_player_obj_id"@, "id"@, Value::Int(id)),
        m.wf(),
{
    proof {
        lemma_field_names();
    }
    with_goal_and("ret_player_obj_id", "id", ObjectType::Integer(id))
}

fn motion_message(goal: &str, object_id: i32, motion_data: MotionDataContainer) -> (m: FieldMap)
    ensures
        m.items() == goal_and_two(
            goal@,
            "object_id"@,
            Value::Int(object_id),
            "motion_data"@,
            Value::Motion(motion_data),
        ),
        m.wf(),
{
    proof {
        lemma_field_names();
    }
    let mut m = with_goal_and(goal, "object_id", ObjectType::Integer(object_id));
    let ghost two = m.items();
    m.insert("motion_data".to_owned(), ObjectType::MotionData(motion_data));
    proof {
        let key = "motion_data"@;
        let value = Value::Motion(motion_data);
        let one = two.drop_first();
        assert(one =~= seq![("object_id"@, Value::Int(object_id))]);
        assert(one.drop_first() =~= Seq::empty());
        assert(put(one.drop_first(), key, value) =~= seq![(key, value)]);
        assert(put(one, key, value) =~= seq![("object_id"@, Value::Int(object_id)), (key, value)]);
        assert(put(two, key, value) =~= goal_and_two(
            goal@,
            "object_id"@,
            Value::Int(object_id),
            "motion_data"@,
            Value::Motion(motion_data),
        ));
    }
    m
}

/// The report of a peer that an entity it owns has moved.
pub fn object_pos_update(object_id: i32, motion_data: MotionDataContainer) -> (m: FieldMap)
    ensures
        m.items() == goal_and_two(
            "object_pos_update"@,
            "object_id"@,
            Value::Int(object_id),
            "motion_data"@,
            Value::Motion(motion_data),
        ),
        m.wf(),
{
    motion_message("object_pos_update", object_id, motion_data)
}

/// The relay of a motion report to the peers that did not send it.
pub fn motion_update_broadcast(object_id: i32, motion_data: MotionDataContainer) -> (m: FieldMap)
    ensures
        m.items() == goal_and_two(
            "motion_update_broadcast"@,
            "object_id"@,
            Value::Int(object_id),
            "motion_data"@,
            Value::Motion(motion_data),
        ),
        m.wf(),
{
    motion_message("motion_update_broadcast", object_id, motion_data)
}

/// The request that calls a function on the other side.
pub fn rpc_call(call: RpcCallContainer) -> (m: FieldMap)
    ensures
        m.items() == goal_and("rpc_call"@, "rpc_data"@, Value::Rpc(call@.0, call@.1)),
        m.wf(),
{
    proof {
        lemma_field_names();
    }
    with_goal_and("rpc_call", "rpc_data", ObjectType::RpcCall(call))
}

} // verus!
