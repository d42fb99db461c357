use crate::address::PeerAddr;
use crate::client::{adopted, mirrors, taken_in, ClientState};
use crate::game_handle::{added_player, AddPlayer, RoleState};
use crate::ids::{first_free, lemma_first_free_fresh};
use crate::message::{lookup, Value};
use crate::player::{DataWrapper, Player};
use crate::protocol::{keyed, ProtocolError};
use crate::rpc_funcs::{dispatch_verdict, dispatched, RpcCallable, RpcTable, RuntimeArg, RuntimeParams};
use crate::server::{served, ServerAction, ServerState};
use vstd::prelude::*;

verus! {

/// The goals that an authority serves differ from one another.
pub proof fn lemma_server_goals()
    ensures
        "sync"@ != "get_sync_players"@,
        "sync"@ != "add_player"@,
        "sync"@ != "object_pos_update"@,
        "sync"@ != "rpc_call"@,
        "get_sync_players"@ != "add_player"@,
        "get_sync_players"@ != "object_pos_update"@,
        "get_sync_players"@ != "rpc_call"@,
        "add_player"@ != "object_pos_update"@,
        "add_player"@ != "rpc_call"@,
        "object_pos_update"@ != "rpc_call"@,
{
    reveal_strlit("sync");
    reveal_strlit("get_sync_players");
    reveal_strlit("add_player");
    reveal_strlit("object_pos_update");
    reveal_strlit("rpc_call");
    assert("sync"@.len() == 4);
    assert("get_sync_players"@.len() == 16);
    assert("add_player"@.len() == 10);
    assert("object_pos_update"@.len() == 17);
    assert("rpc_call"@.len() == 8);
}

/// The goals that a peer takes in differ from one another.
pub proof fn lemma_client_goals()
    ensures
        "confirm connect"@ != "ret_sync_players"@,
        "confirm connect"@ != "ret_player_obj_id"@,
        "confirm connect"@ != "add_player"@,
        "confirm connect"@ != "motion_update_broadcast"@,
        "confirm connect"@ != "rpc_call"@,
        "ret_sync_players"@ != "ret_player_obj_id"@,
        "ret_sync_players"@ != "add_player"@,
        "ret_sync_players"@ != "motion_update_broadcast"@,
        "ret_sync_players"@ != "rpc_call"@,
        "ret_player_obj_id"@ != "add_player"@,
        "ret_player_obj_id"@ != "motion_update_broadcast"@,
        "ret_player_obj_id"@ != "rpc_call"@,
        "add_player"@ != "motion_update_broadcast"@,
        "add_player"@ != "rpc_call"@,
        "motion_update_broadcast"@ != "rpc_call"@,
{
    reveal_strlit("confirm connect");
    reveal_strlit("ret_sync_players");
    reveal_strlit("ret_player_obj_id");
    reveal_strlit("add_player");
    reveal_strlit("motion_update_broadcast");
    reveal_strlit("rpc_call");
    assert("confirm connect"@.len() == 15);
    assert("ret_sync_players"@.len() == 16);
    assert("ret_player_obj_id"@.len() == 17);
    assert("add_player"@.len() == 10);
    assert("motion_update_broadcast"@.len() == 23);
    assert("rpc_call"@.len() == 8);
}

/// An entity id that the authority hands out is not in the entity map, and
/// asking twice without creating an entity gives the same id: the smallest
/// positive id that is free, so that none is skipped.
pub proof fn lemma_allocation_is_fresh(entities: Map<i32, DataWrapper>)
    ensures
        match first_free(entities.dom()) {
            Some(id) => id >= 1 && !entities.contains_key(id) && forall|k: i32|
                1 <= k < id ==> entities.contains_key(k),
            None => forall|k: i32| 1 <= k ==> entities.contains_key(k),
        },
{
    lemma_first_free_fresh(entities.dom());
}

/// After the authority has created an entity from a snapshot for an owner,
/// its entity map holds that snapshot, stamped with the owner and with the
/// id that was returned as its object id, under that id, which is new; every
/// other entity is as it was.
pub proof fn lemma_added_entity_is_synced(
    pre: Map<i32, DataWrapper>,
    post: Map<i32, DataWrapper>,
    snapshot: DataWrapper,
    owner_id: i32,
    id: i32,
)
    requires
        first_free(pre.dom()) == Some(id),
        post == pre.insert(id, DataWrapper { owner_id, object_id: id, ..snapshot }),
    ensures
        !pre.contains_key(id),
        post.contains_key(id),
        post[id] == (DataWrapper { owner_id, object_id: id, ..snapshot }),
        post[id].owner_id == owner_id,
        post[id].object_id == id,
        forall|k: i32| k != id ==> post.contains_key(k) == pre.contains_key(k),
        forall|k: i32| k != id && pre.contains_key(k) ==> post[k] == pre[k],
{
    lemma_first_free_fresh(pre.dom());
}

/// A motion broadcast for an object id that the peer does not mirror leaves
/// the peer as it was and is refused, once, as an unknown object.
pub proof fn lemma_unknown_motion_is_dropped<C: RpcCallable>(
    pre: ClientState,
    post: ClientState,
    items: Seq<(Seq<char>, Value)>,
    table: &RpcTable<C>,
    r: Result<(), ProtocolError>,
    object_id: i32,
)
    requires
        taken_in(pre, post, items, table, r),
        lookup(items, "goal"@) == Some(Value::Text("motion_update_broadcast"@)),
        lookup(items, "object_id"@) == Some(Value::Int(object_id)),
        !pre.replica.contains_key(object_id),
    ensures
        post == pre,
        r == Err::<(), ProtocolError>(ProtocolError::UnknownObject(object_id)),
{
    lemma_client_goals();
}

/// A remote call that names a function that is not registered changes
/// nothing at a peer and is refused.
pub proof fn lemma_unknown_function_at_peer<C: RpcCallable>(
    pre: ClientState,
    post: ClientState,
    items: Seq<(Seq<char>, Value)>,
    table: &RpcTable<C>,
    r: Result<(), ProtocolError>,
    name: Seq<char>,
    params: Seq<Value>,
)
    requires
        taken_in(pre, post, items, table, r),
        lookup(items, "goal"@) == Some(Value::Text("rpc_call"@)),
        lookup(items, "rpc_data"@) == Some(Value::Rpc(name, params)),
        table.lookup(name) is None,
    ensures
        post == pre,
        r == Err::<(), ProtocolError>(ProtocolError::UnknownFunction),
{
    lemma_client_goals();
}

/// A remote call that names a function that is not registered changes
/// nothing at the authority and is refused: nothing is answered.
pub proof fn lemma_unknown_function_at_authority<C: RpcCallable>(
    pre: ServerState,
    post: ServerState,
    items: Seq<(Seq<char>, Value)>,
    addr: PeerAddr,
    table: &RpcTable<C>,
    r: Result<ServerAction, ProtocolError>,
    name: Seq<char>,
    params: Seq<Value>,
)
    requires
        served(pre, post, items, addr, table, r),
        lookup(items, "goal"@) == Some(Value::Text("rpc_call"@)),
        lookup(items, "rpc_data"@) == Some(Value::Rpc(name, params)),
        table.lookup(name) is None,
    ensures
        post == pre,
        r == Err::<ServerAction, ProtocolError>(ProtocolError::UnknownFunction),
{
    lemma_server_goals();
}

/// A call of a function that needs an entity, whose first parameter is the
/// id of a live entity, is carried out: the function gets that entity and
/// the parameters without the first, and no other entity changes.
pub proof fn lemma_entity_parameter_is_removed<C: RpcCallable>(
    table: &RpcTable<C>,
    name: Seq<char>,
    params: Seq<Value>,
    before: Map<i32, Player>,
    after: Map<i32, Player>,
    id: i32,
)
    requires
        table.lookup(name) matches Some(c) && c.needs() == RuntimeParams::Player,
        params.len() > 0,
        params[0] == Value::Int(id),
        before.contains_key(id),
        dispatched(table.lookup(name)->0, params, before, after),
    ensures
        dispatch_verdict(table, name, params, before) == Ok::<(), ProtocolError>(()),
        table.lookup(name)->0.effect(
            params.skip(1),
            seq![RuntimeArg::Player(before[id])],
            seq![RuntimeArg::Player(after[id])],
        ),
        params.skip(1).len() == params.len() - 1,
        forall|k: i32| k != id ==> after.contains_key(k) == before.contains_key(k),
        forall|k: i32| k != id && before.contains_key(k) ==> after[k] == before[k],
{
}

/// A request that the authority refuses leaves the authority as it was: a
/// faulty message corrupts nothing.
pub proof fn lemma_refused_request_changes_nothing<C: RpcCallable>(
    pre: ServerState,
    post: ServerState,
    items: Seq<(Seq<char>, Value)>,
    addr: PeerAddr,
    table: &RpcTable<C>,
    r: Result<ServerAction, ProtocolError>,
)
    requires
        served(pre, post, items, addr, table, r),
        r is Err,
    ensures
        post == pre,
{
}

/// A message that a peer refuses leaves the peer as it was.
pub proof fn lemma_refused_message_changes_nothing<C: RpcCallable>(
    pre: ClientState,
    post: ClientState,
    items: Seq<(Seq<char>, Value)>,
    table: &RpcTable<C>,
    r: Result<(), ProtocolError>,
)
    requires
        taken_in(pre, post, items, table, r),
        r is Err,
    ensures
        post == pre,
{
}

/// Whatever the authority serves, no peer leaves the registry and none
/// changes its address, no entity leaves the entity map, and no entity
/// changes its owner.
pub proof fn lemma_authority_forgets_nothing<C: RpcCallable>(
    pre: ServerState,
    post: ServerState,
    items: Seq<(Seq<char>, Value)>,
    addr: PeerAddr,
    table: &RpcTable<C>,
    r: Result<ServerAction, ProtocolError>,
)
    requires
        served(pre, post, items, addr, table, r),
    ensures
        forall|id: i32|
            pre.registry.contains_key(id) ==> post.registry.contains_key(id) && post.registry[id]
                == pre.registry[id],
        forall|id: i32|
            pre.entities.contains_key(id) ==> post.entities.contains_key(id)
                && post.entities[id].owner_id == pre.entities[id].owner_id,
{
    lemma_first_free_fresh(pre.registry.dom());
    lemma_first_free_fresh(pre.entities.dom());
}

/// An authority that has just been made holds no entity, so that every
/// snapshot it holds has its key as its object id.
pub proof fn lemma_no_entity_is_keyed()
    ensures
        keyed(Map::<i32, DataWrapper>::empty()),
{
}

/// An entity that the authority creates is stored with its key as its
/// object id: where every snapshot had its key as its object id before, every
/// snapshot has after, and no two snapshots have one object id.
pub proof fn lemma_created_entity_is_keyed(
    pre: Map<i32, DataWrapper>,
    snapshot: DataWrapper,
    owner_id: i32,
    id: i32,
)
    requires
        keyed(pre),
    ensures
        keyed(pre.insert(id, DataWrapper { owner_id, object_id: id, ..snapshot })),
{
}

/// Whatever the authority serves, every snapshot in its entity map goes on
/// having its key as its object id.
pub proof fn lemma_authority_keeps_object_ids<C: RpcCallable>(
    pre: ServerState,
    post: ServerState,
    items: Seq<(Seq<char>, Value)>,
    addr: PeerAddr,
    table: &RpcTable<C>,
    r: Result<ServerAction, ProtocolError>,
)
    requires
        served(pre, post, items, addr, table, r),
        keyed(pre.entities),
    ensures
        keyed(post.entities),
{
    lemma_first_free_fresh(pre.entities.dom());
}

/// Object ids are unique in an entity map whose snapshots have their keys as
/// their object ids.
pub proof fn lemma_object_ids_are_unique(entities: Map<i32, DataWrapper>, i: i32, j: i32)
    requires
        keyed(entities),
        entities.contains_key(i),
        entities.contains_key(j),
        i != j,
    ensures
        entities[i].object_id != entities[j].object_id,
{
}

/// Whatever a peer takes in, every snapshot in its mirror goes on having its
/// key as its object id, so long as the entity maps that the authority sends
/// are such.
pub proof fn lemma_peer_keeps_object_ids<C: RpcCallable>(
    pre: ClientState,
    post: ClientState,
    items: Seq<(Seq<char>, Value)>,
    table: &RpcTable<C>,
    r: Result<(), ProtocolError>,
)
    requires
        taken_in(pre, post, items, table, r),
        keyed(pre.replica),
        lookup(items, "players"@) matches Some(Value::EntityMap(players)) ==> keyed(players),
    ensures
        keyed(post.replica),
{
}

/// The creation of an entity through the game handle, on either side, keeps
/// every snapshot's key as its object id.
pub proof fn lemma_handle_keeps_object_ids(
    pre: RoleState,
    post: RoleState,
    personal_id: i32,
    player: Player,
    attempts: u32,
    step: AddPlayer,
)
    requires
        added_player(pre, post, personal_id, player, attempts, step),
        match pre {
            RoleState::Authority(s) => keyed(s.entities),
            RoleState::Peer(c) => keyed(c.replica),
        },
    ensures
        match post {
            RoleState::Authority(s) => keyed(s.entities),
            RoleState::Peer(c) => keyed(c.replica),
        },
{
}

/// Where every mirrored snapshot has its key as its object id, adopting the
/// mirror puts under each mirrored id the live entity made from the snapshot
/// under that id, and leaves every other live entity as it was.
pub proof fn lemma_adopted_by_id(
    replica: Map<i32, DataWrapper>,
    before: Map<i32, Player>,
    after: Map<i32, Player>,
)
    requires
        keyed(replica),
        adopted(replica, before, after),
    ensures
        forall|id: i32|
            replica.contains_key(id) ==> after.contains_key(id) && after[id] == Player::fresh(
                replica[id],
            ),
        forall|id: i32|
            !replica.contains_key(id) ==> after.contains_key(id) == before.contains_key(id),
        forall|id: i32| !replica.contains_key(id) && before.contains_key(id) ==> after[id] == before[id],
{
    assert forall|id: i32| replica.contains_key(id) <==> mirrors(replica, id) by {
        if replica.contains_key(id) {
            assert(replica[id].object_id == id);
        }
        if mirrors(replica, id) {
            let k = choose|k: i32| replica.contains_key(k) && (#[trigger] replica[k]).object_id == id;
            assert(k == id);
        }
    }
    assert forall|id: i32| replica.contains_key(id) implies after.contains_key(id) && after[id]
        == Player::fresh(replica[id]) by {
        assert(mirrors(replica, id));
        let k = choose|k: i32|
            replica.contains_key(k) && (#[trigger] replica[k]).object_id == id && after[id]
                == Player::fresh(replica[k]);
        assert(k == id);
    }
}

} // verus!
