use crate::address::PeerAddr;
use crate::catalogue::{
    add_player_request, confirm_connect, goal_and, goal_and_two, motion_update_broadcast,
    ret_player_obj_id, ret_sync_players,
};
use crate::ids::{first_free, smallest_unused};
use crate::message::{
    lookup, FieldError, FieldMap, Message, MessageError, MotionDataContainer, RpcCallContainer,
    Value,
};
use crate::player::{DataWrapper, Player};
use crate::protocol::{goal_of, live_moved, motion_verdict, ProtocolError};
use crate::transport::{frame, is_datagram, Dropped};
use crate::rpc_funcs::{dispatch_rpc, dispatch_verdict, dispatched, RpcCallable, RpcTable};
use crate::text::str_eq;
use crate::wire::{decode, map_keys, message_size, parse_message, MAX_DATAGRAM};
use std::collections::HashMap;
use vstd::prelude::*;

verus! {

broadcast use vstd::std_specs::hash::group_hash_axioms;

/// What the authority holds, as mathematical values.
pub struct ServerState {
    /// The reply address of each registered peer, by client id.
    pub registry: Map<i32, PeerAddr>,
    /// The authoritative snapshot of each entity, by entity id.
    pub entities: Map<i32, DataWrapper>,
    /// The live entities that the simulation and remote calls act on.
    pub live: Map<i32, Player>,
}

/// The authority: the peer registry, the authoritative entity map and the
/// live entities.
pub struct Server {
    user_map: HashMap<i32, PeerAddr>,
    synced_players: HashMap<i32, DataWrapper>,
    player_map: HashMap<i32, Player>,
}

impl View for Server {
    type V = ServerState;

    closed spec fn view(&self) -> ServerState {
        ServerState {
            registry: self.user_map@,
            entities: self.synced_players@,
            live: self.player_map@,
        }
    }
}

/// Whether `id` is the smallest client id registered under `addr`.
pub open spec fn is_peer_id(registry: Map<i32, PeerAddr>, addr: PeerAddr, id: i32) -> bool {
    &&& registry.contains_key(id)
    &&& registry[id] == addr
    &&& forall|k: i32| registry.contains_key(k) && registry[k] == addr ==> id <= k
}

/// The smallest client id registered under `addr`, if any.
pub open spec fn peer_id(registry: Map<i32, PeerAddr>, addr: PeerAddr) -> Option<i32> {
    if exists|id: i32| is_peer_id(registry, addr, id) {
        Some(choose|id: i32| is_peer_id(registry, addr, id))
    } else {
        None
    }
}

/// There is one smallest client id under an address at most.
pub proof fn lemma_peer_id_is(registry: Map<i32, PeerAddr>, addr: PeerAddr, id: i32)
    requires
        is_peer_id(registry, addr, id),
    ensures
        peer_id(registry, addr) == Some(id),
{
    let other = choose|id: i32| is_peer_id(registry, addr, id);
    assert(id <= other && other <= id);
}

impl Server {
    /// An authority with no peer and no entity.
    pub fn new() -> (server: Server)
        ensures
            server@.registry == Map::<i32, PeerAddr>::empty(),
            server@.entities == Map::<i32, DataWrapper>::empty(),
            server@.live == Map::<i32, Player>::empty(),
    {
        Server {
            user_map: HashMap::new(),
            synced_players: HashMap::new(),
            player_map: HashMap::new(),
        }
    }

    /// Registers the authority's own in-process client under the reserved
    /// id -1.
    pub fn start(&mut self)
        ensures
            final(self)@ == (ServerState {
                registry: old(self)@.registry.insert(-1i32, PeerAddr::local_authority()),
                ..old(self)@
            }),
    {
        self.user_map.insert(-1, PeerAddr::loopback_authority());
    }

    /// The smallest positive client id that no peer has.
    pub fn gen_new_id(&self) -> (id: Option<i32>)
        ensures
            id == first_free(self@.registry.dom()),
    {
        smallest_unused(&self.user_map)
    }

    /// The smallest positive entity id that no entity has.
    pub fn gen_new_player_id(&self) -> (id: Option<i32>)
        ensures
            id == first_free(self@.entities.dom()),
    {
        smallest_unused(&self.synced_players)
    }

    pub fn id_to_socket(&self, id: i32) -> (addr: Option<PeerAddr>)
        ensures
            addr == if self@.registry.contains_key(id) {
                Some(self@.registry[id])
            } else {
                None
            },
    {
        match self.user_map.get(&id) {
            Some(addr) => Some(*addr),
            None => None,
        }
    }

    /// The client id of the peer at `socket`: the smallest, where the peer
    /// is registered more than once.
    pub fn socket_to_id(&self, socket: PeerAddr) -> (id: Option<i32>)
        ensures
            id == peer_id(self@.registry, socket),
    {
        let keys = map_keys(&self.user_map);
        let mut found: Option<i32> = None;
        let mut i: usize = 0;
        while i < keys.len()
            invariant
                i <= keys@.len(),
                keys@.to_set() == self.user_map@.dom(),
                match found {
                    Some(id) => self.user_map@.contains_key(id) && self.user_map@[id] == socket
                        && forall|j: int|
                        0 <= j < i && self.user_map@[keys@[j]] == socket ==> id <= keys@[j],
                    None => forall|j: int| 0 <= j < i ==> self.user_map@[keys@[j]] != socket,
                },
            decreases keys@.len() - i,
        {
            let key = keys[i];
            assert(keys@.to_set().contains(key));
            match self.user_map.get(&key) {
                Some(addr) => {
                    if *addr == socket {
                        found = match found {
                            Some(id) => if key < id {
                                Some(key)
                            } else {
                                Some(id)
                            },
                            None => Some(key),
                        };
                    }
                },
                None => {},
            }
            i += 1;
        }
        proof {
            let registry = self.user_map@;
            assert forall|k: i32| registry.contains_key(k) implies exists|j: int|
                0 <= j < keys@.len() && keys@[j] == k by {
                assert(keys@.to_set().contains(k));
            }
            match found {
                Some(id) => {
                    assert forall|k: i32|
                        registry.contains_key(k) && registry[k] == socket implies id <= k by {
                        let j = choose|j: int| 0 <= j < keys@.len() && keys@[j] == k;
                    }
                    lemma_peer_id_is(registry, socket, id);
                },
                None => {
                    if exists|id: i32| is_peer_id(registry, socket, id) {
                        let id = choose|id: i32| is_peer_id(registry, socket, id);
                        let j = choose|j: int| 0 <= j < keys@.len() && keys@[j] == id;
                    }
                },
            }
        }
        found
    }

    /// A copy of the authoritative entity map as it stands.
    pub fn get_synced_players(&self) -> (players: HashMap<i32, DataWrapper>)
        ensures
            players@ == self@.entities,
    {
        self.synced_players.clone()
    }

    pub fn get_user_map(&self) -> (registry: &HashMap<i32, PeerAddr>)
        ensures
            registry@ == self@.registry,
    {
        &self.user_map
    }

    /// A copy of the live entities as they stand.
    pub fn get_players(&self) -> (players: HashMap<i32, Player>)
        ensures
            players@ == self@.live,
    {
        self.player_map.clone()
    }
}

/// What the authority has to send after a request.
pub enum ServerAction {
    /// Nothing.
    Nothing,
    /// These fields, to the peer that sent the request.
    Reply(FieldMap),
    /// These fields, to each of these peers.
    Relay { targets: Vec<(i32, PeerAddr)>, message: FieldMap },
    /// An answer to the peer that sent the request, and a message to each of
    /// these peers.
    ReplyAndRelay { reply: FieldMap, targets: Vec<(i32, PeerAddr)>, message: FieldMap },
}

/// Whether a relay goes to a peer at `addr`: not to the authority's own
/// in-process client, and not back to the peer that sent what is relayed,
/// which is the peer that is answered at the sender's host.
pub open spec fn relays_to(addr: PeerAddr, sender: Option<PeerAddr>) -> bool {
    addr != PeerAddr::local_authority() && match sender {
        Some(s) => addr != s.reply_of(),
        None => true,
    }
}

/// Whether `targets` names the peers that a relay goes to: each registered
/// client id whose address the relay goes to, once, with its address.
pub open spec fn is_relay_list(
    registry: Map<i32, PeerAddr>,
    sender: Option<PeerAddr>,
    targets: Seq<(i32, PeerAddr)>,
) -> bool {
    &&& forall|i: int|
        0 <= i < targets.len() ==> registry.contains_key((#[trigger] targets[i]).0)
            && registry[targets[i].0] == targets[i].1 && relays_to(targets[i].1, sender)
    &&& forall|i: int, j: int|
        0 <= i < j < targets.len() ==> (#[trigger] targets[i]).0 != (#[trigger] targets[j]).0
    &&& forall|id: i32|
        registry.contains_key(id) && relays_to(registry[id], sender) ==> exists|i: int|
            0 <= i < targets.len() && (#[trigger] targets[i]).0 == id
}

/// What a request that was served has to be answered with.
pub open spec fn replies(
    r: Result<ServerAction, ProtocolError>,
    expected: Result<Seq<(Seq<char>, Value)>, ProtocolError>,
) -> bool {
    match expected {
        Ok(items) => r matches Ok(ServerAction::Reply(m)) && m.items() == items,
        Err(e) => r == Err::<ServerAction, ProtocolError>(e),
    }
}

/// The authority after `sync` from a peer at `addr`: the peer is registered,
/// with the port that peers listen on, under the smallest free client id.
pub open spec fn after_sync(pre: ServerState, addr: PeerAddr) -> ServerState {
    match first_free(pre.registry.dom()) {
        Some(id) => ServerState {
            registry: pre.registry.insert(id, addr.reply_of()),
            ..pre
        },
        None => pre,
    }
}

/// The answer to `sync`: the client id that was assigned.
pub open spec fn sync_reply(pre: ServerState) -> Result<Seq<(Seq<char>, Value)>, ProtocolError> {
    match first_free(pre.registry.dom()) {
        Some(id) => Ok(goal_and("confirm connect"@, "id"@, Value::Int(id))),
        None => Err(ProtocolError::IdsExhausted),
    }
}

/// The entity id that `add_player` with this `player` field, from a peer at
/// `addr`, creates an entity under; nothing where it creates none or is
/// refused.
pub open spec fn created_id(pre: ServerState, player: Option<Value>, addr: PeerAddr) -> Option<
    i32,
> {
    match player {
        Some(Value::Entity(w)) => if peer_id(pre.registry, addr) is Some
            && !pre.entities.contains_key(w.object_id) {
            first_free(pre.entities.dom())
        } else {
            None
        },
        _ => None,
    }
}

/// The authority after `add_player`: where an entity is created, its
/// snapshot, stamped with the client id of the sender as its owner and with
/// the new id as its object id, is in the entity map and among the live
/// entities under the new id.
pub open spec fn after_add_player(pre: ServerState, player: Option<Value>, addr: PeerAddr)
    -> ServerState {
    match created_id(pre, player, addr) {
        Some(id) => {
            let w = DataWrapper {
                owner_id: peer_id(pre.registry, addr)->0,
                object_id: id,
                ..player->0->Entity_0
            };
            ServerState {
                entities: pre.entities.insert(id, w),
                live: pre.live.insert(id, Player::fresh(w)),
                ..pre
            }
        },
        None => pre,
    }
}

/// The snapshot under which the entity `id` is announced to the peers: the
/// entity's snapshot, with `id` as its object id, under which a peer mirrors
/// it.
pub open spec fn announcement(entities: Map<i32, DataWrapper>, id: i32) -> DataWrapper {
    DataWrapper { object_id: id, ..entities[id] }
}

/// Whether `r` is what the creation of the entity `id` for the peer at
/// `addr` is answered with: the id to that peer, and the new entity to every
/// other peer.
pub open spec fn announced(
    pre: ServerState,
    post: ServerState,
    addr: PeerAddr,
    id: i32,
    r: Result<ServerAction, ProtocolError>,
) -> bool {
    &&& r matches Ok(ServerAction::ReplyAndRelay { reply, targets, message })
    &&& reply.items() == goal_and("ret_player_obj_id"@, "id"@, Value::Int(id))
    &&& is_relay_list(pre.registry, Some(addr), targets@)
    &&& message.items() == goal_and(
        "add_player"@,
        "player"@,
        Value::Entity(announcement(post.entities, id)),
    )
}

/// What `add_player` is answered with. A request without a snapshot is
/// refused. A request from an address that is not registered, or for a
/// snapshot whose object id is an entity already, is passed over in silence.
pub open spec fn add_player_verdict(pre: ServerState, player: Option<Value>, addr: PeerAddr)
    -> Result<Option<i32>, ProtocolError> {
    match player {
        None => Err(ProtocolError::MissingPlayer),
        Some(Value::Entity(w)) => if peer_id(pre.registry, addr) is Some
            && !pre.entities.contains_key(w.object_id) {
            match first_free(pre.entities.dom()) {
                Some(id) => Ok(Some(id)),
                None => Err(ProtocolError::IdsExhausted),
            }
        } else {
            Ok(None)
        },
        Some(_) => Err(ProtocolError::InvalidPlayer),
    }
}

/// The authority after a motion report that is applied: the entity's
/// snapshot and the live entity have moved.
pub open spec fn after_motion(pre: ServerState, id: i32, m: MotionDataContainer) -> ServerState {
    ServerState {
        entities: pre.entities.insert(id, pre.entities[id].with_motion(m)),
        live: live_moved(pre.live, id, m),
        ..pre
    }
}

impl Server {
    /// Creates an entity: the snapshot of `player`, stamped with `owner_id`
    /// as its owner and with the smallest free entity id as its object id,
    /// goes into the entity map under that id, which is returned. Where
    /// every id is taken nothing changes.
    pub fn add_player(&mut self, player: Player, owner_id: i32) -> (id: Option<i32>)
        ensures
            id == first_free(old(self)@.entities.dom()),
            match id {
                Some(new_id) => final(self)@ == (ServerState {
                    entities: old(self)@.entities.insert(
                        new_id,
                        DataWrapper { owner_id, object_id: new_id, ..player.wrapper },
                    ),
                    ..old(self)@
                }),
                None => final(self)@ == old(self)@,
            },
    {
        match self.gen_new_player_id() {
            Some(new_id) => {
                let mut wrapper = player.wrapper;
                wrapper.owner_id = owner_id;
                wrapper.object_id = new_id;
                self.synced_players.insert(new_id, wrapper);
                Some(new_id)
            },
            None => None,
        }
    }

    /// Puts a live entity among the authority's live entities under `id`.
    pub fn insert_player(&mut self, id: i32, player: Player)
        ensures
            final(self)@ == (ServerState {
                live: old(self)@.live.insert(id, player),
                ..old(self)@
            }),
    {
        self.player_map.insert(id, player);
    }

    /// The peers that a relay goes to: every registered peer but the
    /// authority's own in-process client and the peer that sent what is
    /// relayed.
    pub fn relay_targets(&self, sender: Option<PeerAddr>) -> (targets: Vec<(i32, PeerAddr)>)
        ensures
            is_relay_list(self@.registry, sender, targets@),
    {
        let keys = map_keys(&self.user_map);
        let mut targets: Vec<(i32, PeerAddr)> = Vec::new();
        let mut i: usize = 0;
        while i < keys.len()
            invariant
                i <= keys@.len(),
                keys@.no_duplicates(),
                keys@.to_set() == self.user_map@.dom(),
                forall|t: int|
                    0 <= t < targets@.len() ==> self.user_map@.contains_key(
                        (#[trigger] targets@[t]).0,
                    ) && self.user_map@[targets@[t].0] == targets@[t].1 && relays_to(
                        targets@[t].1,
                        sender,
                    ),
                forall|t: int|
                    0 <= t < targets@.len() ==> exists|j: int|
                        0 <= j < i && keys@[j] == (#[trigger] targets@[t]).0,
                forall|s: int, t: int|
                    0 <= s < t < targets@.len() ==> (#[trigger] targets@[s]).0 != (
                    #[trigger] targets@[t]).0,
                forall|j: int|
                    0 <= j < i && relays_to(self.user_map@[keys@[j]], sender) ==> exists|t: int|
                        0 <= t < targets@.len() && (#[trigger] targets@[t]).0 == keys@[j],
            decreases keys@.len() - i,
        {
            let key = keys[i];
            assert(keys@.to_set().contains(key));
            let ghost before = targets@;
            match self.user_map.get(&key) {
                Some(addr) => {
                    let skip = addr.is_local_authority() || match sender {
                        Some(s) => s.reply_address() == *addr,
                        None => false,
                    };
                    if !skip {
                        targets.push((key, *addr));
                        proof {
                            let last = targets@.len() - 1;
                            assert(targets@[last].0 == key);
                            assert forall|t: int| 0 <= t < targets@.len() implies exists|j: int|
                                0 <= j < i + 1 && keys@[j] == (#[trigger] targets@[t]).0 by {
                                if t < last {
                                    assert(targets@[t] == before[t]);
                                    let j = choose|j: int|
                                        0 <= j < i && keys@[j] == before[t].0;
                                    assert(keys@[j] == targets@[t].0);
                                } else {
                                    assert(keys@[i as int] == targets@[t].0);
                                }
                            }
                            assert forall|s: int, t: int|
                                0 <= s < t < targets@.len() implies (#[trigger] targets@[s]).0
                                != (#[trigger] targets@[t]).0 by {
                                if t == last {
                                    assert(targets@[s] == before[s]);
                                    let j = choose|j: int|
                                        0 <= j < i && keys@[j] == before[s].0;
                                    assert(keys@[j] != keys@[i as int]);
                                } else {
                                    assert(targets@[s] == before[s]);
                                    assert(targets@[t] == before[t]);
                                }
                            }
                            assert forall|j: int|
                                0 <= j < i + 1 && relays_to(
                                    self.user_map@[keys@[j]],
                                    sender,
                                ) implies exists|t: int|
                                0 <= t < targets@.len() && (#[trigger] targets@[t]).0
                                    == keys@[j] by {
                                if j < i {
                                    let t = choose|t: int|
                                        0 <= t < before.len() && (#[trigger] before[t]).0
                                            == keys@[j];
                                    assert(targets@[t] == before[t]);
                                } else {
                                    assert(targets@[last].0 == keys@[j]);
                                }
                            }
                        }
                    }
                },
                None => {},
            }
            i += 1;
        }
        proof {
            let registry = self.user_map@;
            assert forall|id: i32|
                registry.contains_key(id) && relays_to(registry[id], sender) implies exists|
                t: int,
            |
                0 <= t < targets@.len() && (#[trigger] targets@[t]).0 == id by {
                assert(keys@.to_set().contains(id));
                let j = choose|j: int| 0 <= j < keys@.len() && keys@[j] == id;
                assert(relays_to(registry[keys@[j]], sender));
            }
        }
        targets
    }

    /// The announcement of the entity `id` to the peers in `target_vector`;
    /// nothing where there is no such entity.
    pub fn send_add_player(&self, target_vector: Vec<(i32, PeerAddr)>, id: i32) -> (action:
        ServerAction)
        ensures
            match action {
                ServerAction::Relay { targets, message } => self@.entities.contains_key(id)
                    && targets@ == target_vector@ && message.items() == goal_and(
                    "add_player"@,
                    "player"@,
                    Value::Entity(announcement(self@.entities, id)),
                ),
                ServerAction::Nothing => !self@.entities.contains_key(id),
                _ => false,
            },
    {
        match self.synced_players.get(&id) {
            Some(w) => {
                let mut pushed = *w;
                pushed.object_id = id;
                ServerAction::Relay {
                    targets: target_vector,
                    message: add_player_request(pushed),
                }
            },
            None => ServerAction::Nothing,
        }
    }

    /// The relay of a remote call: the message and the peers it goes to.
    pub fn send_rpc(&self, target_vector: Vec<(i32, PeerAddr)>, call: RpcCallContainer) -> (action:
        ServerAction)
        ensures
            action matches ServerAction::Relay { targets, message } && targets@ == target_vector@
                && message.items() == goal_and("rpc_call"@, "rpc_data"@, Value::Rpc(call@.0, call@.1)),
    {
        ServerAction::Relay { targets: target_vector, message: crate::catalogue::rpc_call(call) }
    }

    /// The relay of a motion sample: the message and the peers it goes to.
    pub fn send_motion_update(
        &self,
        target_vector: Vec<(i32, PeerAddr)>,
        object_id: i32,
        motion_data: MotionDataContainer,
    ) -> (action: ServerAction)
        ensures
            action matches ServerAction::Relay { targets, message } && targets@ == target_vector@
                && message.items() == goal_and_two(
                "motion_update_broadcast"@,
                "object_id"@,
                Value::Int(object_id),
                "motion_data"@,
                Value::Motion(motion_data),
            ),
    {
        ServerAction::Relay {
            targets: target_vector,
            message: motion_update_broadcast(object_id, motion_data),
        }
    }
}

/// Whether the authority served `motion`, a motion report of the peer at
/// `addr` that was admitted: the entity has moved, and the sample is relayed
/// to every other peer.
pub open spec fn served_motion(
    pre: ServerState,
    post: ServerState,
    addr: PeerAddr,
    motion: (i32, MotionDataContainer),
    r: Result<ServerAction, ProtocolError>,
) -> bool {
    &&& post == after_motion(pre, motion.0, motion.1)
    &&& r matches Ok(ServerAction::Relay { targets, message })
    &&& is_relay_list(pre.registry, Some(addr), targets@)
    &&& message.items() == goal_and_two(
        "motion_update_broadcast"@,
        "object_id"@,
        Value::Int(motion.0),
        "motion_data"@,
        Value::Motion(motion.1),
    )
}

/// Whether the authority served a remote call that was admitted: the live
/// entities are as the function left them, and nothing is sent.
pub open spec fn served_rpc<C: RpcCallable>(
    pre: ServerState,
    post: ServerState,
    table: &RpcTable<C>,
    name: Seq<char>,
    params: Seq<Value>,
    r: Result<ServerAction, ProtocolError>,
) -> bool {
    &&& post.registry == pre.registry
    &&& post.entities == pre.entities
    &&& r == Ok::<ServerAction, ProtocolError>(ServerAction::Nothing)
    &&& dispatched(table.lookup(name)->0, params, pre.live, post.live)
}

/// Whether the authority, from `pre`, served a message with the fields
/// `items` from the peer at `addr` with the outcome `r` and was left as
/// `post`.
///
/// A message is served by its goal. A request that is refused leaves the
/// authority as it was.
pub open spec fn served<C: RpcCallable>(
    pre: ServerState,
    post: ServerState,
    items: Seq<(Seq<char>, Value)>,
    addr: PeerAddr,
    table: &RpcTable<C>,
    r: Result<ServerAction, ProtocolError>,
) -> bool {
    match goal_of(items) {
        Err(e) => post == pre && r == Err::<ServerAction, ProtocolError>(e),
        Ok(goal) => if goal == "sync"@ {
            post == after_sync(pre, addr) && replies(r, sync_reply(pre))
        } else if goal == "get_sync_players"@ {
            post == pre && replies(
                r,
                Ok(goal_and("ret_sync_players"@, "players"@, Value::EntityMap(pre.entities))),
            )
        } else if goal == "add_player"@ {
            let player = lookup(items, "player"@);
            &&& post == after_add_player(pre, player, addr)
            &&& match add_player_verdict(pre, player, addr) {
                Ok(Some(id)) => announced(pre, post, addr, id, r),
                Ok(None) => r == Ok::<ServerAction, ProtocolError>(ServerAction::Nothing),
                Err(e) => r == Err::<ServerAction, ProtocolError>(e),
            }
        } else if goal == "object_pos_update"@ {
            match motion_verdict(
                pre.entities.dom(),
                lookup(items, "object_id"@),
                lookup(items, "motion_data"@),
            ) {
                Ok(motion) => served_motion(pre, post, addr, motion, r),
                Err(e) => post == pre && r == Err::<ServerAction, ProtocolError>(e),
            }
        } else if goal == "rpc_call"@ {
            match lookup(items, "rpc_data"@) {
                Some(Value::Rpc(name, params)) => match dispatch_verdict(
                    table,
                    name,
                    params,
                    pre.live,
                ) {
                    Ok(_) => served_rpc(pre, post, table, name, params, r),
                    Err(e) => post == pre && r == Err::<ServerAction, ProtocolError>(e),
                },
                _ => post == pre && r == Err::<ServerAction, ProtocolError>(
                    ProtocolError::InvalidRpcData,
                ),
            }
        } else {
            post == pre && r == Err::<ServerAction, ProtocolError>(ProtocolError::UnknownGoal)
        },
    }
}

impl Server {
    /// Serves `sync`: registers the peer and answers with its client id.
    pub fn handle_sync(&mut self, client_address: PeerAddr) -> (r: Result<
        ServerAction,
        ProtocolError,
    >)
        ensures
            final(self)@ == after_sync(old(self)@, client_address),
            replies(r, sync_reply(old(self)@)),
    {
        match self.gen_new_id() {
            Some(new_id) => {
                self.user_map.insert(new_id, client_address.reply_address());
                Ok(ServerAction::Reply(confirm_connect(new_id)))
            },
            None => Err(ProtocolError::IdsExhausted),
        }
    }

    /// Serves `get_sync_players`: answers with the whole entity map.
    pub fn handle_get_sync_players(&self) -> (r: Result<ServerAction, ProtocolError>)
        ensures
            replies(
                r,
                Ok(goal_and("ret_sync_players"@, "players"@, Value::EntityMap(self@.entities))),
            ),
    {
        Ok(ServerAction::Reply(ret_sync_players(self.get_synced_players())))
    }

    /// Serves `add_player`: creates the entity for the peer that asks and
    /// answers with its id.
    pub fn handle_add_player(&mut self, received_map: &FieldMap, client_address: PeerAddr) -> (r:
        Result<ServerAction, ProtocolError>)
        ensures
            final(self)@ == after_add_player(
                old(self)@,
                received_map.field("player"@),
                client_address,
            ),
            match add_player_verdict(old(self)@, received_map.field("player"@), client_address) {
                Ok(Some(id)) => announced(old(self)@, final(self)@, client_address, id, r),
                Ok(None) => r == Ok::<ServerAction, ProtocolError>(ServerAction::Nothing),
                Err(e) => r == Err::<ServerAction, ProtocolError>(e),
            },
    {
        let wrapper = match received_map.entity_field("player") {
            Ok(pl) => pl,
            Err(FieldError::Mistyped) => { return Err(ProtocolError::InvalidPlayer); },
            Err(FieldError::Missing) => { return Err(ProtocolError::MissingPlayer); },
        };
        let client_id = match self.socket_to_id(client_address) {
            Some(id) => id,
            None => { return Ok(ServerAction::Nothing); },
        };
        if self.synced_players.contains_key(&wrapper.object_id) {
            return Ok(ServerAction::Nothing);
        }
        let mut pl = Player::construct_from_wrapper(wrapper);
        pl.wrapper.owner_id = client_id;
        match self.add_player(pl, client_id) {
            Some(new_id) => {
                let mut pushed = pl.wrapper;
                pushed.object_id = new_id;
                self.player_map.insert(new_id, Player::construct_from_wrapper(pushed));
                let targets = self.relay_targets(Some(client_address));
                Ok(
                    ServerAction::ReplyAndRelay {
                        reply: ret_player_obj_id(new_id),
                        targets,
                        message: add_player_request(pushed),
                    },
                )
            },
            None => Err(ProtocolError::IdsExhausted),
        }
    }

    /// Applies a motion sample to the entity `object_id`, which must exist:
    /// its snapshot and the live entity move.
    pub fn apply_motion(&mut self, object_id: i32, motion_data: &MotionDataContainer) -> (r: Result<
        (),
        ProtocolError,
    >)
        ensures
            match r {
                Ok(_) => old(self)@.entities.contains_key(object_id) && final(self)@
                    == after_motion(old(self)@, object_id, *motion_data),
                Err(e) => !old(self)@.entities.contains_key(object_id) && e
                    == ProtocolError::UnknownObject(object_id) && final(self)@ == old(self)@,
            },
    {
        let mut wrapper = match self.synced_players.get(&object_id) {
            Some(w) => *w,
            None => { return Err(ProtocolError::UnknownObject(object_id)); },
        };
        wrapper.apply_motion(motion_data);
        self.synced_players.insert(object_id, wrapper);
        let live = match self.player_map.get(&object_id) {
            Some(p) => Some(*p),
            None => None,
        };
        match live {
            Some(p) => {
                let mut player = p;
                player.apply_motion(motion_data);
                self.player_map.insert(object_id, player);
            },
            None => {},
        }
        Ok(())
    }

    /// Serves `object_pos_update`: moves the entity and relays the sample to
    /// the other peers.
    pub fn handle_motion(&mut self, received_map: &FieldMap, client_address: PeerAddr) -> (r:
        Result<ServerAction, ProtocolError>)
        ensures
            match motion_verdict(
                old(self)@.entities.dom(),
                received_map.field("object_id"@),
                received_map.field("motion_data"@),
            ) {
                Ok(motion) => served_motion(old(self)@, final(self)@, client_address, motion, r),
                Err(e) => final(self)@ == old(self)@ && r == Err::<ServerAction, ProtocolError>(e),
            },
    {
        let object_id = match received_map.int_field("object_id") {
            Ok(id) => id,
            Err(_) => { return Err(ProtocolError::InvalidObjectId); },
        };
        if !self.synced_players.contains_key(&object_id) {
            return Err(ProtocolError::UnknownObject(object_id));
        }
        let motion_data = match received_map.motion_field("motion_data") {
            Ok(m) => m,
            Err(_) => { return Err(ProtocolError::InvalidMotion); },
        };
        match self.apply_motion(object_id, &motion_data) {
            Ok(_) => {},
            Err(e) => { return Err(e); },
        }
        let targets = self.relay_targets(Some(client_address));
        Ok(self.send_motion_update(targets, object_id, motion_data))
    }

    /// Serves `rpc_call`: carries the call out on the live entities.
    pub fn handle_rpc<C: RpcCallable>(&mut self, received_map: &FieldMap, table: &RpcTable<C>) -> (r:
        Result<ServerAction, ProtocolError>)
        ensures
            match received_map.field("rpc_data"@) {
                Some(Value::Rpc(name, params)) => match dispatch_verdict(
                    table,
                    name,
                    params,
                    old(self)@.live,
                ) {
                    Ok(_) => served_rpc(old(self)@, final(self)@, table, name, params, r),
                    Err(e) => final(self)@ == old(self)@ && r == Err::<
                        ServerAction,
                        ProtocolError,
                    >(e),
                },
                _ => final(self)@ == old(self)@ && r == Err::<ServerAction, ProtocolError>(
                    ProtocolError::InvalidRpcData,
                ),
            },
    {
        let call = match received_map.rpc_field("rpc_data") {
            Ok(call) => call,
            Err(_) => { return Err(ProtocolError::InvalidRpcData); },
        };
        match dispatch_rpc(table, call, &mut self.player_map) {
            Ok(_) => Ok(ServerAction::Nothing),
            Err(e) => Err(e),
        }
    }

    /// Serves one message from the peer at `client_address`.
    pub fn process_message<C: RpcCallable>(
        &mut self,
        message_received: &Message,
        client_address: PeerAddr,
        table: &RpcTable<C>,
    ) -> (r: Result<ServerAction, ProtocolError>)
        ensures
            served(
                old(self)@,
                final(self)@,
                message_received.items(),
                client_address,
                table,
                r,
            ),
    {
        let received_map = message_received.get_message_map();
        let goal = match received_map.text_field("goal") {
            Ok(goal) => goal,
            Err(FieldError::Mistyped) => { return Err(ProtocolError::InvalidGoal); },
            Err(FieldError::Missing) => { return Err(ProtocolError::MissingGoal); },
        };
        if str_eq(goal.as_str(), "sync") {
            self.handle_sync(client_address)
        } else if str_eq(goal.as_str(), "get_sync_players") {
            self.handle_get_sync_players()
        } else if str_eq(goal.as_str(), "add_player") {
            self.handle_add_player(received_map, client_address)
        } else if str_eq(goal.as_str(), "object_pos_update") {
            self.handle_motion(received_map, client_address)
        } else if str_eq(goal.as_str(), "rpc_call") {
            self.handle_rpc(received_map, table)
        } else {
            Err(ProtocolError::UnknownGoal)
        }
    }
}

/// What came of one datagram that the authority read.
pub struct Exchange {
    /// What the request in the datagram came to.
    pub outcome: Result<ServerAction, Dropped>,
    /// The datagrams to send, each with the address it goes to.
    pub datagrams: Vec<(PeerAddr, Vec<u8>)>,
    /// Whether what had to be sent is too large for a datagram, and so is
    /// not sent.
    pub oversized: bool,
}

/// A message with the fields `items` for each of `targets`, in their order.
pub open spec fn relayed(targets: Seq<(i32, PeerAddr)>, items: Seq<(Seq<char>, Value)>) -> Seq<
    (PeerAddr, Seq<(Seq<char>, Value)>),
> {
    Seq::new(targets.len(), |i: int| (targets[i].1, items))
}

/// The messages that an action asks for, each with the address it goes to:
/// a reply goes to the sender of the request, a relay to each of its
/// targets, and the reply comes first.
pub open spec fn outbound(action: ServerAction, sender: PeerAddr) -> Seq<
    (PeerAddr, Seq<(Seq<char>, Value)>),
> {
    match action {
        ServerAction::Nothing => Seq::empty(),
        ServerAction::Reply(m) => seq![(sender, m.items())],
        ServerAction::Relay { targets, message } => relayed(targets@, message.items()),
        ServerAction::ReplyAndRelay { reply, targets, message } => seq![(sender, reply.items())]
            + relayed(targets@, message.items()),
    }
}

/// Whether each of the messages fits a datagram.
pub open spec fn fits_all(expected: Seq<(PeerAddr, Seq<(Seq<char>, Value)>)>) -> bool {
    forall|i: int|
        0 <= i < expected.len() ==> message_size((#[trigger] expected[i]).1) <= MAX_DATAGRAM
}

/// Whether `datagrams` are the messages `expected`, one for one, each for
/// the same address.
pub open spec fn carries(
    datagrams: Seq<(PeerAddr, Vec<u8>)>,
    expected: Seq<(PeerAddr, Seq<(Seq<char>, Value)>)>,
) -> bool {
    &&& datagrams.len() == expected.len()
    &&& forall|i: int|
        0 <= i < datagrams.len() ==> (#[trigger] datagrams[i]).0 == expected[i].0 && is_datagram(
            datagrams[i].1@,
            expected[i].1,
        )
}

/// Whether the datagrams of an exchange are what its outcome asks for: the
/// messages of the action, where each fits a datagram, and none where the
/// request was dropped or a message does not fit.
pub open spec fn answers(ex: Exchange, sender: PeerAddr) -> bool {
    match ex.outcome {
        Ok(action) => {
            let expected = outbound(action, sender);
            if fits_all(expected) {
                !ex.oversized && carries(ex.datagrams@, expected)
            } else {
                ex.oversized && ex.datagrams@.len() == 0
            }
        },
        Err(_) => !ex.oversized && ex.datagrams@.len() == 0,
    }
}

impl Server {
    /// The datagram that carries `message` to `target`: the message, under
    /// the reserved target -1, as bytes. A message that does not fit a
    /// datagram is refused.
    pub fn send_message(&self, message: &FieldMap, target: PeerAddr) -> (r: Result<
        (PeerAddr, Vec<u8>),
        MessageError,
    >)
        ensures
            match r {
                Ok((to, bytes)) => to == target && is_datagram(bytes@, message.items()),
                Err(e) => e == MessageError::Oversized && message_size(message.items())
                    > MAX_DATAGRAM,
            },
    {
        frame(message, target)
    }

    /// Reads one datagram from the peer at `sender`: the message in it is
    /// served, and what is to be sent comes back as datagrams.
    pub fn receive_message<C: RpcCallable>(
        &mut self,
        datagram: &[u8],
        sender: PeerAddr,
        table: &RpcTable<C>,
    ) -> (ex: Exchange)
        ensures
            answers(ex, sender),
            match parse_message(datagram@) {
                None => final(self)@ == old(self)@ && ex.outcome == Err::<ServerAction, Dropped>(
                    Dropped::Malformed,
                ),
                Some((_, items)) => match ex.outcome {
                    Ok(action) => served(
                        old(self)@,
                        final(self)@,
                        items,
                        sender,
                        table,
                        Ok(action),
                    ),
                    Err(Dropped::Refused(e)) => served(
                        old(self)@,
                        final(self)@,
                        items,
                        sender,
                        table,
                        Err(e),
                    ),
                    Err(Dropped::Malformed) => false,
                },
            },
    {
        let decoded = match decode(datagram) {
            Ok(m) => m,
            Err(_) => {
                return Exchange {
                    outcome: Err(Dropped::Malformed),
                    datagrams: Vec::new(),
                    oversized: false,
                };
            },
        };
        let action = match self.process_message(&decoded, sender, table) {
            Ok(action) => action,
            Err(e) => {
                return Exchange {
                    outcome: Err(Dropped::Refused(e)),
                    datagrams: Vec::new(),
                    oversized: false,
                };
            },
        };
        let (datagrams, oversized) = datagrams_for(&action, sender);
        Exchange { outcome: Ok(action), datagrams, oversized }
    }
}

/// The datagrams of a relay: one for each target, or none at all where the
/// message does not fit a datagram.
fn relay_datagrams(targets: &Vec<(i32, PeerAddr)>, message: &FieldMap) -> (r: Option<
    Vec<(PeerAddr, Vec<u8>)>,
>)
    ensures
        match r {
            Some(datagrams) => carries(datagrams@, relayed(targets@, message.items())) && (
            targets@.len() > 0 ==> message_size(message.items()) <= MAX_DATAGRAM),
            None => targets@.len() > 0 && message_size(message.items()) > MAX_DATAGRAM,
        },
{
    let mut datagrams: Vec<(PeerAddr, Vec<u8>)> = Vec::new();
    let mut i: usize = 0;
    while i < targets.len()
        invariant
            i <= targets@.len(),
            datagrams@.len() == i,
            i > 0 ==> message_size(message.items()) <= MAX_DATAGRAM,
            forall|j: int|
                0 <= j < i ==> (#[trigger] datagrams@[j]).0 == targets@[j].1 && is_datagram(
                    datagrams@[j].1@,
                    message.items(),
                ),
        decreases targets@.len() - i,
    {
        match frame(message, targets[i].1) {
            Ok(d) => {
                datagrams.push(d);
            },
            Err(_) => {
                return None;
            },
        }
        i += 1;
    }
    Some(datagrams)
}

/// The datagrams that an action asks for, and whether they are withheld
/// because a message does not fit a datagram.
pub fn datagrams_for(action: &ServerAction, sender: PeerAddr) -> (r: (
    Vec<(PeerAddr, Vec<u8>)>,
    bool,
))
    ensures
        ({
            let expected = outbound(*action, sender);
            if fits_all(expected) {
                !r.1 && carries(r.0@, expected)
            } else {
                r.1 && r.0@.len() == 0
            }
        }),
{
    let ghost expected = outbound(*action, sender);
    match action {
        ServerAction::Nothing => (Vec::new(), false),
        ServerAction::Reply(m) => match frame(m, sender) {
            Ok(d) => {
                let mut datagrams: Vec<(PeerAddr, Vec<u8>)> = Vec::new();
                datagrams.push(d);
                assert(expected[0].1 == m.items());
                (datagrams, false)
            },
            Err(_) => {
                assert(expected[0].1 == m.items());
                (Vec::new(), true)
            },
        },
        ServerAction::Relay { targets, message } => match relay_datagrams(targets, message) {
            Some(datagrams) => (datagrams, false),
            None => {
                assert(expected[0].1 == message.items());
                (Vec::new(), true)
            },
        },
        ServerAction::ReplyAndRelay { reply, targets, message } => {
            let first = match frame(reply, sender) {
                Ok(d) => d,
                Err(_) => {
                    assert(expected[0].1 == reply.items());
                    return (Vec::new(), true);
                },
            };
            let mut rest = match relay_datagrams(targets, message) {
                Some(datagrams) => datagrams,
                None => {
                    assert(expected[1].1 == message.items());
                    return (Vec::new(), true);
                },
            };
            let ghost relays = rest@;
            let mut datagrams: Vec<(PeerAddr, Vec<u8>)> = Vec::new();
            datagrams.push(first);
            datagrams.append(&mut rest);
            proof {
                assert(datagrams@ =~= seq![first] + relays);
                assert forall|i: int| 0 <= i < expected.len() implies message_size(
                    (#[trigger] expected[i]).1,
                ) <= MAX_DATAGRAM by {
                    if i > 0 {
                        assert(expected[i] == relayed(targets@, message.items())[i - 1]);
                    }
                }
                assert forall|i: int| 0 <= i < datagrams@.len() implies (
                #[trigger] datagrams@[i]).0 == expected[i].0 && is_datagram(
                    datagrams@[i].1@,
                    expected[i].1,
                ) by {
                    if i > 0 {
                        assert(datagrams@[i] == relays[i - 1]);
                        assert(expected[i] == relayed(targets@, message.items())[i - 1]);
                    }
                }
            }
            (datagrams, false)
        },
    }
}

} // verus!
