use crate::message::{
    lookup, FieldError, FieldMap, Message, MessageError, MotionDataContainer, Value,
};
use crate::player::{DataWrapper, Player};
use crate::protocol::{goal_of, live_moved, motion_verdict, ProtocolError};
use crate::rpc_funcs::{dispatch_rpc, dispatch_verdict, dispatched, RpcCallable, RpcTable};
use crate::text::str_eq;
use crate::transport::{frame_bytes, is_datagram, Dropped};
use crate::wire::{decode, map_keys, message_size, parse_message, MAX_DATAGRAM};
use std::collections::HashMap;
use vstd::prelude::*;

verus! {

broadcast use vstd::std_specs::hash::group_hash_axioms;

/// What a peer holds, as mathematical values.
pub struct ClientState {
    /// The client id that the authority assigned; 0 until it has.
    pub personal_id: i32,
    /// The peer's mirror of the authority's entity map.
    pub replica: Map<i32, DataWrapper>,
    /// The live entities that the simulation and remote calls act on.
    pub live: Map<i32, Player>,
    /// The id under which the authority created the entity that this peer
    /// last asked for, once the answer has come.
    pub new_player_id: Option<i32>,
    /// Whether the peer's transport has been started: before that, nothing
    /// can be queued.
    pub started: bool,
    /// The messages that wait to be sent to the authority, oldest first.
    pub outbox: Seq<Seq<(Seq<char>, Value)>>,
}

/// The peer after it was asked to queue a message with the fields `items`:
/// the message waits behind those that wait already, where the transport has
/// been started, and is lost where it has not.
pub open spec fn queued(pre: ClientState, items: Seq<(Seq<char>, Value)>) -> ClientState {
    if pre.started {
        ClientState { outbox: pre.outbox.push(items), ..pre }
    } else {
        pre
    }
}

/// A peer: its identity, its mirror of the entity map, its live entities
/// and the messages it has yet to send.
pub struct Client {
    personal_id: i32,
    synced_players: HashMap<i32, DataWrapper>,
    new_player_id: Option<i32>,
    player_map: HashMap<i32, Player>,
    started: bool,
    outbox: Vec<FieldMap>,
}

impl View for Client {
    type V = ClientState;

    closed spec fn view(&self) -> ClientState {
        ClientState {
            personal_id: self.personal_id,
            replica: self.synced_players@,
            live: self.player_map@,
            new_player_id: self.new_player_id,
            started: self.started,
            outbox: Seq::new(self.outbox@.len(), |i: int| self.outbox@[i].items()),
        }
    }
}

/// The peer after the push of an entity: where the mirror does not hold the
/// snapshot's object id, the snapshot is in the mirror and among the live
/// entities under that id; where it does, nothing changes.
pub open spec fn after_push(pre: ClientState, w: DataWrapper) -> ClientState {
    if pre.replica.contains_key(w.object_id) {
        pre
    } else {
        ClientState {
            replica: pre.replica.insert(w.object_id, w),
            live: pre.live.insert(w.object_id, Player::fresh(w)),
            ..pre
        }
    }
}

/// The peer after a motion sample that is applied: the mirrored snapshot
/// and the live entity have moved.
pub open spec fn after_broadcast(pre: ClientState, id: i32, m: MotionDataContainer)
    -> ClientState {
    ClientState {
        replica: pre.replica.insert(id, pre.replica[id].with_motion(m)),
        live: live_moved(pre.live, id, m),
        ..pre
    }
}

/// Whether the peer, from `pre`, took in a message with the fields `items`
/// with the outcome `r` and was left as `post`.
///
/// A message is taken in by its goal. One that is refused leaves the peer
/// as it was.
pub open spec fn taken_in<C: RpcCallable>(
    pre: ClientState,
    post: ClientState,
    items: Seq<(Seq<char>, Value)>,
    table: &RpcTable<C>,
    r: Result<(), ProtocolError>,
) -> bool {
    match goal_of(items) {
        Err(e) => post == pre && r == Err::<(), ProtocolError>(e),
        Ok(goal) => if goal == "confirm connect"@ {
            match lookup(items, "id"@) {
                Some(Value::Int(id)) => r is Ok && post == (ClientState {
                    personal_id: id,
                    ..pre
                }),
                _ => post == pre && r == Err::<(), ProtocolError>(ProtocolError::InvalidId),
            }
        } else if goal == "ret_sync_players"@ {
            match lookup(items, "players"@) {
                Some(Value::EntityMap(players)) => r is Ok && post == (ClientState {
                    replica: players,
                    ..pre
                }),
                _ => post == pre && r == Err::<(), ProtocolError>(ProtocolError::InvalidPlayers),
            }
        } else if goal == "ret_player_obj_id"@ {
            match lookup(items, "id"@) {
                Some(Value::Int(id)) => r is Ok && post == (ClientState {
                    new_player_id: Some(id),
                    ..pre
                }),
                _ => post == pre && r == Err::<(), ProtocolError>(ProtocolError::InvalidId),
            }
        } else if goal == "add_player"@ {
            match lookup(items, "player"@) {
                Some(Value::Entity(w)) => r is Ok && post == after_push(pre, w),
                Some(_) => post == pre && r == Err::<(), ProtocolError>(
                    ProtocolError::InvalidPlayer,
                ),
                None => post == pre && r == Err::<(), ProtocolError>(
                    ProtocolError::MissingPlayer,
                ),
            }
        } else if goal == "motion_update_broadcast"@ {
            match motion_verdict(
                pre.replica.dom(),
                lookup(items, "object_id"@),
                lookup(items, "motion_data"@),
            ) {
                Ok(motion) => r is Ok && post == after_broadcast(pre, motion.0, motion.1),
                Err(e) => post == pre && r == Err::<(), ProtocolError>(e),
            }
        } else if goal == "rpc_call"@ {
            match lookup(items, "rpc_data"@) {
                Some(Value::Rpc(name, params)) => match dispatch_verdict(
                    table,
                    name,
                    params,
                    pre.live,
                ) {
                    Ok(_) => r is Ok && post == (ClientState { live: post.live, ..pre })
                        && dispatched(table.lookup(name)->0, params, pre.live, post.live),
                    Err(e) => post == pre && r == Err::<(), ProtocolError>(e),
                },
                _ => post == pre && r == Err::<(), ProtocolError>(ProtocolError::InvalidRpcData),
            }
        } else {
            post == pre && r == Err::<(), ProtocolError>(ProtocolError::UnknownGoal)
        },
    }
}

impl Client {
    /// A peer that has no id yet, mirrors nothing and has nothing to send.
    pub fn new() -> (client: Client)
        ensures
            client@ == (ClientState {
                personal_id: 0,
                replica: Map::empty(),
                live: Map::empty(),
                new_player_id: None,
                started: false,
                outbox: Seq::empty(),
            }),
    {
        let client = Client {
            personal_id: 0,
            synced_players: HashMap::new(),
            new_player_id: None,
            player_map: HashMap::new(),
            started: false,
            outbox: Vec::new(),
        };
        assert(client@.outbox =~= Seq::empty());
        client
    }

    pub fn get_personal_id(&self) -> (id: i32)
        ensures
            id == self@.personal_id,
    {
        self.personal_id
    }

    /// A copy of the mirror as it stands.
    pub fn get_synced_players(&self) -> (players: HashMap<i32, DataWrapper>)
        ensures
            players@ == self@.replica,
    {
        self.synced_players.clone()
    }

    /// A copy of the live entities as they stand.
    pub fn get_players(&self) -> (players: HashMap<i32, Player>)
        ensures
            players@ == self@.live,
    {
        self.player_map.clone()
    }

    pub fn get_new_player_id(&self) -> (id: Option<i32>)
        ensures
            id == self@.new_player_id,
    {
        self.new_player_id
    }

    /// Puts a snapshot into the mirror under `id`.
    pub fn insert_synced_player(&mut self, id: i32, wrapper: DataWrapper)
        ensures
            final(self)@ == (ClientState {
                replica: old(self)@.replica.insert(id, wrapper),
                ..old(self)@
            }),
    {
        self.synced_players.insert(id, wrapper);
        assert(self@.outbox =~= old(self)@.outbox);
    }

    /// Puts a live entity among the peer's live entities under `id`.
    pub fn insert_player(&mut self, id: i32, player: Player)
        ensures
            final(self)@ == (ClientState {
                live: old(self)@.live.insert(id, player),
                ..old(self)@
            }),
    {
        self.player_map.insert(id, player);
        assert(self@.outbox =~= old(self)@.outbox);
    }

    /// Starts the peer's transport: from now on messages can be queued.
    pub fn start(&mut self)
        ensures
            final(self)@ == (ClientState { started: true, ..old(self)@ }),
    {
        self.started = true;
        assert(self@.outbox =~= old(self)@.outbox);
    }

    /// Queues a message for the authority, behind those that wait. Before
    /// the transport has been started the message is lost. Says whether the
    /// message was queued.
    pub fn send_to_receive_thread(&mut self, msg: FieldMap) -> (was_queued: bool)
        ensures
            was_queued == old(self)@.started,
            final(self)@ == queued(old(self)@, msg.items()),
    {
        if !self.started {
            return false;
        }
        self.outbox.push(msg);
        assert(self@.outbox =~= old(self)@.outbox.push(msg.items()));
        true
    }

    /// Takes the messages that wait to be sent, oldest first, and leaves
    /// none.
    pub fn take_outbox(&mut self) -> (waiting: Vec<FieldMap>)
        ensures
            waiting@.len() == old(self)@.outbox.len(),
            forall|i: int|
                0 <= i < waiting@.len() ==> (#[trigger] waiting@[i]).items() == old(self)@.outbox[i],
            final(self)@ == (ClientState { outbox: Seq::empty(), ..old(self)@ }),
    {
        let mut waiting: Vec<FieldMap> = Vec::new();
        std::mem::swap(&mut waiting, &mut self.outbox);
        assert(self@.outbox =~= Seq::empty());
        waiting
    }

    /// The datagram that carries `message` to the authority: the message,
    /// under the reserved target -1, as bytes. A message that does not fit a
    /// datagram is refused.
    pub fn send_message(&self, message: &FieldMap) -> (r: Result<Vec<u8>, MessageError>)
        ensures
            match r {
                Ok(bytes) => is_datagram(bytes@, message.items()),
                Err(e) => e == MessageError::Oversized && message_size(message.items())
                    > MAX_DATAGRAM,
            },
    {
        frame_bytes(message)
    }

    /// Takes in one message from the authority.
    pub fn process_message<C: RpcCallable>(
        &mut self,
        message_received: &Message,
        table: &RpcTable<C>,
    ) -> (r: Result<(), ProtocolError>)
        ensures
            taken_in(old(self)@, final(self)@, message_received.items(), table, r),
    {
        let received_map = message_received.get_message_map();
        let goal = match received_map.text_field("goal") {
            Ok(goal) => goal,
            Err(FieldError::Mistyped) => { return Err(ProtocolError::InvalidGoal); },
            Err(FieldError::Missing) => { return Err(ProtocolError::MissingGoal); },
        };
        let ghost pre = self@;
        if str_eq(goal.as_str(), "confirm connect") {
            match received_map.int_field("id") {
                Ok(new_id) => {
                    self.personal_id = new_id;
                    assert(self@.outbox =~= pre.outbox);
                    Ok(())
                },
                _ => Err(ProtocolError::InvalidId),
            }
        } else if str_eq(goal.as_str(), "ret_sync_players") {
            match received_map.entity_map_field("players") {
                Ok(players) => {
                    self.synced_players = players.clone();
                    assert(self@.outbox =~= pre.outbox);
                    Ok(())
                },
                _ => Err(ProtocolError::InvalidPlayers),
            }
        } else if str_eq(goal.as_str(), "ret_player_obj_id") {
            match received_map.int_field("id") {
                Ok(new_player_id) => {
                    self.new_player_id = Some(new_player_id);
                    assert(self@.outbox =~= pre.outbox);
                    Ok(())
                },
                _ => Err(ProtocolError::InvalidId),
            }
        } else if str_eq(goal.as_str(), "add_player") {
            match received_map.entity_field("player") {
                Ok(pl) => {
                    if !self.synced_players.contains_key(&pl.object_id) {
                        self.synced_players.insert(pl.object_id, pl);
                        self.player_map.insert(pl.object_id, Player::construct_from_wrapper(pl));
                        assert(self@.outbox =~= pre.outbox);
                    }
                    Ok(())
                },
                Err(FieldError::Mistyped) => Err(ProtocolError::InvalidPlayer),
                Err(FieldError::Missing) => Err(ProtocolError::MissingPlayer),
            }
        } else if str_eq(goal.as_str(), "motion_update_broadcast") {
            let object_id = match received_map.int_field("object_id") {
                Ok(id) => id,
                Err(_) => { return Err(ProtocolError::InvalidObjectId); },
            };
            let mut wrapper = match self.synced_players.get(&object_id) {
                Some(w) => *w,
                None => { return Err(ProtocolError::UnknownObject(object_id)); },
            };
            let motion_data = match received_map.motion_field("motion_data") {
                Ok(m) => m,
                Err(_) => { return Err(ProtocolError::InvalidMotion); },
            };
            wrapper.apply_motion(&motion_data);
            self.synced_players.insert(object_id, wrapper);
            let live = match self.player_map.get(&object_id) {
                Some(p) => Some(*p),
                None => None,
            };
            match live {
                Some(p) => {
                    let mut player = p;
                    player.apply_motion(&motion_data);
                    self.player_map.insert(object_id, player);
                },
                None => {},
            }
            assert(self@.outbox =~= pre.outbox);
            Ok(())
        } else if str_eq(goal.as_str(), "rpc_call") {
            let call = match received_map.rpc_field("rpc_data") {
                Ok(call) => call,
                Err(_) => { return Err(ProtocolError::InvalidRpcData); },
            };
            let r = dispatch_rpc(table, call, &mut self.player_map);
            assert(self@.outbox =~= pre.outbox);
            r
        } else {
            Err(ProtocolError::UnknownGoal)
        }
    }

    /// Reads one datagram from the authority: the message in it is taken
    /// in. The peer answers nothing.
    pub fn receive_message<C: RpcCallable>(&mut self, datagram: &[u8], table: &RpcTable<C>) -> (r:
        Result<(), Dropped>)
        ensures
            match parse_message(datagram@) {
                None => final(self)@ == old(self)@ && r == Err::<(), Dropped>(Dropped::Malformed),
                Some((_, items)) => match r {
                    Ok(_) => taken_in(old(self)@, final(self)@, items, table, Ok(())),
                    Err(Dropped::Refused(e)) => taken_in(
                        old(self)@,
                        final(self)@,
                        items,
                        table,
                        Err(e),
                    ),
                    Err(Dropped::Malformed) => false,
                },
            },
    {
        let decoded = match decode(datagram) {
            Ok(m) => m,
            Err(_) => { return Err(Dropped::Malformed); },
        };
        match self.process_message(&decoded, table) {
            Ok(_) => Ok(()),
            Err(e) => Err(Dropped::Refused(e)),
        }
    }
}

/// Whether some mirrored snapshot has the object id `k`.
pub open spec fn mirrors(replica: Map<i32, DataWrapper>, k: i32) -> bool {
    exists|id: i32| replica.contains_key(id) && (#[trigger] replica[id]).object_id == k
}

/// Whether `after` is `before` with a live entity made from each mirrored
/// snapshot and put under the snapshot's object id. Where several snapshots
/// have one object id, the live entity is made from one of them.
pub open spec fn adopted(
    replica: Map<i32, DataWrapper>,
    before: Map<i32, Player>,
    after: Map<i32, Player>,
) -> bool {
    &&& forall|k: i32|
        #[trigger] after.contains_key(k) <==> (before.contains_key(k) || mirrors(replica, k))
    &&& forall|k: i32|
        mirrors(replica, k) ==> exists|id: i32|
            replica.contains_key(id) && (#[trigger] replica[id]).object_id == k && after[k]
                == Player::fresh(replica[id])
    &&& forall|k: i32| !mirrors(replica, k) && before.contains_key(k) ==> after[k] == before[k]
}

impl Client {
    /// Applies a motion sample to the mirrored entity `object_id`, which
    /// must exist: its snapshot and the live entity move.
    pub fn apply_motion(&mut self, object_id: i32, motion_data: &MotionDataContainer) -> (r: Result<
        (),
        ProtocolError,
    >)
        ensures
            match r {
                Ok(_) => old(self)@.replica.contains_key(object_id) && final(self)@
                    == after_broadcast(old(self)@, object_id, *motion_data),
                Err(e) => !old(self)@.replica.contains_key(object_id) && e
                    == ProtocolError::UnknownObject(object_id) && final(self)@ == old(self)@,
            },
    {
        let ghost pre = self@;
        let mut wrapper = match self.synced_players.get(&object_id) {
            Some(w) => *w,
            None => { return Err(ProtocolError::UnknownObject(object_id)); },
        };
        wrapper.apply_motion(motion_data);
        self.synced_players.insert(object_id, wrapper);
        let live = match self.player_map.get(&object_id) {
            Some(p) => Some(*p),
            None => None,
        };
        match live {
            Some(p) => {
                let mut player = p;
                player.apply_motion(motion_data);
                self.player_map.insert(object_id, player);
            },
            None => {},
        }
        assert(self@.outbox =~= pre.outbox);
        Ok(())
    }

    /// Makes a live entity from each mirrored snapshot and puts it under the
    /// snapshot's object id.
    pub fn adopt_replica(&mut self)
        ensures
            adopted(old(self)@.replica, old(self)@.live, final(self)@.live),
            final(self)@ == (ClientState { live: final(self)@.live, ..old(self)@ }),
    {
        let ghost pre = self@;
        let keys = map_keys(&self.synced_players);
        let mut i: usize = 0;
        while i < keys.len()
            invariant
                i <= keys@.len(),
                keys@.to_set() == self.synced_players@.dom(),
                self.synced_players@ == pre.replica,
                self@ == (ClientState { live: self@.live, ..pre }),
                forall|k: i32|
                    #[trigger] self.player_map@.contains_key(k) <==> (pre.live.contains_key(k)
                        || seen(pre.replica, keys@, i as int, k)),
                forall|k: i32|
                    #[trigger] seen(pre.replica, keys@, i as int, k) ==> made_from(
                        pre.replica,
                        keys@,
                        i as int,
                        k,
                        self.player_map@[k],
                    ),
                forall|k: i32|
                    !seen(pre.replica, keys@, i as int, k) && #[trigger] pre.live.contains_key(k)
                        ==> self.player_map@[k] == pre.live[k],
            decreases keys@.len() - i,
        {
            let id = keys[i];
            assert(keys@.to_set().contains(id));
            let ghost before = self.player_map@;
            match self.synced_players.get(&id) {
                Some(w) => {
                    self.player_map.insert(w.object_id, Player::construct_from_wrapper(*w));
                    proof {
                        assert(self@.outbox =~= pre.outbox);
                        assert forall|k: i32|
                            #[trigger] self.player_map@.contains_key(k) <==> (
                            pre.live.contains_key(k) || seen(pre.replica, keys@, i + 1, k)) by {
                            lemma_seen_step(pre.replica, keys@, i as int, k);
                        }
                        assert forall|k: i32|
                            #[trigger] seen(pre.replica, keys@, i + 1, k) implies made_from(
                            pre.replica,
                            keys@,
                            i + 1,
                            k,
                            self.player_map@[k],
                        ) by {
                            lemma_seen_step(pre.replica, keys@, i as int, k);
                            if k == w.object_id {
                                assert(made_from_at(
                                    pre.replica,
                                    keys@,
                                    i as int,
                                    k,
                                    self.player_map@[k],
                                ));
                            } else {
                                assert(seen(pre.replica, keys@, i as int, k));
                                lemma_made_from_step(
                                    pre.replica,
                                    keys@,
                                    i as int,
                                    k,
                                    before[k],
                                );
                            }
                        }
                        assert forall|k: i32|
                            !seen(pre.replica, keys@, i + 1, k) && #[trigger] pre.live.contains_key(
                                k,
                            ) implies self.player_map@[k] == pre.live[k] by {
                            lemma_seen_step(pre.replica, keys@, i as int, k);
                        }
                    }
                },
                None => {},
            }
            i += 1;
        }
        proof {
            let replica = pre.replica;
            let live = self.player_map@;
            assert forall|k: i32| mirrors(replica, k) <==> seen(replica, keys@, i as int, k) by {
                if mirrors(replica, k) {
                    let id = choose|id: i32|
                        replica.contains_key(id) && (#[trigger] replica[id]).object_id == k;
                    assert(keys@.to_set().contains(id));
                    let j = choose|j: int| 0 <= j < keys@.len() && keys@[j] == id;
                    assert(made_from_at(replica, keys@, j, k, Player::fresh(replica[keys@[j]])));
                }
                if seen(replica, keys@, i as int, k) {
                    let j = choose|j: int|
                        0 <= j < i && #[trigger] made_from_at(
                            replica,
                            keys@,
                            j,
                            k,
                            Player::fresh(replica[keys@[j]]),
                        );
                    assert(keys@.to_set().contains(keys@[j]));
                    assert(replica.contains_key(keys@[j]));
                    assert(replica[keys@[j]].object_id == k);
                }
            }
            assert forall|k: i32| mirrors(replica, k) implies exists|id: i32|
                replica.contains_key(id) && (#[trigger] replica[id]).object_id == k && live[k]
                    == Player::fresh(replica[id]) by {
                assert(seen(replica, keys@, i as int, k));
                let j = choose|j: int|
                    0 <= j < i && #[trigger] made_from_at(replica, keys@, j, k, live[k]);
                assert(keys@.to_set().contains(keys@[j]));
                assert(replica.contains_key(keys@[j]) && replica[keys@[j]].object_id == k);
            }
        }
    }
}

/// Whether the snapshot mirrored under the `j`th of `keys` has the object id
/// `k` and `p` is the live entity made from it.
pub open spec fn made_from_at(
    replica: Map<i32, DataWrapper>,
    keys: Seq<i32>,
    j: int,
    k: i32,
    p: Player,
) -> bool {
    replica[keys[j]].object_id == k && p == Player::fresh(replica[keys[j]])
}

/// Whether `p` is the live entity made from one of the snapshots mirrored
/// under the first `i` of `keys` that have the object id `k`.
pub open spec fn made_from(
    replica: Map<i32, DataWrapper>,
    keys: Seq<i32>,
    i: int,
    k: i32,
    p: Player,
) -> bool {
    exists|j: int| 0 <= j < i && #[trigger] made_from_at(replica, keys, j, k, p)
}

/// Whether one of the snapshots mirrored under the first `i` of `keys` has
/// the object id `k`.
pub open spec fn seen(replica: Map<i32, DataWrapper>, keys: Seq<i32>, i: int, k: i32) -> bool {
    exists|j: int|
        0 <= j < i && #[trigger] made_from_at(
            replica,
            keys,
            j,
            k,
            Player::fresh(replica[keys[j]]),
        )
}

proof fn lemma_seen_step(replica: Map<i32, DataWrapper>, keys: Seq<i32>, i: int, k: i32)
    requires
        0 <= i < keys.len(),
    ensures
        seen(replica, keys, i + 1, k) <==> (seen(replica, keys, i, k) || replica[keys[i]].object_id
            == k),
{
    if seen(replica, keys, i + 1, k) {
        let j = choose|j: int|
            0 <= j < i + 1 && #[trigger] made_from_at(
                replica,
                keys,
                j,
                k,
                Player::fresh(replica[keys[j]]),
            );
        if j < i {
            assert(seen(replica, keys, i, k));
        }
    }
    if seen(replica, keys, i, k) {
        let j = choose|j: int|
            0 <= j < i && #[trigger] made_from_at(
                replica,
                keys,
                j,
                k,
                Player::fresh(replica[keys[j]]),
            );
        assert(made_from_at(replica, keys, j, k, Player::fresh(replica[keys[j]])));
    }
    if replica[keys[i]].object_id == k {
        assert(made_from_at(replica, keys, i, k, Player::fresh(replica[keys[i]])));
    }
}

proof fn lemma_made_from_step(
    replica: Map<i32, DataWrapper>,
    keys: Seq<i32>,
    i: int,
    k: i32,
    p: Player,
)
    requires
        made_from(replica, keys, i, k, p),
    ensures
        made_from(replica, keys, i + 1, k, p),
{
    let j = choose|j: int| 0 <= j < i && #[trigger] made_from_at(replica, keys, j, k, p);
    assert(made_from_at(replica, keys, j, k, p));
}

} // verus!
