use crate::address::PeerAddr;
use crate::catalogue::{
    add_player_request, get_sync_players_request, goal_and, goal_and_two, goal_only,
    object_pos_update, rpc_call, sync_request,
};
use crate::client::{queued, taken_in, Client, ClientState};
use crate::ids::first_free;
use crate::message::{MessageError, MotionDataContainer, RpcCallContainer, Value};
use crate::player::{DataWrapper, Player};
use crate::protocol::ProtocolError;
use crate::rpc_funcs::{RpcCallable, RpcTable};
use crate::server::{answers, is_relay_list, served, Exchange, Server, ServerAction, ServerState};
use crate::transport::{frame_bytes, is_datagram, Dropped};
use crate::wire::{message_size, parse_message, MAX_DATAGRAM};
use std::collections::HashMap;
use vstd::prelude::*;

verus! {

broadcast use vstd::std_specs::hash::group_hash_axioms;

/// How often a peer asks before it gives up.
pub const MAX_ATTEMPTS: u32 = 5;

/// Where a handshake stands after a step.
#[derive(Clone, Copy, Debug, PartialEq, Eq, Structural)]
pub enum Handshake {
    /// The request was sent once more: wait, then take the next step.
    Wait,
    /// The answer has come.
    Done,
    /// No answer has come to any of the requests: the peer cannot go on.
    Failed,
}

/// What the step of a handshake comes to: the first step always asks; a
/// later step is done where the answer has come, asks again while asking is
/// left, and fails after the last.
pub open spec fn handshake_step(attempts: u32, answered: bool) -> Handshake {
    if attempts > 0 && answered {
        Handshake::Done
    } else if attempts < MAX_ATTEMPTS {
        Handshake::Wait
    } else {
        Handshake::Failed
    }
}

/// Decides the step of a handshake after `attempts` requests.
pub fn next_step(attempts: u32, answered: bool) -> (step: Handshake)
    ensures
        step == handshake_step(attempts, answered),
{
    if attempts > 0 && answered {
        Handshake::Done
    } else if attempts < MAX_ATTEMPTS {
        Handshake::Wait
    } else {
        Handshake::Failed
    }
}

/// A handshake that asks at every step until it is answered is over, one
/// way or the other, by the step after the last request: it never asks more
/// than `MAX_ATTEMPTS` times.
pub proof fn lemma_handshake_bounded(attempts: u32, answered: bool)
    ensures
        handshake_step(attempts, answered) == Handshake::Wait ==> attempts < MAX_ATTEMPTS,
        attempts >= MAX_ATTEMPTS ==> handshake_step(attempts, answered) != Handshake::Wait,
        attempts >= MAX_ATTEMPTS && !answered ==> handshake_step(attempts, answered)
            == Handshake::Failed,
{
}

/// The side of the session that a process plays.
pub enum Role {
    Authority(Server),
    Peer(Client),
}

/// What a game handle holds, as mathematical values.
pub enum RoleState {
    Authority(ServerState),
    Peer(ClientState),
}

/// The one entry point of the simulation into the session: the authority or
/// a peer, and the client id of this process.
pub struct GameHandle {
    role: Role,
    personal_id: i32,
}

impl GameHandle {
    /// The side that the handle plays, with what it holds.
    pub closed spec fn role(&self) -> RoleState {
        match self.role {
            Role::Authority(s) => RoleState::Authority(s@),
            Role::Peer(c) => RoleState::Peer(c@),
        }
    }

    /// The client id of this process; 0 for the authority and for a peer
    /// that has none yet.
    pub closed spec fn personal_id(&self) -> i32 {
        self.personal_id
    }

    /// The handle of an authority that has registered its own in-process
    /// client and nothing else.
    pub fn construct_server() -> (handle: GameHandle)
        ensures
            handle.personal_id() == 0,
            handle.role() == RoleState::Authority(
                ServerState {
                    registry: Map::<i32, PeerAddr>::empty().insert(
                        -1i32,
                        PeerAddr::local_authority(),
                    ),
                    entities: Map::empty(),
                    live: Map::empty(),
                },
            ),
    {
        let mut server = Server::new();
        server.start();
        GameHandle { role: Role::Authority(server), personal_id: 0 }
    }

    /// The handle of a peer that has started its transport and has not met
    /// the authority yet.
    pub fn construct_client() -> (handle: GameHandle)
        ensures
            handle.personal_id() == 0,
            handle.role() == RoleState::Peer(
                ClientState {
                    personal_id: 0,
                    replica: Map::empty(),
                    live: Map::empty(),
                    new_player_id: None,
                    started: true,
                    outbox: Seq::empty(),
                },
            ),
    {
        let mut client = Client::new();
        client.start();
        GameHandle { role: Role::Peer(client), personal_id: 0 }
    }

    pub fn get_personal_id(&self) -> (id: i32)
        ensures
            id == self.personal_id(),
    {
        self.personal_id
    }

    /// A copy of the replicated entity map of this side.
    pub fn get_network_wrappers(&self) -> (players: HashMap<i32, DataWrapper>)
        ensures
            players@ == match self.role() {
                RoleState::Authority(s) => s.entities,
                RoleState::Peer(c) => c.replica,
            },
    {
        match &self.role {
            Role::Authority(server) => server.get_synced_players(),
            Role::Peer(client) => client.get_synced_players(),
        }
    }

    /// A copy of the live entities of this side.
    pub fn get_player_wrapper_map(&self) -> (players: HashMap<i32, Player>)
        ensures
            players@ == match self.role() {
                RoleState::Authority(s) => s.live,
                RoleState::Peer(c) => c.live,
            },
    {
        match &self.role {
            Role::Authority(server) => server.get_players(),
            Role::Peer(client) => client.get_players(),
        }
    }
}

/// Where the creation of an entity stands after a step.
#[derive(Clone, Copy, Debug, PartialEq, Eq, Structural)]
pub enum AddPlayer {
    /// The entity exists under this id.
    Created(i32),
    /// The request was sent once more: wait, then take the next step.
    Wait,
    /// The entity cannot be created.
    Failed,
}

/// The live entity that this process creates from `player` under the entity
/// id `id`: `player` with that object id and this process as its owner.
pub open spec fn owned(player: Player, id: i32, owner_id: i32) -> Player {
    Player { wrapper: DataWrapper { object_id: id, owner_id, ..player.wrapper }, ..player }
}

/// Whether a step of the creation of an entity from `player`, by the process
/// with the client id `personal_id`, took the side from `pre` to `post` and
/// came to `step`.
pub open spec fn added_player(
    pre: RoleState,
    post: RoleState,
    personal_id: i32,
    player: Player,
    attempts: u32,
    step: AddPlayer,
) -> bool {
    match pre {
        RoleState::Authority(s) => match first_free(s.entities.dom()) {
            Some(id) => {
                let p = owned(player, id, personal_id);
                step == AddPlayer::Created(id) && post == RoleState::Authority(
                    ServerState {
                        entities: s.entities.insert(id, p.wrapper),
                        live: s.live.insert(id, p),
                        ..s
                    },
                )
            },
            None => step == AddPlayer::Failed && post == pre,
        },
        RoleState::Peer(c) => match handshake_step(attempts, c.new_player_id is Some) {
            Handshake::Done => {
                let id = c.new_player_id->0;
                let p = owned(player, id, personal_id);
                step == AddPlayer::Created(id) && post == RoleState::Peer(
                    ClientState {
                        replica: c.replica.insert(id, p.wrapper),
                        live: c.live.insert(id, p),
                        ..c
                    },
                )
            },
            Handshake::Wait => step == AddPlayer::Wait && post == RoleState::Peer(
                queued(c, goal_and("add_player"@, "player"@, Value::Entity(player.wrapper))),
            ),
            Handshake::Failed => step == AddPlayer::Failed && post == pre,
        },
    }
}

impl GameHandle {
    /// One step of the handshake in which a peer gets its client id.
    ///
    /// A step that is not done queues `sync` for the authority. The step that
    /// is done makes the id that the authority assigned the id of this
    /// process. An authority has no such handshake, and fails.
    pub fn launch_client(&mut self, attempts: u32) -> (step: Handshake)
        ensures
            match old(self).role() {
                RoleState::Peer(c) => {
                    &&& step == handshake_step(attempts, c.personal_id != 0)
                    &&& match step {
                        Handshake::Done => final(self).personal_id() == c.personal_id && final(self).role() == old(self).role(),
                        Handshake::Wait => final(self).personal_id() == old(self).personal_id()
                            && final(self).role() == RoleState::Peer(
                            queued(c, goal_only("sync"@)),
                        ),
                        Handshake::Failed => final(self).personal_id() == old(self).personal_id()
                            && final(self).role() == old(self).role(),
                    }
                },
                RoleState::Authority(_) => step == Handshake::Failed && final(self).personal_id()
                    == old(self).personal_id() && final(self).role() == old(self).role(),
            },
    {
        match &mut self.role {
            Role::Peer(client) => {
                let id = client.get_personal_id();
                let step = next_step(attempts, id != 0);
                match step {
                    Handshake::Done => {
                        self.personal_id = id;
                    },
                    Handshake::Wait => {
                        client.send_to_receive_thread(sync_request());
                    },
                    Handshake::Failed => {},
                }
                step
            },
            Role::Authority(_) => Handshake::Failed,
        }
    }

    /// One step of the creation of an entity of this process.
    ///
    /// An authority creates the entity at once, under the smallest free
    /// entity id: the entity, with that id and this process as its owner,
    /// is among the live entities and its snapshot in the entity map. A peer
    /// asks the authority: a step that is not done queues `add_player` with
    /// the entity's snapshot; the step that is done puts the entity, with
    /// the id that the authority answered and this process as its owner,
    /// among the live entities and its snapshot into the mirror.
    pub fn add_player(&mut self, player: Player, attempts: u32) -> (step: AddPlayer)
        ensures
            final(self).personal_id() == old(self).personal_id(),
            added_player(
                old(self).role(),
                final(self).role(),
                old(self).personal_id(),
                player,
                attempts,
                step,
            ),
    {
        let personal_id = self.personal_id;
        match &mut self.role {
            Role::Authority(server) => {
                let object_id = match server.gen_new_player_id() {
                    Some(id) => id,
                    None => { return AddPlayer::Failed; },
                };
                let mut player = player;
                player.wrapper.object_id = object_id;
                player.wrapper.owner_id = personal_id;
                server.insert_player(object_id, player);
                server.add_player(player, personal_id);
                AddPlayer::Created(object_id)
            },
            Role::Peer(client) => {
                let answer = client.get_new_player_id();
                match next_step(attempts, answer.is_some()) {
                    Handshake::Done => {
                        let id = match answer {
                            Some(id) => id,
                            None => { return AddPlayer::Failed; },
                        };
                        let mut player = player;
                        player.wrapper.object_id = id;
                        player.wrapper.owner_id = personal_id;
                        client.insert_synced_player(id, player.wrapper);
                        client.insert_player(id, player);
                        AddPlayer::Created(id)
                    },
                    Handshake::Wait => {
                        client.send_to_receive_thread(add_player_request(player.wrapper));
                        AddPlayer::Wait
                    },
                    Handshake::Failed => AddPlayer::Failed,
                }
            },
        }
    }

    /// One step of the pull of the authority's entity map.
    ///
    /// A step that is not done queues `get_sync_players`. The step that is
    /// done, once the mirror holds anything, makes a live entity from each
    /// mirrored snapshot. An authority has nothing to pull, and fails.
    pub fn request_synced_players(&mut self, attempts: u32) -> (step: Handshake)
        ensures
            final(self).personal_id() == old(self).personal_id(),
            match old(self).role() {
                RoleState::Peer(c) => {
                    &&& step == handshake_step(attempts, c.replica.dom().len() != 0)
                    &&& match step {
                        Handshake::Done => final(self).role() matches RoleState::Peer(after)
                            && after == (ClientState { live: after.live, ..c }) && crate::client::adopted(
                            c.replica,
                            c.live,
                            after.live,
                        ),
                        Handshake::Wait => final(self).role() == RoleState::Peer(
                            queued(c, goal_only("get_sync_players"@)),
                        ),
                        Handshake::Failed => final(self).role() == old(self).role(),
                    }
                },
                RoleState::Authority(_) => step == Handshake::Failed && final(self).role() == old(self).role(),
            },
    {
        match &mut self.role {
            Role::Peer(client) => {
                let mirrored = client.get_synced_players();
                let step = next_step(attempts, mirrored.len() != 0);
                match step {
                    Handshake::Done => {
                        client.adopt_replica();
                    },
                    Handshake::Wait => {
                        client.send_to_receive_thread(get_sync_players_request());
                    },
                    Handshake::Failed => {},
                }
                step
            },
            Role::Authority(_) => Handshake::Failed,
        }
    }

    /// Publishes a motion sample of an entity of this side.
    ///
    /// The entity must be in the replicated entity map of this side; its
    /// snapshot and the live entity take the sample. An authority then
    /// relays the sample to every peer; a peer queues the report for the
    /// authority, under the id of the entity.
    pub fn send_motion_update(&mut self, object_id: i32, motion_data: MotionDataContainer) -> (r:
        Result<ServerAction, ProtocolError>)
        ensures
            final(self).personal_id() == old(self).personal_id(),
            match old(self).role() {
                RoleState::Authority(s) => if s.entities.contains_key(object_id) {
                    &&& final(self).role() == RoleState::Authority(
                        crate::server::after_motion(s, object_id, motion_data),
                    )
                    &&& r matches Ok(ServerAction::Relay { targets, message })
                    &&& is_relay_list(s.registry, None, targets@)
                    &&& message.items() == goal_and_two(
                        "motion_update_broadcast"@,
                        "object_id"@,
                        Value::Int(object_id),
                        "motion_data"@,
                        Value::Motion(motion_data),
                    )
                } else {
                    final(self).role() == old(self).role() && r == Err::<
                        ServerAction,
                        ProtocolError,
                    >(ProtocolError::UnknownObject(object_id))
                },
                RoleState::Peer(c) => if c.replica.contains_key(object_id) {
                    let moved = crate::client::after_broadcast(c, object_id, motion_data);
                    &&& final(self).role() == RoleState::Peer(
                        queued(
                            moved,
                            goal_and_two(
                                "object_pos_update"@,
                                "object_id"@,
                                Value::Int(object_id),
                                "motion_data"@,
                                Value::Motion(motion_data),
                            ),
                        ),
                    )
                    &&& r == Ok::<ServerAction, ProtocolError>(ServerAction::Nothing)
                } else {
                    final(self).role() == old(self).role() && r == Err::<
                        ServerAction,
                        ProtocolError,
                    >(ProtocolError::UnknownObject(object_id))
                },
            },
    {
        match &mut self.role {
            Role::Authority(server) => {
                match server.apply_motion(object_id, &motion_data) {
                    Ok(_) => {},
                    Err(e) => { return Err(e); },
                }
                let targets = server.relay_targets(None);
                Ok(server.send_motion_update(targets, object_id, motion_data))
            },
            Role::Peer(client) => {
                match client.apply_motion(object_id, &motion_data) {
                    Ok(_) => {},
                    Err(e) => { return Err(e); },
                }
                client.send_to_receive_thread(object_pos_update(object_id, motion_data));
                Ok(ServerAction::Nothing)
            },
        }
    }

    /// Publishes a remote call: an authority relays it to every peer; a peer
    /// queues it for the authority.
    pub fn send_rpc(&mut self, call_container: RpcCallContainer) -> (action: ServerAction)
        ensures
            final(self).personal_id() == old(self).personal_id(),
            match old(self).role() {
                RoleState::Authority(s) => {
                    &&& final(self).role() == old(self).role()
                    &&& action matches ServerAction::Relay { targets, message }
                    &&& is_relay_list(s.registry, None, targets@)
                    &&& message.items() == goal_and(
                        "rpc_call"@,
                        "rpc_data"@,
                        Value::Rpc(call_container@.0, call_container@.1),
                    )
                },
                RoleState::Peer(c) => {
                    &&& final(self).role() == RoleState::Peer(
                        queued(
                            c,
                            goal_and(
                                "rpc_call"@,
                                "rpc_data"@,
                                Value::Rpc(call_container@.0, call_container@.1),
                            ),
                        ),
                    )
                    &&& action == ServerAction::Nothing
                },
            },
    {
        match &mut self.role {
            Role::Authority(server) => {
                let targets = server.relay_targets(None);
                server.send_rpc(targets, call_container)
            },
            Role::Peer(client) => {
                client.send_to_receive_thread(rpc_call(call_container));
                ServerAction::Nothing
            },
        }
    }
}

impl GameHandle {
    /// Reads one datagram from the peer at `sender`.
    ///
    /// An authority serves the message in it and answers with datagrams. A
    /// peer takes the message in and answers nothing.
    pub fn receive_message<C: RpcCallable>(
        &mut self,
        datagram: &[u8],
        sender: PeerAddr,
        table: &RpcTable<C>,
    ) -> (ex: Exchange)
        ensures
            final(self).personal_id() == old(self).personal_id(),
            answers(ex, sender),
            match parse_message(datagram@) {
                None => final(self).role() == old(self).role() && ex.outcome == Err::<
                    ServerAction,
                    Dropped,
                >(Dropped::Malformed),
                Some((_, items)) => match (old(self).role(), final(self).role()) {
                    (RoleState::Authority(pre), RoleState::Authority(post)) => match ex.outcome {
                        Ok(action) => served(pre, post, items, sender, table, Ok(action)),
                        Err(Dropped::Refused(e)) => served(
                            pre,
                            post,
                            items,
                            sender,
                            table,
                            Err(e),
                        ),
                        Err(Dropped::Malformed) => false,
                    },
                    (RoleState::Peer(pre), RoleState::Peer(post)) => match ex.outcome {
                        Ok(action) => action == ServerAction::Nothing && taken_in(
                            pre,
                            post,
                            items,
                            table,
                            Ok(()),
                        ),
                        Err(Dropped::Refused(e)) => taken_in(pre, post, items, table, Err(e)),
                        Err(Dropped::Malformed) => false,
                    },
                    _ => false,
                },
            },
    {
        match &mut self.role {
            Role::Authority(server) => server.receive_message(datagram, sender, table),
            Role::Peer(client) => {
                let outcome = match client.receive_message(datagram, table) {
                    Ok(_) => Ok(ServerAction::Nothing),
                    Err(e) => Err(e),
                };
                Exchange { outcome, datagrams: Vec::new(), oversized: false }
            },
        }
    }

    /// Takes the messages that a peer has queued for the authority and
    /// frames them, oldest first. A message that does not fit a datagram
    /// comes back as the error in its place. An authority queues nothing.
    pub fn flush(&mut self) -> (datagrams: Vec<Result<Vec<u8>, MessageError>>)
        ensures
            final(self).personal_id() == old(self).personal_id(),
            match old(self).role() {
                RoleState::Authority(_) => datagrams@.len() == 0 && final(self).role() == old(self).role(),
                RoleState::Peer(c) => {
                    &&& final(self).role() == RoleState::Peer(
                        ClientState { outbox: Seq::empty(), ..c },
                    )
                    &&& datagrams@.len() == c.outbox.len()
                    &&& forall|i: int|
                        0 <= i < datagrams@.len() ==> match #[trigger] datagrams@[i] {
                            Ok(bytes) => is_datagram(bytes@, c.outbox[i]),
                            Err(e) => e == MessageError::Oversized && message_size(c.outbox[i])
                                > MAX_DATAGRAM,
                        }
                },
            },
    {
        let mut datagrams: Vec<Result<Vec<u8>, MessageError>> = Vec::new();
        match &mut self.role {
            Role::Authority(_) => {},
            Role::Peer(client) => {
                let ghost waiting_items = client@.outbox;
                let waiting = client.take_outbox();
                let mut i: usize = 0;
                while i < waiting.len()
                    invariant
                        i <= waiting@.len(),
                        datagrams@.len() == i,
                        waiting@.len() == waiting_items.len(),
                        forall|j: int|
                            0 <= j < waiting@.len() ==> (#[trigger] waiting@[j]).items()
                                == waiting_items[j],
                        forall|j: int|
                            0 <= j < i ==> match #[trigger] datagrams@[j] {
                                Ok(bytes) => is_datagram(bytes@, waiting_items[j]),
                                Err(e) => e == MessageError::Oversized && message_size(
                                    waiting_items[j],
                                ) > MAX_DATAGRAM,
                            },
                    decreases waiting@.len() - i,
                {
                    let framed = frame_bytes(&waiting[i]);
                    datagrams.push(framed);
                    i += 1;
                }
            },
        }
        datagrams
    }
}

impl GameHandle {
    /// Puts a live entity, as the simulation left it, among the live
    /// entities of this side under `id`.
    pub fn update_player(&mut self, id: i32, player: Player)
        ensures
            final(self).personal_id() == old(self).personal_id(),
            final(self).role() == match old(self).role() {
                RoleState::Authority(s) => RoleState::Authority(
                    ServerState { live: s.live.insert(id, player), ..s },
                ),
                RoleState::Peer(c) => RoleState::Peer(
                    ClientState { live: c.live.insert(id, player), ..c },
                ),
            },
    {
        match &mut self.role {
            Role::Authority(server) => server.insert_player(id, player),
            Role::Peer(client) => client.insert_player(id, player),
        }
    }

    /// Whether this side is the authority.
    pub fn is_server(&self) -> (b: bool)
        ensures
            b == (self.role() is Authority),
    {
        match &self.role {
            Role::Authority(_) => true,
            Role::Peer(_) => false,
        }
    }
}

impl GameHandle {
    /// The announcement of an entity that the authority created itself, to
    /// every peer. A peer announces nothing, and nothing is announced of an
    /// entity that does not exist.
    pub fn announce_player(&self, id: i32) -> (action: ServerAction)
        ensures
            match self.role() {
                RoleState::Authority(s) => match action {
                    ServerAction::Relay { targets, message } => s.entities.contains_key(id)
                        && is_relay_list(s.registry, None, targets@) && message.items()
                        == goal_and(
                        "add_player"@,
                        "player"@,
                        Value::Entity(crate::server::announcement(s.entities, id)),
                    ),
                    ServerAction::Nothing => !s.entities.contains_key(id),
                    _ => false,
                },
                RoleState::Peer(_) => action == ServerAction::Nothing,
            },
    {
        match &self.role {
            Role::Authority(server) => {
                let targets = server.relay_targets(None);
                server.send_add_player(targets, id)
            },
            Role::Peer(_) => ServerAction::Nothing,
        }
    }
}

/// What one cycle of the transport loop came to.
pub struct Cycle {
    /// What came of the datagram that was read, where one was.
    pub exchange: Option<Exchange>,
    /// The datagrams of the messages that waited in the outbox, oldest
    /// first; a message that does not fit a datagram comes as the error in
    /// its place.
    pub queued: Vec<Result<Vec<u8>, MessageError>>,
}

/// Whether `queued` are the messages `waiting` as datagrams, one for one.
pub open spec fn frames_outbox(
    queued: Seq<Result<Vec<u8>, MessageError>>,
    waiting: Seq<Seq<(Seq<char>, Value)>>,
) -> bool {
    &&& queued.len() == waiting.len()
    &&& forall|i: int|
        0 <= i < queued.len() ==> match #[trigger] queued[i] {
            Ok(bytes) => is_datagram(bytes@, waiting[i]),
            Err(e) => e == MessageError::Oversized && message_size(waiting[i]) > MAX_DATAGRAM,
        }
}

impl GameHandle {
    /// One cycle of the transport loop, but for the socket: the datagram
    /// that was read, if one was, is taken in first, and then the outbox is
    /// emptied. What is to be sent comes back: the answers to the datagram,
    /// each with its address, and the datagrams of the outbox, which go to
    /// the authority.
    pub fn poll_cycle<C: RpcCallable>(
        &mut self,
        received: Option<(&[u8], PeerAddr)>,
        table: &RpcTable<C>,
    ) -> (cycle: Cycle)
        ensures
            final(self).personal_id() == old(self).personal_id(),
            received is None <==> cycle.exchange is None,
            match old(self).role() {
                RoleState::Authority(pre) => cycle.queued@.len() == 0 && final(self).role()
                    is Authority,
                RoleState::Peer(pre) => final(self).role() matches RoleState::Peer(post)
                    && post.outbox.len() == 0 && frames_outbox(cycle.queued@, pre.outbox),
            },
            match (received, cycle.exchange) {
                (Some((datagram, sender)), Some(ex)) => {
                    &&& answers(ex, sender)
                    &&& match parse_message(datagram@) {
                        None => ex.outcome == Err::<ServerAction, Dropped>(Dropped::Malformed)
                            && match (old(self).role(), final(self).role()) {
                            (RoleState::Authority(pre), RoleState::Authority(post)) => post == pre,
                            (RoleState::Peer(pre), RoleState::Peer(post)) => post == (ClientState {
                                outbox: Seq::empty(),
                                ..pre
                            }),
                            _ => false,
                        },
                        Some((_, items)) => match (old(self).role(), final(self).role()) {
                            (RoleState::Authority(pre), RoleState::Authority(post)) => match
                                ex.outcome {
                                Ok(action) => served(pre, post, items, sender, table, Ok(action)),
                                Err(Dropped::Refused(e)) => served(
                                    pre,
                                    post,
                                    items,
                                    sender,
                                    table,
                                    Err(e),
                                ),
                                Err(Dropped::Malformed) => false,
                            },
                            (RoleState::Peer(pre), RoleState::Peer(post)) => {
                                let taken = ClientState { outbox: pre.outbox, ..post };
                                match ex.outcome {
                                    Ok(action) => action == ServerAction::Nothing && taken_in(
                                        pre,
                                        taken,
                                        items,
                                        table,
                                        Ok(()),
                                    ),
                                    Err(Dropped::Refused(e)) => taken_in(
                                        pre,
                                        taken,
                                        items,
                                        table,
                                        Err(e),
                                    ),
                                    Err(Dropped::Malformed) => false,
                                }
                            },
                            _ => false,
                        },
                    }
                },
                (None, None) => match (old(self).role(), final(self).role()) {
                    (RoleState::Authority(pre), RoleState::Authority(post)) => post == pre,
                    (RoleState::Peer(pre), RoleState::Peer(post)) => post == (ClientState {
                        outbox: Seq::empty(),
                        ..pre
                    }),
                    _ => false,
                },
                _ => false,
            },
    {
        let exchange = match received {
            Some((datagram, sender)) => Some(self.receive_message(datagram, sender, table)),
            None => None,
        };
        proof {
            lemma_outbox_stays(old(self).role(), self.role(), received, table, exchange);
        }
        let queued = self.flush();
        Cycle { exchange, queued }
    }
}

/// Taking a datagram in leaves the outbox of a peer as it was.
proof fn lemma_outbox_stays<C: RpcCallable>(
    pre: RoleState,
    mid: RoleState,
    received: Option<(&[u8], PeerAddr)>,
    table: &RpcTable<C>,
    exchange: Option<Exchange>,
)
    requires
        match (received, exchange) {
            (Some((datagram, sender)), Some(ex)) => match parse_message(datagram@) {
                None => mid == pre,
                Some((_, items)) => match (pre, mid) {
                    (RoleState::Peer(a), RoleState::Peer(b)) => match ex.outcome {
                        Ok(action) => taken_in(a, b, items, table, Ok(())),
                        Err(Dropped::Refused(e)) => taken_in(a, b, items, table, Err(e)),
                        Err(Dropped::Malformed) => false,
                    },
                    (RoleState::Authority(_), RoleState::Authority(_)) => true,
                    _ => false,
                },
            },
            (None, None) => mid == pre,
            _ => false,
        },
    ensures
        match (pre, mid) {
            (RoleState::Peer(a), RoleState::Peer(b)) => b.outbox == a.outbox,
            (RoleState::Authority(_), RoleState::Authority(_)) => true,
            _ => false,
        },
{
}

} // verus!
