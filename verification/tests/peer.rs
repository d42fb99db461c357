use rust_mp::catalogue::{
    add_player_request, confirm_connect, motion_update_broadcast, ret_player_obj_id,
    ret_sync_players, rpc_call, sync_request,
};
use rust_mp::client::Client;
use rust_mp::message::{
    FieldMap, Message, MessageError, MotionDataContainer, ObjectType, RpcCallContainer,
};
use rust_mp::player::{CharacterType, DataWrapper, Player, PlayerState};
use rust_mp::protocol::ProtocolError;
use rust_mp::rpc_game_callables::rpc_fn_table;
use rust_mp::transport::Dropped;
use rust_mp::wire::{decode, encode};
use std::collections::HashMap;

fn snapshot(object_id: i32, owner_id: i32) -> DataWrapper {
    DataWrapper {
        state: PlayerState::Idle,
        owner_id,
        object_id,
        character_type: CharacterType::Witch,
        position_data: (1.0f32.to_bits(), 2.0f32.to_bits()),
        speed_data: (0, 0),
        facing_right: true,
    }
}

fn motion() -> MotionDataContainer {
    MotionDataContainer::new(
        7.0f32.to_bits(),
        9.0f32.to_bits(),
        (-100.0f32).to_bits(),
        0,
        PlayerState::Running,
        false,
    )
}

fn envelope(fields: FieldMap) -> Message {
    Message::new(-1, fields).unwrap()
}

fn with_goal(goal: &str) -> FieldMap {
    let mut fields = FieldMap::new();
    fields.insert("goal".to_string(), ObjectType::StringMsg(goal.to_string()));
    fields
}

fn mirroring(ids: &[i32]) -> Client {
    let table = rpc_fn_table();
    let mut client = Client::new();
    let mut players = HashMap::new();
    for id in ids {
        players.insert(*id, snapshot(*id, 1));
    }
    client.process_message(&envelope(ret_sync_players(players)), &table).unwrap();
    client.adopt_replica();
    client
}

#[test]
fn confirm_connect_gives_the_peer_its_id() {
    let table = rpc_fn_table();
    let mut client = Client::new();
    assert_eq!(client.get_personal_id(), 0);
    assert_eq!(client.process_message(&envelope(confirm_connect(4)), &table), Ok(()));
    assert_eq!(client.get_personal_id(), 4);
    let r = client.process_message(&envelope(with_goal("confirm connect")), &table);
    assert_eq!(r, Err(ProtocolError::InvalidId));
    let mut fields = with_goal("confirm connect");
    fields.insert("id".to_string(), ObjectType::StringMsg("5".to_string()));
    assert_eq!(client.process_message(&envelope(fields), &table), Err(ProtocolError::InvalidId));
    assert_eq!(client.get_personal_id(), 4);
}

#[test]
fn ret_sync_players_replaces_the_mirror_whole() {
    let table = rpc_fn_table();
    let mut client = mirroring(&[1, 2]);
    let mut players = HashMap::new();
    players.insert(5, snapshot(5, 2));
    client.process_message(&envelope(ret_sync_players(players.clone())), &table).unwrap();
    assert_eq!(client.get_synced_players(), players);
    client.process_message(&envelope(ret_sync_players(HashMap::new())), &table).unwrap();
    assert!(client.get_synced_players().is_empty());
    let mut fields = with_goal("ret_sync_players");
    fields.insert("players".to_string(), ObjectType::Player(snapshot(1, 1)));
    let r = client.process_message(&envelope(fields), &table);
    assert_eq!(r, Err(ProtocolError::InvalidPlayers));
    // the live entities of the first mirror are still there
    assert_eq!(client.get_players().len(), 2);
}

#[test]
fn ret_player_obj_id_is_kept_for_the_handshake() {
    let table = rpc_fn_table();
    let mut client = Client::new();
    assert_eq!(client.get_new_player_id(), None);
    client.process_message(&envelope(ret_player_obj_id(3)), &table).unwrap();
    assert_eq!(client.get_new_player_id(), Some(3));
    let r = client.process_message(&envelope(with_goal("ret_player_obj_id")), &table);
    assert_eq!(r, Err(ProtocolError::InvalidId));
    assert_eq!(client.get_new_player_id(), Some(3));
}

#[test]
fn pushed_entity_is_mirrored_once() {
    let table = rpc_fn_table();
    let mut client = Client::new();
    let w = snapshot(6, 2);
    client.process_message(&envelope(add_player_request(w)), &table).unwrap();
    assert_eq!(client.get_synced_players().get(&6), Some(&w));
    assert_eq!(client.get_players().get(&6), Some(&Player::construct_from_wrapper(w)));
    let mut other = snapshot(6, 9);
    other.facing_right = false;
    assert_eq!(client.process_message(&envelope(add_player_request(other)), &table), Ok(()));
    assert_eq!(client.get_synced_players().get(&6), Some(&w));
    assert_eq!(client.get_synced_players().len(), 1);
    let r = client.process_message(&envelope(with_goal("add_player")), &table);
    assert_eq!(r, Err(ProtocolError::MissingPlayer));
    let mut fields = with_goal("add_player");
    fields.insert("player".to_string(), ObjectType::MotionData(motion()));
    assert_eq!(client.process_message(&envelope(fields), &table), Err(ProtocolError::InvalidPlayer));
}

#[test]
fn motion_broadcast_moves_the_mirrored_entity() {
    let table = rpc_fn_table();
    let mut client = mirroring(&[1, 2]);
    client.process_message(&envelope(motion_update_broadcast(2, motion())), &table).unwrap();
    let moved = client.get_synced_players()[&2];
    assert_eq!(moved.generate_motion_data(), motion());
    assert_eq!(moved.owner_id, 1);
    assert_eq!(moved.object_id, 2);
    assert_eq!(client.get_synced_players()[&1], snapshot(1, 1));
    let live = client.get_players()[&2];
    assert_eq!(live.wrapper, moved);
    assert_eq!(live.speed, ((-100.0f32).to_bits(), 0));
    assert!(!live.facing_right);
    assert_eq!(client.get_players()[&1], Player::construct_from_wrapper(snapshot(1, 1)));
}

#[test]
fn motion_broadcast_for_an_unknown_object_is_dropped_once() {
    let table = rpc_fn_table();
    let mut client = mirroring(&[1, 2]);
    let mirror = client.get_synced_players();
    let live = client.get_players();
    let mut log = Vec::new();
    match client.process_message(&envelope(motion_update_broadcast(3, motion())), &table) {
        Ok(()) => {}
        Err(e) => log.push(e),
    }
    assert_eq!(log, vec![ProtocolError::UnknownObject(3)]);
    assert_eq!(client.get_synced_players(), mirror);
    assert_eq!(client.get_players(), live);
    assert_eq!(client.apply_motion(3, &motion()), Err(ProtocolError::UnknownObject(3)));
}

#[test]
fn motion_broadcast_with_mistyped_fields_is_refused() {
    let table = rpc_fn_table();
    let mut client = mirroring(&[1]);
    let r = client.process_message(&envelope(with_goal("motion_update_broadcast")), &table);
    assert_eq!(r, Err(ProtocolError::InvalidObjectId));
    let mut fields = with_goal("motion_update_broadcast");
    fields.insert("object_id".to_string(), ObjectType::Integer(1));
    let r = client.process_message(&envelope(fields), &table);
    assert_eq!(r, Err(ProtocolError::InvalidMotion));
    assert_eq!(client.get_synced_players()[&1], snapshot(1, 1));
}

#[test]
fn remote_call_of_an_unregistered_function_changes_nothing() {
    let table = rpc_fn_table();
    let mut client = mirroring(&[1]);
    let mirror = client.get_synced_players();
    let live = client.get_players();
    let call = RpcCallContainer {
        function_name: "test_rpc_params".to_string(),
        params: vec![ObjectType::Integer(12345)],
    };
    let datagram = encode(&envelope(rpc_call(call)));
    let r = client.receive_message(&datagram, &table);
    assert_eq!(r, Err(Dropped::Refused(ProtocolError::UnknownFunction)));
    assert_eq!(client.get_synced_players(), mirror);
    assert_eq!(client.get_players(), live);
    assert!(client.take_outbox().is_empty());
}

#[test]
fn remote_call_forces_the_animation_of_the_live_entity() {
    let table = rpc_fn_table();
    let mut client = mirroring(&[1, 2]);
    let call = RpcCallContainer {
        function_name: "animation_force".to_string(),
        params: vec![ObjectType::Integer(2), ObjectType::AnimationState(PlayerState::Death)],
    };
    assert_eq!(client.process_message(&envelope(rpc_call(call)), &table), Ok(()));
    assert_eq!(client.get_players()[&2].wrapper.state, PlayerState::Death);
    assert_eq!(client.get_players()[&1].wrapper.state, PlayerState::Idle);
    assert_eq!(client.get_synced_players()[&2].state, PlayerState::Idle);
}

#[test]
fn remote_call_that_names_no_live_entity_is_refused() {
    let table = rpc_fn_table();
    let mut client = mirroring(&[1]);
    let live = client.get_players();
    let missing = RpcCallContainer {
        function_name: "animation_force".to_string(),
        params: vec![ObjectType::Integer(8), ObjectType::AnimationState(PlayerState::Death)],
    };
    let r = client.process_message(&envelope(rpc_call(missing)), &table);
    assert_eq!(r, Err(ProtocolError::UnknownEntity(8)));
    let untyped = RpcCallContainer {
        function_name: "animation_force".to_string(),
        params: vec![ObjectType::AnimationState(PlayerState::Death)],
    };
    let r = client.process_message(&envelope(rpc_call(untyped)), &table);
    assert_eq!(r, Err(ProtocolError::MissingEntityParam));
    let bare = RpcCallContainer { function_name: "animation_force".to_string(), params: vec![] };
    let r = client.process_message(&envelope(rpc_call(bare)), &table);
    assert_eq!(r, Err(ProtocolError::MissingEntityParam));
    let mut fields = with_goal("rpc_call");
    fields.insert("rpc_data".to_string(), ObjectType::Integer(1));
    let r = client.process_message(&envelope(fields), &table);
    assert_eq!(r, Err(ProtocolError::InvalidRpcData));
    assert_eq!(client.get_players(), live);
}

#[test]
fn goals_of_the_authority_are_unknown_to_a_peer() {
    let table = rpc_fn_table();
    let mut client = Client::new();
    let r = client.process_message(&envelope(sync_request()), &table);
    assert_eq!(r, Err(ProtocolError::UnknownGoal));
    let r = client.process_message(&envelope(FieldMap::new()), &table);
    assert_eq!(r, Err(ProtocolError::MissingGoal));
    let mut fields = FieldMap::new();
    fields.insert("goal".to_string(), ObjectType::AnimationState(PlayerState::Idle));
    assert_eq!(client.process_message(&envelope(fields), &table), Err(ProtocolError::InvalidGoal));
    assert_eq!(client.receive_message(&[0xff; 5], &table), Err(Dropped::Malformed));
}

#[test]
fn outbox_hands_out_the_messages_oldest_first() {
    let mut client = Client::new();
    assert!(!client.send_to_receive_thread(sync_request()));
    assert!(client.take_outbox().is_empty());
    client.start();
    assert!(client.send_to_receive_thread(sync_request()));
    assert!(client.send_to_receive_thread(add_player_request(snapshot(-1, 0))));
    let waiting = client.take_outbox();
    assert_eq!(waiting.len(), 2);
    assert_eq!(waiting[0], sync_request());
    assert_eq!(waiting[1], add_player_request(snapshot(-1, 0)));
    assert!(client.take_outbox().is_empty());
    let bytes = client.send_message(&waiting[0]).unwrap();
    let message = decode(&bytes).unwrap();
    assert_eq!(message.get_target(), -1);
    assert_eq!(message.get_message_map(), &sync_request());
    let mut large = FieldMap::new();
    large.insert("goal".to_string(), ObjectType::StringMsg("x".repeat(2000)));
    assert_eq!(client.send_message(&large), Err(MessageError::Oversized));
}

#[test]
fn adopting_the_mirror_makes_a_live_entity_of_each_snapshot() {
    let table = rpc_fn_table();
    let mut client = Client::new();
    client.insert_player(9, Player::construct_from_wrapper(snapshot(9, 3)));
    let mut players = HashMap::new();
    players.insert(1, snapshot(1, 1));
    players.insert(2, snapshot(4, 1));
    client.process_message(&envelope(ret_sync_players(players)), &table).unwrap();
    client.adopt_replica();
    let live = client.get_players();
    assert_eq!(live.len(), 3);
    assert_eq!(live[&1], Player::construct_from_wrapper(snapshot(1, 1)));
    assert_eq!(live[&4], Player::construct_from_wrapper(snapshot(4, 1)));
    assert_eq!(live[&9], Player::construct_from_wrapper(snapshot(9, 3)));
    client.insert_synced_player(7, snapshot(7, 7));
    assert_eq!(client.get_synced_players().len(), 3);
}
