use rust_mp::address::{HostAddr, PeerAddr};
use rust_mp::catalogue::{
    add_player_request, get_sync_players_request, object_pos_update, rpc_call, sync_request,
};
use rust_mp::message::{FieldMap, Message, MotionDataContainer, ObjectType, RpcCallContainer};
use rust_mp::player::{CharacterType, DataWrapper, Player, PlayerState};
use rust_mp::protocol::ProtocolError;
use rust_mp::rpc_game_callables::rpc_fn_table;
use rust_mp::server::{datagrams_for, Exchange, Server, ServerAction};
use rust_mp::transport::Dropped;
use rust_mp::wire::{decode, encode};
use rust_mp::{CLIENT_PORT, SERVER_PORT};
use std::collections::HashMap;

fn peer(last: u32, port: u16) -> PeerAddr {
    PeerAddr::new(HostAddr::V4(0xc0a8_0100 + last), port)
}

fn snapshot_a() -> DataWrapper {
    DataWrapper {
        state: PlayerState::Idle,
        owner_id: 0,
        object_id: -1,
        character_type: CharacterType::Witcher,
        position_data: (15.0f32.to_bits(), 15.0f32.to_bits()),
        speed_data: (0, 0),
        facing_right: true,
    }
}

fn motion() -> MotionDataContainer {
    MotionDataContainer::new(
        40.0f32.to_bits(),
        8.0f32.to_bits(),
        100.0f32.to_bits(),
        (-120.0f32).to_bits(),
        PlayerState::Jumping,
        false,
    )
}

fn envelope(fields: FieldMap) -> Message {
    Message::new(-1, fields).unwrap()
}

fn reply_of(action: ServerAction) -> FieldMap {
    match action {
        ServerAction::Reply(fields) => fields,
        ServerAction::ReplyAndRelay { reply, .. } => reply,
        ServerAction::Nothing => panic!("nothing was answered"),
        ServerAction::Relay { .. } => panic!("a relay was answered"),
    }
}

#[test]
fn sync_assigns_the_smallest_free_client_id() {
    let table = rpc_fn_table();
    let mut server = Server::new();
    server.start();
    assert_eq!(server.gen_new_id(), Some(1));
    assert_eq!(server.gen_new_id(), Some(1));
    let first = server.process_message(&envelope(sync_request()), peer(5, 40000), &table).unwrap();
    let reply = reply_of(first);
    assert_eq!(reply.len(), 2);
    assert_eq!(reply.get("goal"), Some(&ObjectType::StringMsg("confirm connect".to_string())));
    assert_eq!(reply.get("id"), Some(&ObjectType::Integer(1)));
    assert_eq!(server.id_to_socket(1), Some(peer(5, CLIENT_PORT)));
    let second = server.process_message(&envelope(sync_request()), peer(6, 40001), &table).unwrap();
    assert_eq!(reply_of(second).get("id"), Some(&ObjectType::Integer(2)));
    assert_eq!(server.get_user_map().len(), 3);
    assert_eq!(server.id_to_socket(-1), Some(PeerAddr::new(HostAddr::V4(0x7f00_0001), SERVER_PORT)));
    assert_eq!(server.id_to_socket(3), None);
}

#[test]
fn socket_to_id_finds_the_smallest_id_of_an_address() {
    let table = rpc_fn_table();
    let mut server = Server::new();
    for _ in 0..3 {
        server.process_message(&envelope(sync_request()), peer(5, 1), &table).unwrap();
    }
    server.process_message(&envelope(sync_request()), peer(6, 1), &table).unwrap();
    assert_eq!(server.socket_to_id(peer(5, CLIENT_PORT)), Some(1));
    assert_eq!(server.socket_to_id(peer(6, CLIENT_PORT)), Some(4));
    assert_eq!(server.socket_to_id(peer(6, 1)), None);
    assert_eq!(server.socket_to_id(peer(7, CLIENT_PORT)), None);
}

#[test]
fn entity_ids_are_the_smallest_free_and_never_taken() {
    let mut server = Server::new();
    let player = Player::construct_from_wrapper(snapshot_a());
    assert_eq!(server.gen_new_player_id(), Some(1));
    assert_eq!(server.gen_new_player_id(), Some(1));
    assert_eq!(server.add_player(player, 7), Some(1));
    assert_eq!(server.gen_new_player_id(), Some(2));
    assert_eq!(server.add_player(player, 7), Some(2));
    assert_eq!(server.add_player(player, 8), Some(3));
    let synced = server.get_synced_players();
    assert_eq!(synced.len(), 3);
    assert!(!synced.contains_key(&4));
    assert_eq!(server.gen_new_player_id(), Some(4));
}

#[test]
fn added_entity_is_in_the_next_snapshot_with_its_owner() {
    let mut server = Server::new();
    let player = Player::construct_from_wrapper(snapshot_a());
    let id = server.add_player(player, 7).unwrap();
    let synced = server.get_synced_players();
    let owned: Vec<(&i32, &DataWrapper)> = synced.iter().filter(|(_, w)| w.owner_id == 7).collect();
    assert_eq!(owned.len(), 1);
    assert_eq!(*owned[0].0, id);
    let mut expected = snapshot_a();
    expected.owner_id = 7;
    expected.object_id = id;
    assert_eq!(synced.get(&id), Some(&expected));
    // the snapshot is a copy: the authority's map goes on without it
    server.add_player(player, 9);
    assert_eq!(synced.len(), 1);
}

#[test]
fn session_from_sync_to_the_second_peers_pull() {
    let table = rpc_fn_table();
    let mut server = Server::new();
    server.start();
    let first = peer(10, 5000);
    let second = peer(11, 5000);

    let reply = reply_of(server.process_message(&envelope(sync_request()), first, &table).unwrap());
    assert_eq!(reply.get("id"), Some(&ObjectType::Integer(1)));

    let request = envelope(add_player_request(snapshot_a()));
    let reply = reply_of(
        server.process_message(&request, first.with_port(CLIENT_PORT), &table).unwrap(),
    );
    assert_eq!(reply.get("goal"), Some(&ObjectType::StringMsg("ret_player_obj_id".to_string())));
    assert_eq!(reply.get("id"), Some(&ObjectType::Integer(1)));

    let reply = reply_of(server.process_message(&envelope(sync_request()), second, &table).unwrap());
    assert_eq!(reply.get("id"), Some(&ObjectType::Integer(2)));
    let pull = envelope(get_sync_players_request());
    let reply = reply_of(
        server.process_message(&pull, second.with_port(CLIENT_PORT), &table).unwrap(),
    );
    assert_eq!(reply.get("goal"), Some(&ObjectType::StringMsg("ret_sync_players".to_string())));
    let mut expected = HashMap::new();
    let mut a = snapshot_a();
    a.owner_id = 1;
    a.object_id = 1;
    expected.insert(1, a);
    assert_eq!(reply.get("players"), Some(&ObjectType::PlayerMap(expected)));
    assert_eq!(server.get_players().get(&1), Some(&Player::construct_from_wrapper(a)));
}

#[test]
fn add_player_from_an_unregistered_address_is_passed_over() {
    let table = rpc_fn_table();
    let mut server = Server::new();
    let request = envelope(add_player_request(snapshot_a()));
    let action = server.process_message(&request, peer(1, CLIENT_PORT), &table).unwrap();
    assert!(matches!(action, ServerAction::Nothing));
    assert!(server.get_synced_players().is_empty());
}

#[test]
fn add_player_for_an_object_id_that_exists_is_passed_over() {
    let table = rpc_fn_table();
    let mut server = Server::new();
    let addr = peer(1, CLIENT_PORT);
    server.process_message(&envelope(sync_request()), addr, &table).unwrap();
    server.process_message(&envelope(add_player_request(snapshot_a())), addr, &table).unwrap();
    let mut again = snapshot_a();
    again.object_id = 1;
    let action =
        server.process_message(&envelope(add_player_request(again)), addr, &table).unwrap();
    assert!(matches!(action, ServerAction::Nothing));
    assert_eq!(server.get_synced_players().len(), 1);
}

#[test]
fn add_player_without_a_snapshot_is_refused() {
    let table = rpc_fn_table();
    let mut server = Server::new();
    let mut fields = FieldMap::new();
    fields.insert("goal".to_string(), ObjectType::StringMsg("add_player".to_string()));
    let r = server.process_message(&envelope(fields.clone()), peer(1, 1), &table);
    assert_eq!(r.err(), Some(ProtocolError::MissingPlayer));
    fields.insert("player".to_string(), ObjectType::Integer(3));
    let r = server.process_message(&envelope(fields), peer(1, 1), &table);
    assert_eq!(r.err(), Some(ProtocolError::InvalidPlayer));
}

#[test]
fn goal_must_be_there_and_be_text_and_be_known() {
    let table = rpc_fn_table();
    let mut server = Server::new();
    let r = server.process_message(&envelope(FieldMap::new()), peer(1, 1), &table);
    assert_eq!(r.err(), Some(ProtocolError::MissingGoal));
    let mut fields = FieldMap::new();
    fields.insert("goal".to_string(), ObjectType::Integer(1));
    let r = server.process_message(&envelope(fields), peer(1, 1), &table);
    assert_eq!(r.err(), Some(ProtocolError::InvalidGoal));
    let mut fields = FieldMap::new();
    fields.insert("goal".to_string(), ObjectType::StringMsg("confirm connect".to_string()));
    let r = server.process_message(&envelope(fields), peer(1, 1), &table);
    assert_eq!(r.err(), Some(ProtocolError::UnknownGoal));
    assert!(server.get_user_map().is_empty());
}

#[test]
fn motion_report_moves_the_entity_and_is_relayed_to_the_others() {
    let table = rpc_fn_table();
    let mut server = Server::new();
    server.start();
    let a = peer(1, CLIENT_PORT);
    let b = peer(2, CLIENT_PORT);
    let c = peer(3, CLIENT_PORT);
    for addr in [a, b, c] {
        server.process_message(&envelope(sync_request()), addr, &table).unwrap();
    }
    server.process_message(&envelope(add_player_request(snapshot_a())), a, &table).unwrap();

    let report = envelope(object_pos_update(1, motion()));
    let action = server.process_message(&report, a, &table).unwrap();
    let (targets, message) = match action {
        ServerAction::Relay { targets, message } => (targets, message),
        _ => panic!("no relay"),
    };
    let mut targets = targets;
    targets.sort_by_key(|t| t.0);
    assert_eq!(targets, vec![(2, b), (3, c)]);
    assert_eq!(message.len(), 3);
    assert_eq!(
        message.get("goal"),
        Some(&ObjectType::StringMsg("motion_update_broadcast".to_string()))
    );
    assert_eq!(message.get("object_id"), Some(&ObjectType::Integer(1)));
    assert_eq!(message.get("motion_data"), Some(&ObjectType::MotionData(motion())));

    let moved = server.get_synced_players()[&1];
    assert_eq!(moved.position_data, (40.0f32.to_bits(), 8.0f32.to_bits()));
    assert_eq!(moved.speed_data, (100.0f32.to_bits(), (-120.0f32).to_bits()));
    assert_eq!(moved.state, PlayerState::Jumping);
    assert!(!moved.facing_right);
    assert_eq!(moved.owner_id, 1);
    assert_eq!(moved.object_id, 1);
    assert_eq!(moved.generate_motion_data(), motion());
    let live = server.get_players()[&1];
    assert_eq!(live.wrapper, moved);
    assert_eq!(live.speed, (100.0f32.to_bits(), (-120.0f32).to_bits()));
    assert!(!live.facing_right);
}

#[test]
fn motion_report_for_an_unknown_entity_changes_nothing() {
    let table = rpc_fn_table();
    let mut server = Server::new();
    let addr = peer(1, CLIENT_PORT);
    server.process_message(&envelope(sync_request()), addr, &table).unwrap();
    server.process_message(&envelope(add_player_request(snapshot_a())), addr, &table).unwrap();
    let before = server.get_synced_players();
    let r = server.process_message(&envelope(object_pos_update(2, motion())), addr, &table);
    assert_eq!(r.err(), Some(ProtocolError::UnknownObject(2)));
    assert_eq!(server.get_synced_players(), before);
    assert_eq!(server.apply_motion(2, &motion()), Err(ProtocolError::UnknownObject(2)));
    assert_eq!(server.apply_motion(1, &motion()), Ok(()));
}

#[test]
fn motion_report_with_mistyped_fields_is_refused() {
    let table = rpc_fn_table();
    let mut server = Server::new();
    let addr = peer(1, CLIENT_PORT);
    server.process_message(&envelope(sync_request()), addr, &table).unwrap();
    server.process_message(&envelope(add_player_request(snapshot_a())), addr, &table).unwrap();
    let mut fields = FieldMap::new();
    fields.insert("goal".to_string(), ObjectType::StringMsg("object_pos_update".to_string()));
    fields.insert("object_id".to_string(), ObjectType::StringMsg("1".to_string()));
    fields.insert("motion_data".to_string(), ObjectType::MotionData(motion()));
    let r = server.process_message(&envelope(fields.clone()), addr, &table);
    assert_eq!(r.err(), Some(ProtocolError::InvalidObjectId));
    fields.insert("object_id".to_string(), ObjectType::Integer(1));
    fields.insert("motion_data".to_string(), ObjectType::Integer(1));
    let r = server.process_message(&envelope(fields), addr, &table);
    assert_eq!(r.err(), Some(ProtocolError::InvalidMotion));
    let mut expected = snapshot_a();
    expected.owner_id = 1;
    expected.object_id = 1;
    assert_eq!(server.get_synced_players()[&1], expected);
}

#[test]
fn relay_leaves_out_the_local_client_and_the_sender() {
    let table = rpc_fn_table();
    let mut server = Server::new();
    server.start();
    let a = peer(1, CLIENT_PORT);
    let b = peer(2, CLIENT_PORT);
    server.process_message(&envelope(sync_request()), a, &table).unwrap();
    server.process_message(&envelope(sync_request()), b, &table).unwrap();
    server.process_message(&envelope(sync_request()), a, &table).unwrap();
    let mut all = server.relay_targets(None);
    all.sort_by_key(|t| t.0);
    assert_eq!(all, vec![(1, a), (2, b), (3, a)]);
    assert_eq!(server.relay_targets(Some(a)), vec![(2, b)]);
    let mut from_b = server.relay_targets(Some(b));
    from_b.sort_by_key(|t| t.0);
    assert_eq!(from_b, vec![(1, a), (3, a)]);
    assert!(PeerAddr::loopback_authority().is_local_authority());
    assert!(!a.is_local_authority());
}

#[test]
fn remote_call_at_the_authority_acts_on_the_live_entity() {
    let table = rpc_fn_table();
    let mut server = Server::new();
    let addr = peer(1, CLIENT_PORT);
    server.process_message(&envelope(sync_request()), addr, &table).unwrap();
    server.process_message(&envelope(add_player_request(snapshot_a())), addr, &table).unwrap();
    let mut live = server.get_players()[&1];
    live.current_frame = 5;
    live.attack_frame = 2;
    server.insert_player(1, live);
    let call = RpcCallContainer {
        function_name: "animation_force".to_string(),
        params: vec![ObjectType::Integer(1), ObjectType::AnimationState(PlayerState::Attack1)],
    };
    let action = server.process_message(&envelope(rpc_call(call)), addr, &table).unwrap();
    assert!(matches!(action, ServerAction::Nothing));
    let after = server.get_players()[&1];
    assert_eq!(after.wrapper.state, PlayerState::Attack1);
    assert_eq!(after.current_frame, 0);
    assert_eq!(after.attack_frame, 0);
    assert_eq!(server.get_synced_players()[&1].state, PlayerState::Idle);
}

#[test]
fn remote_call_of_an_unregistered_function_at_the_authority() {
    let table = rpc_fn_table();
    let mut server = Server::new();
    let addr = peer(1, CLIENT_PORT);
    server.process_message(&envelope(sync_request()), addr, &table).unwrap();
    server.process_message(&envelope(add_player_request(snapshot_a())), addr, &table).unwrap();
    let players = server.get_players();
    let synced = server.get_synced_players();
    let call = RpcCallContainer {
        function_name: "test_rpc_no_param".to_string(),
        params: vec![],
    };
    let datagram = encode(&envelope(rpc_call(call)));
    let Exchange { outcome, datagrams, oversized } =
        server.receive_message(&datagram, addr, &table);
    assert_eq!(outcome.err(), Some(Dropped::Refused(ProtocolError::UnknownFunction)));
    assert!(datagrams.is_empty());
    assert!(!oversized);
    assert_eq!(server.get_players(), players);
    assert_eq!(server.get_synced_players(), synced);
    assert_eq!(server.get_user_map().len(), 1);
}

#[test]
fn datagram_in_datagram_out() {
    let table = rpc_fn_table();
    let mut server = Server::new();
    let addr = peer(1, 9);
    let ex = server.receive_message(&encode(&envelope(sync_request())), addr, &table);
    assert!(ex.outcome.is_ok());
    assert!(!ex.oversized);
    assert_eq!(ex.datagrams.len(), 1);
    assert_eq!(ex.datagrams[0].0, addr);
    let reply = decode(&ex.datagrams[0].1).unwrap();
    assert_eq!(reply.get_target(), -1);
    assert_eq!(reply.get_message_map().get("id"), Some(&ObjectType::Integer(1)));

    let ex = server.receive_message(&[1, 2, 3], addr, &table);
    assert_eq!(ex.outcome.err(), Some(Dropped::Malformed));
    assert!(ex.datagrams.is_empty());
    assert_eq!(server.get_user_map().len(), 1);
}

#[test]
fn reply_that_does_not_fit_a_datagram_is_withheld() {
    let table = rpc_fn_table();
    let mut server = Server::new();
    let addr = peer(1, CLIENT_PORT);
    let player = Player::construct_from_wrapper(snapshot_a());
    for _ in 0..26 {
        server.add_player(player, 1);
    }
    let pull = encode(&envelope(get_sync_players_request()));
    let ex = server.receive_message(&pull, addr, &table);
    assert!(matches!(ex.outcome, Ok(ServerAction::Reply(_))));
    assert!(ex.oversized);
    assert!(ex.datagrams.is_empty());
    assert!(server.send_message(&sync_request(), addr).is_ok());
}

#[test]
fn relay_becomes_one_datagram_for_each_target() {
    let server = Server::new();
    let a = peer(1, CLIENT_PORT);
    let b = peer(2, CLIENT_PORT);
    let action = server.send_motion_update(vec![(1, a), (2, b)], 4, motion());
    let (datagrams, oversized) = datagrams_for(&action, peer(9, 9));
    assert!(!oversized);
    assert_eq!(datagrams.len(), 2);
    assert_eq!(datagrams[0].0, a);
    assert_eq!(datagrams[1].0, b);
    assert_eq!(datagrams[0].1, datagrams[1].1);
    let message = decode(&datagrams[0].1).unwrap();
    assert_eq!(message.get_message_map().get("object_id"), Some(&ObjectType::Integer(4)));
    let call = RpcCallContainer { function_name: "f".to_string(), params: vec![] };
    let action = server.send_rpc(vec![(2, b)], call.clone());
    let (datagrams, _) = datagrams_for(&action, a);
    let message = decode(&datagrams[0].1).unwrap();
    assert_eq!(message.get_message_map().get("rpc_data"), Some(&ObjectType::RpcCall(call)));
    assert!(datagrams_for(&ServerAction::Nothing, a).0.is_empty());
}

#[test]
fn created_entity_is_announced_to_the_other_peers() {
    let table = rpc_fn_table();
    let mut server = Server::new();
    server.start();
    let a = peer(1, CLIENT_PORT);
    let b = peer(2, CLIENT_PORT);
    let c = peer(3, CLIENT_PORT);
    for addr in [a, b, c] {
        server.process_message(&envelope(sync_request()), addr, &table).unwrap();
    }
    let action =
        server.process_message(&envelope(add_player_request(snapshot_a())), b, &table).unwrap();
    let (reply, mut targets, message) = match action {
        ServerAction::ReplyAndRelay { reply, targets, message } => (reply, targets, message),
        _ => panic!("no announcement"),
    };
    assert_eq!(reply.get("id"), Some(&ObjectType::Integer(1)));
    targets.sort_by_key(|t| t.0);
    assert_eq!(targets, vec![(1, a), (3, c)]);
    let mut announced = snapshot_a();
    announced.owner_id = 2;
    announced.object_id = 1;
    assert_eq!(message, add_player_request(announced));
    assert_eq!(server.get_synced_players()[&1], announced);

    let datagram = encode(&envelope(add_player_request(snapshot_a())));
    let ex = server.receive_message(&datagram, a, &table);
    assert_eq!(ex.datagrams.len(), 3);
    assert_eq!(ex.datagrams[0].0, a);
    let answer = decode(&ex.datagrams[0].1).unwrap();
    assert_eq!(answer.get_message_map().get("id"), Some(&ObjectType::Integer(2)));
    let mut to: Vec<PeerAddr> = ex.datagrams[1..].iter().map(|d| d.0).collect();
    to.sort_by_key(|addr| addr.host == c.host);
    assert_eq!(to, vec![b, c]);
    let push = decode(&ex.datagrams[1].1).unwrap();
    let mut second = snapshot_a();
    second.owner_id = 1;
    second.object_id = 2;
    assert_eq!(push.get_message_map(), &add_player_request(second));

    let own = server.send_add_player(server.relay_targets(None), 2);
    assert!(matches!(own, ServerAction::Relay { .. }));
    assert!(matches!(server.send_add_player(vec![], 9), ServerAction::Nothing));
}

#[test]
fn object_id_of_every_stored_snapshot_is_its_key() {
    let table = rpc_fn_table();
    let mut server = Server::new();
    let player = Player::construct_from_wrapper(snapshot_a());
    let i = server.add_player(player, 7).unwrap();
    let j = server.add_player(player, 7).unwrap();
    assert_ne!(i, j);
    let synced = server.get_synced_players();
    assert_eq!(synced[&i].object_id, i);
    assert_eq!(synced[&j].object_id, j);
    assert_ne!(synced[&i].object_id, synced[&j].object_id);

    let addr = peer(1, CLIENT_PORT);
    server.process_message(&envelope(sync_request()), addr, &table).unwrap();
    for _ in 0..3 {
        server.process_message(&envelope(add_player_request(snapshot_a())), addr, &table).unwrap();
    }
    server.process_message(&envelope(object_pos_update(4, motion())), addr, &table).unwrap();
    let synced = server.get_synced_players();
    assert_eq!(synced.len(), 5);
    for (id, snapshot) in synced.iter() {
        assert_eq!(snapshot.object_id, *id);
    }
    for (id, live) in server.get_players().iter() {
        assert_eq!(live.wrapper.object_id, *id);
    }
}

#[test]
fn sender_gets_nothing_back_whatever_port_it_sends_from() {
    let table = rpc_fn_table();
    let mut server = Server::new();
    server.start();
    let a = peer(1, 40000);
    let b = peer(2, 40001);
    server.process_message(&envelope(sync_request()), a, &table).unwrap();
    server.process_message(&envelope(sync_request()), b, &table).unwrap();
    assert_eq!(a.reply_address(), peer(1, CLIENT_PORT));
    assert_eq!(server.relay_targets(Some(a)), vec![(2, peer(2, CLIENT_PORT))]);
    assert_eq!(server.relay_targets(Some(peer(1, 7))), vec![(2, peer(2, CLIENT_PORT))]);
    assert_eq!(server.relay_targets(Some(b)), vec![(1, peer(1, CLIENT_PORT))]);
    assert_eq!(server.relay_targets(Some(peer(3, CLIENT_PORT))).len(), 2);

    server.add_player(Player::construct_from_wrapper(snapshot_a()), 1);
    let report = envelope(object_pos_update(1, motion()));
    match server.process_message(&report, a, &table).unwrap() {
        ServerAction::Relay { targets, .. } => {
            assert_eq!(targets, vec![(2, peer(2, CLIENT_PORT))]);
        }
        _ => panic!("no relay"),
    }
}
