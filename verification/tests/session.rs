use rust_mp::address::{HostAddr, PeerAddr};
use rust_mp::catalogue::{
    add_player_request, confirm_connect, get_sync_players_request, object_pos_update,
    ret_player_obj_id, ret_sync_players, rpc_call, sync_request,
};
use rust_mp::game_handle::{next_step, AddPlayer, GameHandle, Handshake, MAX_ATTEMPTS};
use rust_mp::message::{Message, MotionDataContainer, ObjectType, RpcCallContainer};
use rust_mp::network_sync::NetworkSync;
use rust_mp::player::{CharacterType, DataWrapper, Player, PlayerState};
use rust_mp::player_spawner::{spawn_main_player, spawn_player};
use rust_mp::protocol::ProtocolError;
use rust_mp::rpc_game_callables::rpc_fn_table;
use rust_mp::server::ServerAction;
use rust_mp::wire::{decode, encode};
use rust_mp::CLIENT_PORT;
use std::collections::HashMap;

fn main_player() -> Player {
    Player::construct_from_wrapper(DataWrapper {
        state: PlayerState::Idle,
        owner_id: 0,
        object_id: -1,
        character_type: CharacterType::Witcher,
        position_data: (15.0f32.to_bits(), 15.0f32.to_bits()),
        speed_data: (0, 0),
        facing_right: true,
    })
}

fn motion() -> MotionDataContainer {
    MotionDataContainer::new(1, 2, 3, 4, PlayerState::Running, false)
}

fn deliver(handle: &mut GameHandle, fields: rust_mp::message::FieldMap) {
    let table = rpc_fn_table();
    let datagram = encode(&Message::new(-1, fields).unwrap());
    let sender = PeerAddr::new(HostAddr::V4(1), 13882);
    let ex = handle.receive_message(&datagram, sender, &table);
    assert!(ex.outcome.is_ok());
}

#[test]
fn handshake_asks_five_times_and_then_fails() {
    assert_eq!(MAX_ATTEMPTS, 5);
    assert_eq!(next_step(0, false), Handshake::Wait);
    assert_eq!(next_step(0, true), Handshake::Wait);
    for attempts in 1..5 {
        assert_eq!(next_step(attempts, false), Handshake::Wait);
        assert_eq!(next_step(attempts, true), Handshake::Done);
    }
    assert_eq!(next_step(5, true), Handshake::Done);
    assert_eq!(next_step(5, false), Handshake::Failed);
    assert_eq!(next_step(u32::MAX, false), Handshake::Failed);
}

#[test]
fn peer_without_an_answer_fails_after_five_sync_requests() {
    let mut handle = GameHandle::construct_client();
    let mut attempts = 0;
    let outcome = loop {
        match handle.launch_client(attempts) {
            Handshake::Wait => attempts += 1,
            other => break other,
        }
    };
    assert_eq!(outcome, Handshake::Failed);
    assert_eq!(attempts, 5);
    let sent = handle.flush();
    assert_eq!(sent.len(), 5);
    for datagram in sent {
        let message = decode(&datagram.unwrap()).unwrap();
        assert_eq!(message.get_message_map(), &sync_request());
    }
    assert_eq!(handle.get_personal_id(), 0);
}

#[test]
fn peer_is_bound_once_the_id_has_come() {
    let mut handle = GameHandle::construct_client();
    assert_eq!(handle.launch_client(0), Handshake::Wait);
    assert_eq!(handle.launch_client(1), Handshake::Wait);
    deliver(&mut handle, confirm_connect(3));
    assert_eq!(handle.get_personal_id(), 0);
    assert_eq!(handle.launch_client(2), Handshake::Done);
    assert_eq!(handle.get_personal_id(), 3);
    assert_eq!(handle.flush().len(), 2);
}

#[test]
fn authority_has_no_handshake() {
    let mut handle = GameHandle::construct_server();
    assert_eq!(handle.launch_client(0), Handshake::Failed);
    assert_eq!(handle.request_synced_players(0), Handshake::Failed);
    assert!(handle.flush().is_empty());
    assert_eq!(handle.get_personal_id(), 0);
}

#[test]
fn authority_creates_its_entity_at_once() {
    let mut handle = GameHandle::construct_server();
    assert_eq!(handle.add_player(main_player(), 0), AddPlayer::Created(1));
    assert_eq!(handle.add_player(main_player(), 0), AddPlayer::Created(2));
    let mut expected = main_player();
    expected.set_object_id(2);
    expected.set_owner(0);
    assert_eq!(expected.get_object_id(), 2);
    assert_eq!(expected.get_owner(), 0);
    assert_eq!(handle.get_player_wrapper_map()[&2], expected);
    assert_eq!(handle.get_network_wrappers()[&2], expected.wrapper);
    assert_eq!(handle.get_network_wrappers().len(), 2);
}

#[test]
fn peer_creates_its_entity_through_the_authority() {
    let mut handle = GameHandle::construct_client();
    handle.launch_client(0);
    deliver(&mut handle, confirm_connect(2));
    assert_eq!(handle.launch_client(1), Handshake::Done);
    handle.flush();

    assert_eq!(handle.add_player(main_player(), 0), AddPlayer::Wait);
    assert_eq!(handle.add_player(main_player(), 1), AddPlayer::Wait);
    let sent = handle.flush();
    assert_eq!(sent.len(), 2);
    let message = decode(sent[0].as_ref().unwrap()).unwrap();
    assert_eq!(message.get_message_map(), &add_player_request(main_player().wrapper));
    deliver(&mut handle, ret_player_obj_id(7));
    assert_eq!(handle.add_player(main_player(), 2), AddPlayer::Created(7));
    let mut expected = main_player();
    expected.wrapper.object_id = 7;
    expected.wrapper.owner_id = 2;
    assert_eq!(handle.get_player_wrapper_map()[&7], expected);
    assert_eq!(handle.get_network_wrappers()[&7], expected.wrapper);
    assert!(handle.flush().is_empty());
}

#[test]
fn peer_gives_up_on_an_entity_after_five_requests() {
    let mut handle = GameHandle::construct_client();
    for attempts in 0..5 {
        assert_eq!(handle.add_player(main_player(), attempts), AddPlayer::Wait);
    }
    assert_eq!(handle.add_player(main_player(), 5), AddPlayer::Failed);
    assert_eq!(handle.flush().len(), 5);
    assert!(handle.get_player_wrapper_map().is_empty());
}

#[test]
fn peer_pulls_the_entity_map_and_adopts_it() {
    let mut handle = GameHandle::construct_client();
    assert_eq!(handle.request_synced_players(0), Handshake::Wait);
    let sent = handle.flush();
    let message = decode(sent[0].as_ref().unwrap()).unwrap();
    assert_eq!(message.get_message_map(), &get_sync_players_request());
    assert_eq!(handle.request_synced_players(1), Handshake::Wait);
    let mut a = main_player().wrapper;
    a.object_id = 1;
    a.owner_id = 1;
    let mut players = HashMap::new();
    players.insert(1, a);
    deliver(&mut handle, ret_sync_players(players.clone()));
    assert!(handle.get_player_wrapper_map().is_empty());
    assert_eq!(handle.request_synced_players(2), Handshake::Done);
    assert_eq!(handle.get_network_wrappers(), players);
    assert_eq!(handle.get_player_wrapper_map()[&1], Player::construct_from_wrapper(a));
    for attempts in 0..5 {
        let mut empty = GameHandle::construct_client();
        assert_eq!(empty.request_synced_players(attempts), Handshake::Wait);
    }
    assert_eq!(GameHandle::construct_client().request_synced_players(5), Handshake::Failed);
}

#[test]
fn authority_relays_its_own_motion_to_every_peer() {
    let table = rpc_fn_table();
    let mut handle = GameHandle::construct_server();
    let a = PeerAddr::new(HostAddr::V4(9), 1);
    let b = PeerAddr::new(HostAddr::V6(9), 1);
    let sync = encode(&Message::new(-1, sync_request()).unwrap());
    handle.receive_message(&sync, a, &table);
    handle.receive_message(&sync, b, &table);
    handle.add_player(main_player(), 0);
    let action = handle.send_motion_update(1, motion()).unwrap();
    match action {
        ServerAction::Relay { mut targets, message } => {
            targets.sort_by_key(|t| t.0);
            assert_eq!(
                targets,
                vec![(1, a.with_port(CLIENT_PORT)), (2, b.with_port(CLIENT_PORT))]
            );
            assert_eq!(message.get("object_id"), Some(&ObjectType::Integer(1)));
            assert_eq!(message.get("motion_data"), Some(&ObjectType::MotionData(motion())));
        }
        _ => panic!("no relay"),
    }
    assert_eq!(handle.get_network_wrappers()[&1].generate_motion_data(), motion());
    assert_eq!(handle.get_player_wrapper_map()[&1].speed, (3, 4));
    assert_eq!(
        handle.send_motion_update(5, motion()).err(),
        Some(ProtocolError::UnknownObject(5))
    );
}

#[test]
fn peer_queues_its_own_motion_for_the_authority() {
    let mut handle = GameHandle::construct_client();
    let mut a = main_player().wrapper;
    a.object_id = 1;
    let mut players = HashMap::new();
    players.insert(1, a);
    deliver(&mut handle, ret_sync_players(players));
    let action = handle.send_motion_update(1, motion()).unwrap();
    assert!(matches!(action, ServerAction::Nothing));
    assert_eq!(handle.get_network_wrappers()[&1].generate_motion_data(), motion());
    let sent = handle.flush();
    assert_eq!(sent.len(), 1);
    let message = decode(sent[0].as_ref().unwrap()).unwrap();
    assert_eq!(message.get_message_map(), &object_pos_update(1, motion()));
    assert_eq!(
        handle.send_motion_update(2, motion()).err(),
        Some(ProtocolError::UnknownObject(2))
    );
    assert!(handle.flush().is_empty());
}

#[test]
fn remote_call_is_relayed_by_the_authority_and_queued_by_a_peer() {
    let table = rpc_fn_table();
    let call = RpcCallContainer {
        function_name: "test_rpc_params".to_string(),
        params: vec![ObjectType::Integer(12345)],
    };
    let mut authority = GameHandle::construct_server();
    let a = PeerAddr::new(HostAddr::V4(9), 1);
    let sync = encode(&Message::new(-1, sync_request()).unwrap());
    authority.receive_message(&sync, a, &table);
    match authority.send_rpc(call.clone()) {
        ServerAction::Relay { targets, message } => {
            assert_eq!(targets, vec![(1, a.with_port(CLIENT_PORT))]);
            assert_eq!(message, rpc_call(call.clone()));
        }
        _ => panic!("no relay"),
    }
    let mut peer = GameHandle::construct_client();
    assert!(matches!(peer.send_rpc(call.clone()), ServerAction::Nothing));
    let sent = peer.flush();
    let message = decode(sent[0].as_ref().unwrap()).unwrap();
    assert_eq!(message.get_message_map(), &rpc_call(call));
}

#[test]
fn spawner_creates_entities_without_an_owner_only() {
    let mut handle = GameHandle::construct_server();
    let position = (15.0f32.to_bits(), 15.0f32.to_bits());
    let step = spawn_main_player(&mut handle, CharacterType::Witcher, position, 0);
    assert_eq!(step, Some(AddPlayer::Created(1)));
    let mut expected = main_player();
    expected.wrapper.object_id = 1;
    assert_eq!(handle.get_player_wrapper_map()[&1], expected);
    let mut foreign = main_player().wrapper;
    foreign.owner_id = 3;
    assert_eq!(spawn_player(&mut handle, foreign, 0), None);
    assert_eq!(handle.get_network_wrappers().len(), 1);
    assert_eq!(spawn_player(&mut handle, main_player().wrapper, 0), Some(AddPlayer::Created(2)));
}

#[test]
fn authority_announces_its_own_entity_to_every_peer() {
    let table = rpc_fn_table();
    let mut handle = GameHandle::construct_server();
    let a = PeerAddr::new(HostAddr::V4(9), 1);
    let sync = encode(&Message::new(-1, sync_request()).unwrap());
    handle.receive_message(&sync, a, &table);
    assert!(matches!(handle.announce_player(1), ServerAction::Nothing));
    assert_eq!(handle.add_player(main_player(), 0), AddPlayer::Created(1));
    match handle.announce_player(1) {
        ServerAction::Relay { targets, message } => {
            assert_eq!(targets, vec![(1, a.with_port(CLIENT_PORT))]);
            let mut announced = main_player().wrapper;
            announced.object_id = 1;
            assert_eq!(message, add_player_request(announced));
        }
        _ => panic!("no announcement"),
    }
    assert!(matches!(GameHandle::construct_client().announce_player(1), ServerAction::Nothing));
}

#[test]
fn announced_entity_reaches_the_mirror_of_a_peer() {
    let table = rpc_fn_table();
    let mut authority = GameHandle::construct_server();
    let a = PeerAddr::new(HostAddr::V4(9), CLIENT_PORT);
    let b = PeerAddr::new(HostAddr::V4(10), CLIENT_PORT);
    let sync = encode(&Message::new(-1, sync_request()).unwrap());
    authority.receive_message(&sync, a, &table);
    authority.receive_message(&sync, b, &table);
    let request = encode(&Message::new(-1, add_player_request(main_player().wrapper)).unwrap());
    let ex = authority.receive_message(&request, a, &table);
    let push = ex.datagrams.iter().find(|d| d.0 == b).unwrap();
    let mut peer = GameHandle::construct_client();
    let got = peer.receive_message(&push.1, PeerAddr::new(HostAddr::V4(1), 13882), &table);
    assert!(got.outcome.is_ok());
    let mut expected = main_player().wrapper;
    expected.owner_id = 1;
    expected.object_id = 1;
    assert_eq!(peer.get_network_wrappers()[&1], expected);
    assert_eq!(peer.get_player_wrapper_map()[&1], Player::construct_from_wrapper(expected));
}

#[test]
fn cycle_takes_the_datagram_in_and_then_empties_the_outbox() {
    let table = rpc_fn_table();
    let mut peer = GameHandle::construct_client();
    peer.launch_client(0);
    let sender = PeerAddr::new(HostAddr::V4(1), 13882);

    let idle = peer.poll_cycle(None, &table);
    assert!(idle.exchange.is_none());
    assert_eq!(idle.queued.len(), 1);
    assert_eq!(decode(idle.queued[0].as_ref().unwrap()).unwrap().get_message_map(), &sync_request());

    peer.add_player(main_player(), 0);
    let answer = encode(&Message::new(-1, confirm_connect(6)).unwrap());
    let cycle = peer.poll_cycle(Some((&answer, sender)), &table);
    let exchange = cycle.exchange.unwrap();
    assert!(matches!(exchange.outcome, Ok(ServerAction::Nothing)));
    assert!(exchange.datagrams.is_empty());
    assert_eq!(cycle.queued.len(), 1);
    assert_eq!(peer.launch_client(1), Handshake::Done);
    assert_eq!(peer.get_personal_id(), 6);
    assert!(peer.poll_cycle(Some((&[9, 9], sender)), &table).queued.is_empty());

    let mut authority = GameHandle::construct_server();
    let sync = encode(&Message::new(-1, sync_request()).unwrap());
    let cycle = authority.poll_cycle(Some((&sync, sender)), &table);
    assert!(cycle.queued.is_empty());
    let exchange = cycle.exchange.unwrap();
    assert_eq!(exchange.datagrams.len(), 1);
    assert_eq!(exchange.datagrams[0].0, sender);
    assert!(authority.poll_cycle(None, &table).exchange.is_none());
}
