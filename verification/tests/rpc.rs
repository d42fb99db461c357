use rust_mp::message::{ObjectType, RpcCallContainer};
use rust_mp::player::{CharacterType, DataWrapper, Player, PlayerState};
use rust_mp::protocol::ProtocolError;
use rust_mp::rpc_funcs::{
    dispatch_rpc, invoke_rpc, IntParamFn, NoParamFn, PlayerStateFn, RpcCallable, RpcTable,
    RuntimeArg, RuntimeParams,
};
use rust_mp::rpc_game_callables::{animation_force, animation_forced, rpc_fn_table, AnimationForce};
use std::collections::HashMap;
use std::sync::atomic::{AtomicI32, AtomicUsize, Ordering};
use std::sync::Arc;

fn player(object_id: i32) -> Player {
    let mut p = Player::construct_from_wrapper(DataWrapper {
        state: PlayerState::Running,
        owner_id: 1,
        object_id,
        character_type: CharacterType::Witcher,
        position_data: (0, 0),
        speed_data: (0, 0),
        facing_right: true,
    });
    p.current_frame = 4;
    p.attack_frame = 3;
    p
}

/// Records how it was called.
struct Probe {
    needs_player: bool,
    calls: Arc<AtomicUsize>,
    params_seen: Arc<AtomicUsize>,
    args_seen: Arc<AtomicUsize>,
    entity_seen: Arc<AtomicI32>,
}

impl Probe {
    fn new(needs_player: bool) -> Probe {
        Probe {
            needs_player,
            calls: Arc::new(AtomicUsize::new(0)),
            params_seen: Arc::new(AtomicUsize::new(usize::MAX)),
            args_seen: Arc::new(AtomicUsize::new(usize::MAX)),
            entity_seen: Arc::new(AtomicI32::new(0)),
        }
    }
}

impl RpcCallable for Probe {
    fn call(&self, params: Vec<ObjectType>, runtime_args: &mut [RuntimeArg]) {
        self.calls.fetch_add(1, Ordering::SeqCst);
        self.params_seen.store(params.len(), Ordering::SeqCst);
        self.args_seen.store(runtime_args.len(), Ordering::SeqCst);
        if let Some(arg) = runtime_args.get_mut(0) {
            if let Some(p) = arg.as_player_mut() {
                self.entity_seen.store(p.wrapper.object_id, Ordering::SeqCst);
                p.health = 1;
            }
        }
    }

    fn get_runtime_params(&self) -> RuntimeParams {
        if self.needs_player {
            RuntimeParams::Player
        } else {
            RuntimeParams::NoArgs
        }
    }
}

#[test]
fn entity_parameter_is_removed_before_the_call() {
    let probe = Probe::new(true);
    let (calls, params_seen, args_seen, entity_seen) = (
        probe.calls.clone(),
        probe.params_seen.clone(),
        probe.args_seen.clone(),
        probe.entity_seen.clone(),
    );
    let table = RpcTable::new().register("probe", probe);
    let mut players = HashMap::new();
    players.insert(5, player(5));
    players.insert(6, player(6));
    let call = RpcCallContainer {
        function_name: "probe".to_string(),
        params: vec![ObjectType::Integer(5)],
    };
    assert_eq!(dispatch_rpc(&table, &call, &mut players), Ok(()));
    assert_eq!(calls.load(Ordering::SeqCst), 1);
    assert_eq!(params_seen.load(Ordering::SeqCst), 0);
    assert_eq!(args_seen.load(Ordering::SeqCst), 1);
    assert_eq!(entity_seen.load(Ordering::SeqCst), 5);
    assert_eq!(players[&5].health, 1);
    assert_eq!(players[&6], player(6));

    let call = RpcCallContainer {
        function_name: "probe".to_string(),
        params: vec![
            ObjectType::Integer(6),
            ObjectType::Integer(0),
            ObjectType::StringMsg("x".to_string()),
        ],
    };
    assert_eq!(dispatch_rpc(&table, &call, &mut players), Ok(()));
    assert_eq!(params_seen.load(Ordering::SeqCst), 2);
    assert_eq!(entity_seen.load(Ordering::SeqCst), 6);
}

#[test]
fn call_that_needs_nothing_gets_every_parameter() {
    let probe = Probe::new(false);
    let (calls, params_seen, args_seen) =
        (probe.calls.clone(), probe.params_seen.clone(), probe.args_seen.clone());
    let table = RpcTable::new().register("probe", probe);
    let mut players = HashMap::new();
    players.insert(5, player(5));
    let call = RpcCallContainer {
        function_name: "probe".to_string(),
        params: vec![ObjectType::Integer(5), ObjectType::Integer(6)],
    };
    assert_eq!(dispatch_rpc(&table, &call, &mut players), Ok(()));
    assert_eq!(calls.load(Ordering::SeqCst), 1);
    assert_eq!(params_seen.load(Ordering::SeqCst), 2);
    assert_eq!(args_seen.load(Ordering::SeqCst), 0);
    assert_eq!(players[&5], player(5));
}

#[test]
fn refused_call_is_not_carried_out() {
    let probe = Probe::new(true);
    let calls = probe.calls.clone();
    let table = RpcTable::new().register("probe", probe);
    let mut players = HashMap::new();
    players.insert(5, player(5));
    let unknown = RpcCallContainer { function_name: "other".to_string(), params: vec![] };
    assert_eq!(dispatch_rpc(&table, &unknown, &mut players), Err(ProtocolError::UnknownFunction));
    let no_id = RpcCallContainer {
        function_name: "probe".to_string(),
        params: vec![ObjectType::StringMsg("5".to_string())],
    };
    assert_eq!(dispatch_rpc(&table, &no_id, &mut players), Err(ProtocolError::MissingEntityParam));
    let no_entity = RpcCallContainer {
        function_name: "probe".to_string(),
        params: vec![ObjectType::Integer(4)],
    };
    assert_eq!(dispatch_rpc(&table, &no_entity, &mut players), Err(ProtocolError::UnknownEntity(4)));
    assert_eq!(calls.load(Ordering::SeqCst), 0);
    assert_eq!(players[&5], player(5));
}

#[test]
fn invoke_rpc_calls_by_name() {
    let probe = Probe::new(true);
    let (calls, params_seen) = (probe.calls.clone(), probe.params_seen.clone());
    let table = RpcTable::new().register("probe", probe);
    let mut args = vec![RuntimeArg::Player(player(2))];
    let call = RpcCallContainer {
        function_name: "probe".to_string(),
        params: vec![ObjectType::Integer(1), ObjectType::Integer(2)],
    };
    assert_eq!(invoke_rpc(&table, &call, &mut args), Ok(()));
    assert_eq!(calls.load(Ordering::SeqCst), 1);
    assert_eq!(params_seen.load(Ordering::SeqCst), 2);
    assert_eq!(args[0].as_player_mut().unwrap().health, 1);
    let unknown = RpcCallContainer { function_name: "none".to_string(), params: vec![] };
    assert_eq!(invoke_rpc(&table, &unknown, &mut args), Err(ProtocolError::UnknownFunction));
    assert_eq!(calls.load(Ordering::SeqCst), 1);
}

#[test]
fn registering_a_name_again_replaces_the_callable() {
    let first = Probe::new(true);
    let second = Probe::new(false);
    let (first_calls, second_calls) = (first.calls.clone(), second.calls.clone());
    let table = RpcTable::new()
        .register("a", first)
        .register("b", Probe::new(false))
        .register("a", second);
    assert!(table.get("a").is_some());
    assert!(table.get("b").is_some());
    assert!(table.get("c").is_none());
    assert_eq!(table.get("a").unwrap().get_runtime_params(), RuntimeParams::NoArgs);
    let mut players = HashMap::new();
    let call = RpcCallContainer { function_name: "a".to_string(), params: vec![] };
    assert_eq!(dispatch_rpc(&table, &call, &mut players), Ok(()));
    assert_eq!(first_calls.load(Ordering::SeqCst), 0);
    assert_eq!(second_calls.load(Ordering::SeqCst), 1);
}

#[test]
fn shipped_table_holds_animation_force() {
    let table = rpc_fn_table();
    assert_eq!(
        table.get("animation_force").map(|c| c.get_runtime_params()),
        Some(RuntimeParams::Player)
    );
    assert!(table.get("test_rpc_no_param").is_none());
    assert!(table.get("animation_Force").is_none());
}

#[test]
fn animation_force_restarts_the_animation() {
    let mut p = player(1);
    animation_force(&mut p, PlayerState::Attack2);
    let mut expected = player(1);
    expected.wrapper.state = PlayerState::Attack2;
    expected.current_frame = 0;
    expected.attack_frame = 0;
    assert_eq!(p, expected);
    assert_eq!(animation_forced(player(1), PlayerState::Attack2), expected);

    let mut args = vec![RuntimeArg::Player(player(1)), RuntimeArg::Player(player(2))];
    AnimationForce.call(vec![ObjectType::AnimationState(PlayerState::Attack2)], &mut args);
    assert_eq!(args, vec![RuntimeArg::Player(expected), RuntimeArg::Player(player(2))]);
    AnimationForce.call(vec![ObjectType::Integer(4)], &mut args);
    AnimationForce.call(vec![], &mut args);
    assert_eq!(args[0], RuntimeArg::Player(expected));
    AnimationForce.call(vec![ObjectType::AnimationState(PlayerState::Idle)], &mut []);
}

fn count_call() {
    CALLS.fetch_add(1, Ordering::SeqCst);
}

fn keep_int(v: i32) {
    LAST_INT.store(v, Ordering::SeqCst);
}

static CALLS: AtomicUsize = AtomicUsize::new(0);
static LAST_INT: AtomicI32 = AtomicI32::new(0);

#[test]
fn function_wrappers_hand_on_what_they_are_given() {
    let none = NoParamFn::new(count_call);
    assert_eq!(none.get_runtime_params(), RuntimeParams::NoArgs);
    none.call(vec![ObjectType::Integer(1)], &mut []);
    assert_eq!(CALLS.load(Ordering::SeqCst), 1);

    let int = IntParamFn::new(keep_int);
    assert_eq!(int.get_runtime_params(), RuntimeParams::NoArgs);
    int.call(vec![ObjectType::Integer(12345)], &mut []);
    assert_eq!(LAST_INT.load(Ordering::SeqCst), 12345);
    int.call(vec![ObjectType::StringMsg("7".to_string())], &mut []);
    int.call(vec![], &mut []);
    assert_eq!(LAST_INT.load(Ordering::SeqCst), 12345);

    let state = PlayerStateFn::new(animation_forced);
    assert_eq!(state.get_runtime_params(), RuntimeParams::Player);
    let mut args = vec![RuntimeArg::Player(player(3))];
    state.call(vec![ObjectType::AnimationState(PlayerState::Jumping)], &mut args);
    assert_eq!(args[0], RuntimeArg::Player(animation_forced(player(3), PlayerState::Jumping)));
    state.call(vec![ObjectType::Integer(1)], &mut args);
    state.call(vec![ObjectType::AnimationState(PlayerState::Idle)], &mut []);
    assert_eq!(args[0], RuntimeArg::Player(animation_forced(player(3), PlayerState::Jumping)));
}
