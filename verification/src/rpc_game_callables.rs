use crate::message::{ObjectType, Value};
use crate::player::{DataWrapper, Player, PlayerState};
use crate::rpc_funcs::{RpcCallable, RpcTable, RuntimeArg, RuntimeParams};
use vstd::prelude::*;

verus! {

/// The entity with its animation switched to `animation_state` and started
/// from the first frame.
pub open spec fn forced(player: Player, animation_state: PlayerState) -> Player {
    Player {
        wrapper: DataWrapper { state: animation_state, ..player.wrapper },
        current_frame: 0,
        attack_frame: 0,
        ..player
    }
}

pub fn animation_force(player: &mut Player, animation_state: PlayerState)
    ensures
        *final(player) == forced(*old(player), animation_state),
{
    player.wrapper.state = animation_state;
    player.current_frame = 0;
    player.attack_frame = 0;
}

/// `animation_force` on an entity handed over by value.
pub fn animation_forced(player: Player, animation_state: PlayerState) -> (after: Player)
    ensures
        after == forced(player, animation_state),
{
    let mut after = player;
    animation_force(&mut after, animation_state);
    after
}

/// The remote call that forces an entity's animation: `animation_force` on
/// the entity that the call names, with the animation state that follows
/// the entity's id among the parameters.
pub struct AnimationForce;

impl RpcCallable for AnimationForce {
    open spec fn needs(&self) -> RuntimeParams {
        RuntimeParams::Player
    }

    /// Where there is a runtime argument and the first parameter is an
    /// animation state, the entity in the first runtime argument has its
    /// animation forced; elsewhere nothing changes.
    open spec fn effect(
        &self,
        params: Seq<Value>,
        before: Seq<RuntimeArg>,
        after: Seq<RuntimeArg>,
    ) -> bool {
        if before.len() > 0 && params.len() > 0 && params[0] is Animation {
            after == before.update(
                0,
                RuntimeArg::Player(forced(before[0].player(), params[0]->Animation_0)),
            )
        } else {
            after == before
        }
    }

    fn call(&self, params: Vec<ObjectType>, runtime_args: &mut [RuntimeArg]) {
        proof {
            crate::message::lemma_values_of(params@);
        }
        if runtime_args.len() == 0 {
            return;
        }
        if params.len() == 0 {
            return;
        }
        match &params[0] {
            ObjectType::AnimationState(state) => {
                let RuntimeArg::Player(player) = runtime_args[0];
                runtime_args[0] = RuntimeArg::Player(animation_forced(player, *state));
            },
            _ => {},
        }
    }

    fn get_runtime_params(&self) -> (r: RuntimeParams) {
        RuntimeParams::Player
    }
}

/// The functions that this game lets the other side call, each under its
/// name: `animation_force`, and no other.
pub fn rpc_fn_table() -> (table: RpcTable<AnimationForce>)
    ensures
        table.lookup("animation_force"@) == Some(AnimationForce),
        forall|name: Seq<char>| name != "animation_force"@ ==> table.lookup(name) is None,
{
    RpcTable::new().register("animation_force", AnimationForce)
}

} // verus!
