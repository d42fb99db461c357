use crate::game_handle::{added_player, AddPlayer, GameHandle};
use crate::player::{CharacterType, DataWrapper, Player, PlayerState};
use vstd::prelude::*;

verus! {

/// The snapshot that the main entity of a process starts from: an idle
/// character of the given kind at the given place, with no owner and no
/// object id yet.
pub open spec fn main_wrapper(character_type: CharacterType, position: (u32, u32)) -> DataWrapper {
    DataWrapper {
        state: PlayerState::Idle,
        owner_id: 0,
        object_id: -1i32,
        character_type,
        position_data: position,
        speed_data: (0, 0),
        facing_right: true,
    }
}

/// One step of the creation of the main entity of this process.
pub fn spawn_main_player(
    game_handle: &mut GameHandle,
    character_type: CharacterType,
    position: (u32, u32),
    attempts: u32,
) -> (step: Option<AddPlayer>)
    ensures
        final(game_handle).personal_id() == old(game_handle).personal_id(),
        step matches Some(s) && added_player(
            old(game_handle).role(),
            final(game_handle).role(),
            old(game_handle).personal_id(),
            Player::fresh(main_wrapper(character_type, position)),
            attempts,
            s,
        ),
{
    spawn_player(
        game_handle,
        DataWrapper {
            state: PlayerState::Idle,
            owner_id: 0,
            object_id: -1,
            character_type,
            position_data: position,
            speed_data: (0, 0),
            facing_right: true,
        },
        attempts,
    )
}

/// One step of the creation of an entity from a snapshot. Only a snapshot
/// that has no owner yet becomes an entity of this process: for another no
/// step is taken.
pub fn spawn_player(game_handle: &mut GameHandle, wrapper: DataWrapper, attempts: u32) -> (step:
    Option<AddPlayer>)
    ensures
        final(game_handle).personal_id() == old(game_handle).personal_id(),
        match step {
            Some(s) => wrapper.owner_id == 0 && added_player(
                old(game_handle).role(),
                final(game_handle).role(),
                old(game_handle).personal_id(),
                Player::fresh(wrapper),
                attempts,
                s,
            ),
            None => wrapper.owner_id != 0 && final(game_handle).role() == old(game_handle).role(),
        },
{
    let player = Player::construct_from_wrapper(wrapper);
    if player.wrapper.owner_id == 0 {
        Some(game_handle.add_player(player, attempts))
    } else {
        None
    }
}

} // verus!
