//! Night actions: the Mafia's kill, the Detective's investigation and
//! the Doctor's heal.

use vstd::prelude::*;

use crate::types::GameState;
use crate::types::GamePhase;
use crate::types::Role;
use crate::types::Game;
use crate::types::GameView;
use crate::types::ErrorCode;
use crate::types::NightActionType;
use crate::types::has_player;
use crate::types::has_living_player;
use crate::types::addr_index;
use crate::types::player_of;
use crate::types::lemma_addr_index_agrees;
use crate::types::find_player;
use crate::voting::killed_player;

verus! {

/// The session after a Mafia kill resolves against `t`.
pub open spec fn night_killed_game(g: GameView, t: u64) -> GameView {
    GameView {
        players: g.players.update(addr_index(g.players, t), killed_player(player_of(g.players, t))),
        eliminated_players: g.eliminated_players.push(t),
        ..g
    }
}

/// Applies a role-specific night action by a living actor. A Mafia
/// kill against a living target resolves at once, each acting Mafia
/// member independently; a kill without a target, an investigation and
/// a heal validate the actor's role but change nothing on the record
/// (the investigation's result is delivered off the record, and the
/// heal has no recorded effect). The host reports the action either
/// way.
pub fn night_action(
    game: &mut Game,
    actor: u64,
    action_type: NightActionType,
    target: Option<u64>,
) -> (r: Result<(), ErrorCode>)
    requires
        old(game)@.wf(),
    ensures
        final(game)@.wf(),
        old(game)@.state != GameState::Active
            ==> r == Err::<(), ErrorCode>(ErrorCode::GameNotActive) && *final(game) == *old(game),
        old(game)@.state == GameState::Active && old(game)@.current_phase != GamePhase::Night
            ==> r == Err::<(), ErrorCode>(ErrorCode::NotNightPhase) && *final(game) == *old(game),
        old(game)@.state == GameState::Active && old(game)@.current_phase == GamePhase::Night
            && !has_player(old(game)@.players, actor)
            ==> r == Err::<(), ErrorCode>(ErrorCode::PlayerNotInGame) && *final(game) == *old(game),
        old(game)@.state == GameState::Active && old(game)@.current_phase == GamePhase::Night
            && has_player(old(game)@.players, actor)
            && !has_living_player(old(game)@.players, actor)
            ==> r == Err::<(), ErrorCode>(ErrorCode::PlayerDead) && *final(game) == *old(game),
        old(game)@.state == GameState::Active && old(game)@.current_phase == GamePhase::Night
            && has_living_player(old(game)@.players, actor)
            && player_of(old(game)@.players, actor).role != expected_role(action_type)
            ==> r == Err::<(), ErrorCode>(ErrorCode::InvalidRole) && *final(game) == *old(game),
        old(game)@.state == GameState::Active && old(game)@.current_phase == GamePhase::Night
            && has_living_player(old(game)@.players, actor)
            && player_of(old(game)@.players, actor).role == expected_role(action_type)
            && !(action_type == NightActionType::MafiaKill && target is Some)
            ==> r == Ok::<(), ErrorCode>(()) && *final(game) == *old(game),
        old(game)@.state == GameState::Active && old(game)@.current_phase == GamePhase::Night
            && has_living_player(old(game)@.players, actor)
            && player_of(old(game)@.players, actor).role == Role::Mafia
            && action_type == NightActionType::MafiaKill
            ==> (target matches Some(t) ==> {
                &&& !has_living_player(old(game)@.players, t)
                    ==> r == Err::<(), ErrorCode>(ErrorCode::InvalidTarget) && *final(game)
                        == *old(game)
                &&& has_living_player(old(game)@.players, t)
                    ==> r == Ok::<(), ErrorCode>(()) && final(game)@ == night_killed_game(
                        old(game)@,
                        t,
                    )
            }),
        forall|i: int| 0 <= i < old(game)@.players.len() && !old(game)@.players[i].is_alive
            ==> !final(game)@.players[i].is_alive,
        old(game)@.eliminated_players.is_prefix_of(final(game)@.eliminated_players),
{
    if !matches!(game.state, GameState::Active) {
        return Err(ErrorCode::GameNotActive);
    }
    if !matches!(game.current_phase, GamePhase::Night) {
        return Err(ErrorCode::NotNightPhase);
    }
    let actor_index = match find_player(&game.players, actor) {
        Some(k) => k,
        None => {
            return Err(ErrorCode::PlayerNotInGame);
        },
    };
    proof {
        lemma_addr_index_agrees(game@.players, actor, actor_index as int);
    }
    if !game.players[actor_index].is_alive {
        proof {
            assert forall|i: int|
                0 <= i < game@.players.len() && game@.players[i].address == actor
                implies !game@.players[i].is_alive by {
                lemma_addr_index_agrees(game@.players, actor, i);
            }
        }
        return Err(ErrorCode::PlayerDead);
    }
    let wanted = match action_type {
        NightActionType::MafiaKill => Role::Mafia,
        NightActionType::DetectiveInvestigate => Role::Detective,
        NightActionType::DoctorHeal => Role::Doctor,
    };
    if game.players[actor_index].role != wanted {
        return Err(ErrorCode::InvalidRole);
    }
    if matches!(action_type, NightActionType::MafiaKill) {
        if let Some(target_addr) = target {
            let target_index = match find_player(&game.players, target_addr) {
                Some(k) => k,
                None => {
                    proof {
                        assert(!has_living_player(game@.players, target_addr));
                    }
                    return Err(ErrorCode::InvalidTarget);
                },
            };
            proof {
                lemma_addr_index_agrees(game@.players, target_addr, target_index as int);
            }
            if !game.players[target_index].is_alive {
                proof {
                    assert forall|i: int|
                        0 <= i < game@.players.len() && game@.players[i].address == target_addr
                        implies !game@.players[i].is_alive by {
                        lemma_addr_index_agrees(game@.players, target_addr, i);
                    }
                }
                return Err(ErrorCode::InvalidTarget);
            }
            let ghost pre = old(game)@;
            let mut p = game.players[target_index];
            p.is_alive = false;
            game.players.set(target_index, p);
            game.eliminated_players.push(target_addr);
            proof {
                assert(game@ =~= night_killed_game(pre, target_addr));
                assert forall|a: int, b: int|
                    0 <= a < b < game@.players.len() implies game@.players[a].address
                    != game@.players[b].address by {
                    assert(pre.players[a].address != pre.players[b].address);
                }
            }
        }
    }
    Ok(())
}

/// The role an action type demands of its actor.
pub open spec fn expected_role(action_type: NightActionType) -> Role {
    match action_type {
        NightActionType::MafiaKill => Role::Mafia,
        NightActionType::DetectiveInvestigate => Role::Detective,
        NightActionType::DoctorHeal => Role::Doctor,
    }
}

} // verus!
