//! Payout of the escrowed pot to members of the winning faction.

use vstd::prelude::*;

use crate::types::GameState;
use crate::types::Role;
use crate::types::Player;
use crate::types::Game;
use crate::types::ErrorCode;
use crate::types::Winner;

verus! {

/// The claimer stands on the winning side: still alive and of the
/// winning faction (any role but Mafia counts as Town).
pub open spec fn on_winning_side(p: Player, w: Winner) -> bool {
    p.is_alive && (match w {
        Winner::Mafia => p.role == Role::Mafia,
        Winner::Town => p.role != Role::Mafia,
    })
}

/// How many roster entries stand on the winning side.
pub open spec fn winner_count(s: Seq<Player>, w: Winner) -> nat
    decreases s.len(),
{
    if s.len() == 0 {
        0
    } else {
        winner_count(s.drop_last(), w) + if on_winning_side(s.last(), w) {
            1nat
        } else {
            0nat
        }
    }
}

/// Some roster entry with this address stands on the winning side.
pub open spec fn is_winning_claimer(s: Seq<Player>, w: Winner, a: u64) -> bool {
    exists|i: int| 0 <= i < s.len() && s[i].address == a && on_winning_side(s[i], w)
}

/// The pot: every seat's entry fee, winners and losers alike.
pub open spec fn pot_amount(entry_fee: u64, s: Seq<Player>) -> int {
    entry_fee * s.len()
}

/// One winner's share: the pot split evenly among the winning side,
/// rounded down; the remainder of an uneven split stays in escrow.
pub open spec fn payout_share(entry_fee: u64, s: Seq<Player>, w: Winner) -> int {
    pot_amount(entry_fee, s) / winner_count(s, w) as int
}

/// Computes the share owed to a claimer of a finished game. The host
/// transfers the returned amount from the session's escrow to the
/// claimer; the record itself does not change, so an eligible winner
/// may claim again as long as the escrow holds out.
pub fn claim_winnings(game: &Game, claimer: u64) -> (r: Result<u64, ErrorCode>)
    requires
        game@.entry_fee * game@.players.len() <= u64::MAX,
    ensures
        game@.state != GameState::Finished
            ==> r == Err::<u64, ErrorCode>(ErrorCode::GameNotFinished),
        game@.state == GameState::Finished && game@.winner is None
            ==> r == Err::<u64, ErrorCode>(ErrorCode::NoWinner),
        game@.state == GameState::Finished
            ==> (game@.winner matches Some(w) ==> {
                &&& !is_winning_claimer(game@.players, w, claimer)
                    ==> r == Err::<u64, ErrorCode>(ErrorCode::NotWinner)
                &&& is_winning_claimer(game@.players, w, claimer)
                    ==> r == Ok::<u64, ErrorCode>(
                        payout_share(game@.entry_fee, game@.players, w) as u64,
                    )
            }),
{
    if !matches!(game.state, GameState::Finished) {
        return Err(ErrorCode::GameNotFinished);
    }
    let w = match game.winner {
        Some(w) => w,
        None => {
            return Err(ErrorCode::NoWinner);
        },
    };
    let n = game.players.len();
    let mut eligible = false;
    let mut winners: usize = 0;
    let mut i: usize = 0;
    while i < n
        invariant
            i <= n,
            n == game.players@.len(),
            winners <= i,
            winners == winner_count(game.players@.take(i as int), w),
            eligible ==> winners >= 1,
            eligible ==> is_winning_claimer(game.players@, w, claimer),
            !eligible ==> forall|j: int| 0 <= j < i
                ==> !(game.players@[j].address == claimer && on_winning_side(game.players@[j], w)),
        decreases n - i,
    {
        proof {
            assert(game.players@.take(i + 1 as int).drop_last() =~= game.players@.take(i as int));
            assert(game.players@.take(i + 1 as int).last() == game.players@[i as int]);
        }
        let p = game.players[i];
        let side = p.is_alive && (match w {
            Winner::Mafia => matches!(p.role, Role::Mafia),
            Winner::Town => !matches!(p.role, Role::Mafia),
        });
        if side {
            winners += 1;
            if p.address == claimer {
                eligible = true;
            }
        }
        i += 1;
    }
    proof {
        assert(game.players@.take(n as int) =~= game.players@);
    }
    if !eligible {
        return Err(ErrorCode::NotWinner);
    }
    let pot = game.entry_fee * (n as u64);
    let share = pot / (winners as u64);
    Ok(share)
}

} // verus!
