//! The creator's bulk-update path: an off-record result (say, a
//! server-assisted role shuffle) is committed wholesale, bypassing the
//! normal transition checks.

use vstd::prelude::*;

use crate::types::GameState;
use crate::types::Role;
use crate::types::Player;
use crate::types::Vote;
use crate::types::Game;
use crate::types::GameView;
use crate::types::ErrorCode;
use crate::types::Winner;
use crate::types::distinct_addresses;
use crate::types::distinct_voters;
use crate::types::roles_assigned;

verus! {

/// The supplied roster with every member of `mafia` turned Mafia;
/// everyone else keeps the role they were supplied with.
pub open spec fn marked_mafia(s: Seq<Player>, mafia: Seq<u64>) -> Seq<Player> {
    Seq::new(
        s.len(),
        |i: int|
            if mafia.contains(s[i].address) {
                (Player { role: Role::Mafia, ..s[i] })
            } else {
                s[i]
            },
    )
}

/// The session after a successful bulk update.
pub open spec fn overwritten_game(
    g: GameView,
    players: Seq<Player>,
    mafia: Seq<u64>,
    votes: Seq<Vote>,
    team: Option<Winner>,
    phase_start_time: i64,
    phase_end_time: i64,
) -> GameView {
    GameView {
        players: marked_mafia(players, mafia),
        votes: votes,
        phase_start_time: phase_start_time,
        phase_end_time: phase_end_time,
        state: if team is Some {
            GameState::Finished
        } else {
            g.state
        },
        winner: if team is Some {
            team
        } else {
            g.winner
        },
        ..g
    }
}

/// Whether the list carries this address.
fn contains_addr(list: &Vec<u64>, a: u64) -> (b: bool)
    ensures
        b == list@.contains(a),
{
    let n = list.len();
    let mut i: usize = 0;
    while i < n
        invariant
            i <= n,
            n == list@.len(),
            forall|j: int| 0 <= j < i ==> list@[j] != a,
        decreases n - i,
    {
        if list[i] == a {
            return true;
        }
        i += 1;
    }
    false
}

/// Overwrites roster, ballots and phase timestamps with values settled
/// off the record, marks the listed members as Mafia, and, if a
/// winning team is given, ends the game with it. Only the creator may
/// do this, and never with a roster over twenty seats; the normal
/// transition checks are deliberately not applied.
pub fn update_game_details(
    game: &mut Game,
    authority: u64,
    players: Vec<Player>,
    mafia_members: Vec<u64>,
    votes: Vec<Vote>,
    winning_team: Option<Winner>,
    phase_start_time: i64,
    phase_end_time: i64,
) -> (r: Result<(), ErrorCode>)
    ensures
        authority != old(game)@.creator
            ==> r == Err::<(), ErrorCode>(ErrorCode::NotCreator) && *final(game) == *old(game),
        authority == old(game)@.creator && players@.len() > 20
            ==> r == Err::<(), ErrorCode>(ErrorCode::TooManyPlayers) && *final(game) == *old(game),
        authority == old(game)@.creator && players@.len() <= 20
            ==> r == Ok::<(), ErrorCode>(()) && final(game)@ == overwritten_game(
                old(game)@,
                players@,
                mafia_members@,
                votes@,
                winning_team,
                phase_start_time,
                phase_end_time,
            ),
{
    if authority != game.creator {
        return Err(ErrorCode::NotCreator);
    }
    if players.len() > 20 {
        return Err(ErrorCode::TooManyPlayers);
    }
    let n = players.len();
    let mut marked: Vec<Player> = Vec::new();
    let mut i: usize = 0;
    while i < n
        invariant
            i <= n,
            n == players@.len(),
            marked@.len() == i,
            forall|j: int| 0 <= j < i ==> marked@[j] == marked_mafia(players@, mafia_members@)[j],
        decreases n - i,
    {
        let mut p = players[i];
        if contains_addr(&mafia_members, p.address) {
            p.role = Role::Mafia;
        }
        marked.push(p);
        i += 1;
    }
    game.players = marked;
    game.votes = votes;
    game.phase_start_time = phase_start_time;
    game.phase_end_time = phase_end_time;
    match winning_team {
        Some(w) => {
            game.winner = Some(w);
            game.state = GameState::Finished;
        },
        None => {},
    }
    proof {
        assert(game@.players =~= marked_mafia(players@, mafia_members@));
        assert(game@ =~= overwritten_game(
            old(game)@,
            players@,
            mafia_members@,
            votes@,
            winning_team,
            phase_start_time,
            phase_end_time,
        ));
    }
    Ok(())
}

/// The bulk update keeps the session invariant when its inputs are
/// themselves sound: a roster within capacity and free of duplicate
/// addresses, ballots free of duplicate voters, and, if the session is
/// to stay active without a verdict, no seat left with an unknown
/// role. Duplicate addresses in the supplied roster, for instance,
/// break the invariant, and the update applies them as given.
pub proof fn lemma_overwrite_preserves_wf(
    g: GameView,
    players: Seq<Player>,
    mafia: Seq<u64>,
    votes: Seq<Vote>,
    team: Option<Winner>,
    phase_start_time: i64,
    phase_end_time: i64,
)
    requires
        g.wf(),
        players.len() <= g.max_players as int,
        distinct_addresses(players),
        distinct_voters(votes),
        team is None && g.state == GameState::Active ==> roles_assigned(players),
    ensures
        overwritten_game(g, players, mafia, votes, team, phase_start_time, phase_end_time).wf(),
{
    let post = overwritten_game(g, players, mafia, votes, team, phase_start_time, phase_end_time);
    assert forall|i: int| 0 <= i < post.players.len() implies post.players[i].address
        == players[i].address && (players[i].role != Role::Unknown ==> post.players[i].role
        != Role::Unknown) by {
        assert(post.players[i] == marked_mafia(players, mafia)[i]);
    }
    assert(distinct_addresses(post.players));
    if post.state == GameState::Active {
        assert(team is None && g.state == GameState::Active);
        assert(roles_assigned(post.players));
    }
}

} // verus!
