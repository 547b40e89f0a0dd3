//! Day voting and elimination: ballots, the deterministic tally, phase
//! advance and win evaluation.

use vstd::prelude::*;

use crate::types::GameState;
use crate::types::GamePhase;
use crate::types::Role;
use crate::types::Player;
use crate::types::Vote;
use crate::types::Game;
use crate::types::GameView;
use crate::types::ErrorCode;
use crate::types::Winner;
use crate::types::has_player;
use crate::types::has_living_player;
use crate::types::addr_index;
use crate::types::player_of;
use crate::types::distinct_voters;
use crate::types::lemma_addr_index_agrees;
use crate::types::find_player;

verus! {

/// The ballots that remain once every ballot cast by `voter` is removed,
/// in the order they stood.
pub open spec fn votes_without(s: Seq<Vote>, voter: u64) -> Seq<Vote>
    decreases s.len(),
{
    if s.len() == 0 {
        Seq::empty()
    } else if s.last().voter == voter {
        votes_without(s.drop_last(), voter)
    } else {
        votes_without(s.drop_last(), voter).push(s.last())
    }
}

/// How many ballots `a` has standing in `s`.
pub open spec fn voter_count(s: Seq<Vote>, a: u64) -> nat
    decreases s.len(),
{
    if s.len() == 0 {
        0
    } else {
        voter_count(s.drop_last(), a) + if s.last().voter == a {
            1nat
        } else {
            0nat
        }
    }
}

/// Removing a voter's ballots leaves no ballot of that voter behind.
pub proof fn lemma_votes_without_excludes(s: Seq<Vote>, voter: u64)
    ensures
        forall|i: int| 0 <= i < votes_without(s, voter).len()
            ==> votes_without(s, voter)[i].voter != voter,
    decreases s.len(),
{
    if s.len() > 0 {
        lemma_votes_without_excludes(s.drop_last(), voter);
        let w = votes_without(s.drop_last(), voter);
        if s.last().voter != voter {
            assert forall|i: int| 0 <= i < votes_without(s, voter).len()
                implies votes_without(s, voter)[i].voter != voter by {
                if i < w.len() {
                    assert(votes_without(s, voter)[i] == w[i]);
                } else {
                    assert(votes_without(s, voter)[i] == s.last());
                }
            }
        }
    }
}

/// A ballot standing at some position is counted at least once.
proof fn lemma_occurrence_counts(s: Seq<Vote>, i: int)
    requires
        0 <= i < s.len(),
    ensures
        voter_count(s, s[i].voter) >= 1,
    decreases s.len(),
{
    if i < s.len() - 1 {
        lemma_occurrence_counts(s.drop_last(), i);
    }
}

/// Two positions with the same voter are counted at least twice.
proof fn lemma_pair_counts(s: Seq<Vote>, i: int, j: int)
    requires
        0 <= i < j < s.len(),
        s[i].voter == s[j].voter,
    ensures
        voter_count(s, s[i].voter) >= 2,
    decreases s.len(),
{
    if j == s.len() - 1 {
        lemma_occurrence_counts(s.drop_last(), i);
    } else {
        lemma_pair_counts(s.drop_last(), i, j);
    }
}

/// Under pairwise-distinct voters, nobody is counted twice.
proof fn lemma_distinct_counts(s: Seq<Vote>, a: u64)
    requires
        distinct_voters(s),
    ensures
        voter_count(s, a) <= 1,
    decreases s.len(),
{
    if s.len() > 0 {
        let d = s.drop_last();
        assert(distinct_voters(d)) by {
            assert(forall|p: int, q: int| 0 <= p < q < d.len() ==> d[p] == s[p] && d[q] == s[q]);
        }
        lemma_distinct_counts(d, a);
        if s.last().voter == a && voter_count(d, a) >= 1 {
            lemma_count_occurrence(d, a);
            let i = choose|i: int| 0 <= i < d.len() && d[i].voter == a;
            assert(s[i].voter == s[s.len() - 1].voter);
        }
    }
}

/// A positive count names a position holding such a ballot.
proof fn lemma_count_occurrence(s: Seq<Vote>, a: u64)
    requires
        voter_count(s, a) >= 1,
    ensures
        exists|i: int| 0 <= i < s.len() && s[i].voter == a,
    decreases s.len(),
{
    if s.len() > 0 {
        if s.last().voter == a {
            assert(s[s.len() - 1].voter == a);
        } else {
            lemma_count_occurrence(s.drop_last(), a);
            let i = choose|i: int| 0 <= i < s.drop_last().len() && s.drop_last()[i].voter == a;
            assert(s[i].voter == a);
        }
    }
}

/// Removing one voter's ballots zeroes that voter's count and keeps
/// every other count as it was.
proof fn lemma_votes_without_counts(s: Seq<Vote>, voter: u64, a: u64)
    ensures
        voter_count(votes_without(s, voter), a) == if a == voter {
            0nat
        } else {
            voter_count(s, a)
        },
    decreases s.len(),
{
    if s.len() > 0 {
        lemma_votes_without_counts(s.drop_last(), voter, a);
        if s.last().voter != voter {
            let w = votes_without(s.drop_last(), voter);
            assert(w.push(s.last()).drop_last() =~= w);
        }
    }
}

/// The ballot list after `voter` casts for `target` at `now`: the
/// voter's earlier ballot (if any) is gone, and the new one stands last.
pub open spec fn recast_votes(s: Seq<Vote>, voter: u64, target: u64, now: i64) -> Seq<Vote> {
    votes_without(s, voter).push(Vote { voter: voter, target: target, timestamp: now })
}

/// The session after a successful ballot.
pub open spec fn voted_game(g: GameView, voter: u64, target: u64, now: i64) -> GameView {
    GameView {
        votes: recast_votes(g.votes, voter, target, now),
        players: g.players.update(
            addr_index(g.players, voter),
            (Player { vote_target: Some(target), ..player_of(g.players, voter) }),
        ),
        ..g
    }
}

/// Records (or replaces) a living voter's day ballot against a living
/// target. A voter never holds two standing ballots: casting again
/// replaces the earlier one.
pub fn cast_vote(game: &mut Game, voter: u64, target_player: u64, now: i64) -> (r: Result<
    (),
    ErrorCode,
>)
    requires
        old(game)@.wf(),
    ensures
        final(game)@.wf(),
        old(game)@.state != GameState::Active
            ==> r == Err::<(), ErrorCode>(ErrorCode::GameNotActive) && *final(game) == *old(game),
        old(game)@.state == GameState::Active && old(game)@.current_phase != GamePhase::Day
            ==> r == Err::<(), ErrorCode>(ErrorCode::NotVotingPhase) && *final(game) == *old(game),
        old(game)@.state == GameState::Active && old(game)@.current_phase == GamePhase::Day
            && !has_player(old(game)@.players, voter)
            ==> r == Err::<(), ErrorCode>(ErrorCode::PlayerNotInGame) && *final(game) == *old(game),
        old(game)@.state == GameState::Active && old(game)@.current_phase == GamePhase::Day
            && has_player(old(game)@.players, voter)
            && !has_living_player(old(game)@.players, target_player)
            ==> r == Err::<(), ErrorCode>(ErrorCode::InvalidTarget) && *final(game) == *old(game),
        old(game)@.state == GameState::Active && old(game)@.current_phase == GamePhase::Day
            && has_player(old(game)@.players, voter)
            && has_living_player(old(game)@.players, target_player)
            && !has_living_player(old(game)@.players, voter)
            ==> r == Err::<(), ErrorCode>(ErrorCode::PlayerDead) && *final(game) == *old(game),
        old(game)@.state == GameState::Active && old(game)@.current_phase == GamePhase::Day
            && has_living_player(old(game)@.players, voter)
            && has_living_player(old(game)@.players, target_player)
            ==> r == Ok::<(), ErrorCode>(())
                && final(game)@ == voted_game(old(game)@, voter, target_player, now),
        r is Ok ==> forall|i: int| 0 <= i < final(game)@.votes.len() - 1
            ==> final(game)@.votes[i].voter != voter,
{
    if !matches!(game.state, GameState::Active) {
        return Err(ErrorCode::GameNotActive);
    }
    if !matches!(game.current_phase, GamePhase::Day) {
        return Err(ErrorCode::NotVotingPhase);
    }
    let voter_index = match find_player(&game.players, voter) {
        Some(k) => k,
        None => {
            return Err(ErrorCode::PlayerNotInGame);
        },
    };
    let target_index = match find_player(&game.players, target_player) {
        Some(k) => k,
        None => {
            proof {
                assert(!has_living_player(game@.players, target_player));
            }
            return Err(ErrorCode::InvalidTarget);
        },
    };
    if !game.players[target_index].is_alive {
        proof {
            assert forall|i: int|
                0 <= i < game@.players.len() && game@.players[i].address == target_player
                implies !game@.players[i].is_alive by {
                lemma_addr_index_agrees(game@.players, target_player, i);
                lemma_addr_index_agrees(game@.players, target_player, target_index as int);
            }
        }
        return Err(ErrorCode::InvalidTarget);
    }
    if !game.players[voter_index].is_alive {
        proof {
            assert(has_living_player(game@.players, target_player));
            assert forall|i: int|
                0 <= i < game@.players.len() && game@.players[i].address == voter
                implies !game@.players[i].is_alive by {
                lemma_addr_index_agrees(game@.players, voter, i);
                lemma_addr_index_agrees(game@.players, voter, voter_index as int);
            }
        }
        return Err(ErrorCode::PlayerDead);
    }
    let m = game.votes.len();
    let mut kept: Vec<Vote> = Vec::new();
    let mut i: usize = 0;
    while i < m
        invariant
            i <= m,
            m == game.votes@.len(),
            kept@ == votes_without(game.votes@.take(i as int), voter),
        decreases m - i,
    {
        let v = game.votes[i];
        proof {
            assert(game.votes@.take(i + 1 as int).drop_last() =~= game.votes@.take(i as int));
            assert(game.votes@.take(i + 1 as int).last() == v);
        }
        if v.voter != voter {
            kept.push(v);
        }
        i += 1;
    }
    proof {
        assert(game.votes@.take(m as int) =~= game.votes@);
    }
    kept.push(Vote { voter: voter, target: target_player, timestamp: now });
    let ghost pre = old(game)@;
    game.votes = kept;
    let mut p = game.players[voter_index];
    p.vote_target = Some(target_player);
    game.players.set(voter_index, p);
    proof {
        lemma_addr_index_agrees(pre.players, voter, voter_index as int);
        assert(game@ =~= voted_game(pre, voter, target_player, now));
        lemma_votes_without_excludes(pre.votes, voter);
        let nv = game@.votes;
        let w = votes_without(pre.votes, voter);
        assert forall|a: int, b: int| 0 <= a < b < nv.len() implies nv[a].voter != nv[b].voter by {
            if b < nv.len() - 1 {
                if nv[a].voter == nv[b].voter {
                    assert(w[a] == nv[a] && w[b] == nv[b]);
                    lemma_pair_counts(w, a, b);
                    lemma_votes_without_counts(pre.votes, voter, nv[a].voter);
                    lemma_distinct_counts(pre.votes, nv[a].voter);
                }
            }
        }
        assert forall|a: int, b: int|
            0 <= a < b < game@.players.len() implies game@.players[a].address
            != game@.players[b].address by {
            assert(pre.players[a].address != pre.players[b].address);
        }
    }
    Ok(())
}

/// How many ballots in `s` name `t` as their target.
pub open spec fn vote_count(s: Seq<Vote>, t: u64) -> nat
    decreases s.len(),
{
    if s.len() == 0 {
        0
    } else {
        vote_count(s.drop_last(), t) + if s.last().target == t {
            1nat
        } else {
            0nat
        }
    }
}

/// Position `i` holds the winning ballot of the tally: its target's
/// count is highest, and every earlier ballot's target counts strictly
/// lower, so among tied targets the earliest-cast ballot wins.
pub open spec fn is_leading_index(s: Seq<Vote>, i: int) -> bool {
    &&& 0 <= i < s.len()
    &&& forall|j: int| 0 <= j < s.len() ==> vote_count(s, s[j].target) <= vote_count(s, s[i].target)
    &&& forall|j: int| 0 <= j < i ==> vote_count(s, s[j].target) < vote_count(s, s[i].target)
}

/// The winning ballot's position; meaningful for a non-empty tally.
pub open spec fn leading_index(s: Seq<Vote>) -> int {
    choose|i: int| is_leading_index(s, i)
}

/// The address the tally condemns.
pub open spec fn leading_target(s: Seq<Vote>) -> u64 {
    s[leading_index(s)].target
}

/// At most one position can hold the winning ballot.
pub proof fn lemma_leading_index_unique(s: Seq<Vote>, i: int, j: int)
    requires
        is_leading_index(s, i),
        is_leading_index(s, j),
    ensures
        i == j,
{
    if i < j {
        assert(vote_count(s, s[i].target) < vote_count(s, s[j].target));
    }
    if j < i {
        assert(vote_count(s, s[j].target) < vote_count(s, s[i].target));
    }
}

/// Who the day's tally eliminates: the leading target, provided any
/// ballots stand and the target is on the roster; nobody otherwise.
pub open spec fn day_elim_target(votes: Seq<Vote>, roster: Seq<Player>) -> Option<u64> {
    if votes.len() > 0 && has_player(roster, leading_target(votes)) {
        Some(leading_target(votes))
    } else {
        None
    }
}

/// A roster entry once it has been eliminated.
pub open spec fn killed_player(p: Player) -> Player {
    Player { is_alive: false, ..p }
}

/// The roster after the day's tally is resolved.
pub open spec fn day_post_roster(votes: Seq<Vote>, roster: Seq<Player>) -> Seq<Player> {
    match day_elim_target(votes, roster) {
        Some(t) => roster.update(addr_index(roster, t), killed_player(player_of(roster, t))),
        None => roster,
    }
}

/// The elimination log after the day's tally is resolved.
pub open spec fn day_post_elims(votes: Seq<Vote>, roster: Seq<Player>, elims: Seq<u64>) -> Seq<
    u64,
> {
    match day_elim_target(votes, roster) {
        Some(t) => elims.push(t),
        None => elims,
    }
}

/// Counts the ballots naming `t`.
fn count_votes_for(votes: &Vec<Vote>, t: u64) -> (c: usize)
    ensures
        c == vote_count(votes@, t),
{
    let m = votes.len();
    let mut c: usize = 0;
    let mut i: usize = 0;
    while i < m
        invariant
            i <= m,
            m == votes@.len(),
            c <= i,
            c == vote_count(votes@.take(i as int), t),
        decreases m - i,
    {
        proof {
            assert(votes@.take(i + 1 as int).drop_last() =~= votes@.take(i as int));
            assert(votes@.take(i + 1 as int).last() == votes@[i as int]);
        }
        if votes[i].target == t {
            c += 1;
        }
        i += 1;
    }
    proof {
        assert(votes@.take(m as int) =~= votes@);
    }
    c
}

/// Resolves the day's ballots: the target with the strictly highest
/// count is eliminated, ties going to the earliest-cast ballot among
/// the tied targets. With no ballots standing nobody is eliminated; a
/// leading target that is not on the roster (possible only after an
/// administrative overwrite of the ballots) also eliminates nobody.
pub fn process_day_votes(game: &mut Game) -> (r: Option<u64>)
    requires
        old(game)@.wf(),
    ensures
        final(game)@.wf(),
        r == day_elim_target(old(game)@.votes, old(game)@.players),
        final(game)@ == (GameView {
            players: day_post_roster(old(game)@.votes, old(game)@.players),
            eliminated_players: day_post_elims(
                old(game)@.votes,
                old(game)@.players,
                old(game)@.eliminated_players,
            ),
            ..old(game)@
        }),
        forall|i: int| 0 <= i < old(game)@.players.len() && !old(game)@.players[i].is_alive
            ==> !final(game)@.players[i].is_alive,
        old(game)@.eliminated_players.is_prefix_of(final(game)@.eliminated_players),
{
    let ghost pre = old(game)@;
    let m = game.votes.len();
    if m == 0 {
        proof {
            assert(game@ =~= (GameView {
                players: day_post_roster(pre.votes, pre.players),
                eliminated_players: day_post_elims(pre.votes, pre.players, pre.eliminated_players),
                ..pre
            }));
        }
        return None;
    }
    let mut best_i: usize = 0;
    let mut best_c: usize = count_votes_for(&game.votes, game.votes[0].target);
    let mut i: usize = 1;
    while i < m
        invariant
            1 <= i <= m,
            m == game.votes@.len(),
            best_i < i,
            best_c == vote_count(game.votes@, game.votes@[best_i as int].target),
            forall|j: int| 0 <= j < i ==> vote_count(game.votes@, game.votes@[j].target) <= best_c,
            forall|j: int| 0 <= j < best_i
                ==> vote_count(game.votes@, game.votes@[j].target) < best_c,
        decreases m - i,
    {
        let c = count_votes_for(&game.votes, game.votes[i].target);
        if c > best_c {
            best_i = i;
            best_c = c;
        }
        i += 1;
    }
    let t = game.votes[best_i].target;
    proof {
        assert(is_leading_index(pre.votes, best_i as int));
        lemma_leading_index_unique(pre.votes, leading_index(pre.votes), best_i as int);
        assert(leading_target(pre.votes) == t);
    }
    match find_player(&game.players, t) {
        None => {
            proof {
                assert(day_elim_target(pre.votes, pre.players) is None);
                assert(game@ =~= (GameView {
                    players: day_post_roster(pre.votes, pre.players),
                    eliminated_players: day_post_elims(
                        pre.votes,
                        pre.players,
                        pre.eliminated_players,
                    ),
                    ..pre
                }));
            }
            None
        },
        Some(k) => {
            let mut p = game.players[k];
            p.is_alive = false;
            game.players.set(k, p);
            game.eliminated_players.push(t);
            proof {
                lemma_addr_index_agrees(pre.players, t, k as int);
                assert(game@ =~= (GameView {
                    players: day_post_roster(pre.votes, pre.players),
                    eliminated_players: day_post_elims(
                        pre.votes,
                        pre.players,
                        pre.eliminated_players,
                    ),
                    ..pre
                }));
                assert forall|a: int, b: int|
                    0 <= a < b < game@.players.len() implies game@.players[a].address
                    != game@.players[b].address by {
                    assert(pre.players[a].address != pre.players[b].address);
                }
            }
            Some(t)
        },
    }
}

/// Living roster entries whose role is Mafia.
pub open spec fn alive_mafia_count(s: Seq<Player>) -> nat
    decreases s.len(),
{
    if s.len() == 0 {
        0
    } else {
        alive_mafia_count(s.drop_last()) + if s.last().is_alive && s.last().role == Role::Mafia {
            1nat
        } else {
            0nat
        }
    }
}

/// Living roster entries of any other role: the Town.
pub open spec fn alive_town_count(s: Seq<Player>) -> nat
    decreases s.len(),
{
    if s.len() == 0 {
        0
    } else {
        alive_town_count(s.drop_last()) + if s.last().is_alive && s.last().role != Role::Mafia {
            1nat
        } else {
            0nat
        }
    }
}

/// The verdict the living counts dictate: Town wins as soon as no
/// Mafia lives; Mafia wins as soon as it is at least as numerous as
/// the Town (a tie goes to the Mafia); otherwise play continues.
pub open spec fn win_of(s: Seq<Player>) -> Option<Winner> {
    if alive_mafia_count(s) == 0 {
        Some(Winner::Town)
    } else if alive_mafia_count(s) >= alive_town_count(s) {
        Some(Winner::Mafia)
    } else {
        None
    }
}

/// Evaluates the win condition on the current roster.
pub fn check_win_condition(game: &Game) -> (r: Option<Winner>)
    ensures
        r == win_of(game@.players),
{
    let n = game.players.len();
    let mut mafia: usize = 0;
    let mut town: usize = 0;
    let mut i: usize = 0;
    while i < n
        invariant
            i <= n,
            n == game.players@.len(),
            mafia <= i,
            town <= i,
            mafia == alive_mafia_count(game.players@.take(i as int)),
            town == alive_town_count(game.players@.take(i as int)),
        decreases n - i,
    {
        proof {
            assert(game.players@.take(i + 1 as int).drop_last() =~= game.players@.take(i as int));
            assert(game.players@.take(i + 1 as int).last() == game.players@[i as int]);
        }
        let p = game.players[i];
        if p.is_alive {
            if matches!(p.role, Role::Mafia) {
                mafia += 1;
            } else {
                town += 1;
            }
        }
        i += 1;
    }
    proof {
        assert(game.players@.take(n as int) =~= game.players@);
    }
    if mafia == 0 {
        Some(Winner::Town)
    } else if mafia >= town {
        Some(Winner::Mafia)
    } else {
        None
    }
}

/// A roster entry with its standing ballot wiped.
pub open spec fn cleared_player(p: Player) -> Player {
    Player { vote_target: None, ..p }
}

/// The roster with every standing ballot wiped.
pub open spec fn cleared_roster(s: Seq<Player>) -> Seq<Player> {
    Seq::new(s.len(), |i: int| cleared_player(s[i]))
}

/// The session after a Day phase is advanced: the tally is resolved,
/// ballots are wiped, night falls, and the verdict on the surviving
/// roster is applied.
pub open spec fn day_advanced_game(g: GameView, now: i64) -> GameView {
    let roster = cleared_roster(day_post_roster(g.votes, g.players));
    let w = win_of(roster);
    GameView {
        current_phase: GamePhase::Night,
        players: roster,
        eliminated_players: day_post_elims(g.votes, g.players, g.eliminated_players),
        votes: Seq::empty(),
        phase_start_time: now,
        state: if w is Some {
            GameState::Finished
        } else {
            g.state
        },
        winner: if w is Some {
            w
        } else {
            g.winner
        },
        ..g
    }
}

/// The session after a Night phase is advanced: day breaks, the day
/// counter moves on, ballots are wiped, and the verdict on the roster
/// is applied.
pub open spec fn night_advanced_game(g: GameView, now: i64) -> GameView {
    let roster = cleared_roster(g.players);
    let w = win_of(roster);
    GameView {
        current_phase: GamePhase::Day,
        day_count: (g.day_count + 1) as u16,
        players: roster,
        votes: Seq::empty(),
        phase_start_time: now,
        state: if w is Some {
            GameState::Finished
        } else {
            g.state
        },
        winner: if w is Some {
            w
        } else {
            g.winner
        },
        ..g
    }
}

/// Advances an active session one phase. Day to Night resolves the
/// tally first and reports who fell; Night to Day begins the next day.
/// Either way the ballots are cleared and the win condition is then
/// evaluated: a verdict freezes the session as `Finished` with its
/// winner set. Any identity may advance the phase.
pub fn advance_phase(game: &mut Game, now: i64) -> (r: Result<Option<u64>, ErrorCode>)
    requires
        old(game)@.wf(),
        old(game)@.state == GameState::Active && old(game)@.current_phase == GamePhase::Night
            ==> old(game)@.day_count < u16::MAX,
    ensures
        final(game)@.wf(),
        old(game)@.state != GameState::Active
            ==> r == Err::<Option<u64>, ErrorCode>(ErrorCode::GameNotActive) && *final(game)
                == *old(game),
        old(game)@.state == GameState::Active && old(game)@.current_phase == GamePhase::Lobby
            ==> r == Err::<Option<u64>, ErrorCode>(ErrorCode::InvalidPhase) && *final(game)
                == *old(game),
        old(game)@.state == GameState::Active && old(game)@.current_phase == GamePhase::Day
            ==> r == Ok::<Option<u64>, ErrorCode>(
                day_elim_target(old(game)@.votes, old(game)@.players),
            ) && final(game)@ == day_advanced_game(old(game)@, now),
        old(game)@.state == GameState::Active && old(game)@.current_phase == GamePhase::Night
            ==> r == Ok::<Option<u64>, ErrorCode>(None) && final(game)@ == night_advanced_game(
                old(game)@,
                now,
            ),
        final(game)@.day_count >= old(game)@.day_count,
        forall|i: int| 0 <= i < old(game)@.players.len() && !old(game)@.players[i].is_alive
            ==> !final(game)@.players[i].is_alive,
        old(game)@.eliminated_players.is_prefix_of(final(game)@.eliminated_players),
{
    let ghost pre = old(game)@;
    if !matches!(game.state, GameState::Active) {
        return Err(ErrorCode::GameNotActive);
    }
    let eliminated: Option<u64>;
    match game.current_phase {
        GamePhase::Day => {
            eliminated = process_day_votes(game);
            game.current_phase = GamePhase::Night;
        },
        GamePhase::Night => {
            game.current_phase = GamePhase::Day;
            game.day_count = game.day_count + 1;
            eliminated = None;
        },
        GamePhase::Lobby => {
            return Err(ErrorCode::InvalidPhase);
        },
    }
    game.phase_start_time = now;
    game.votes = Vec::new();
    let ghost mid = game@.players;
    let n = game.players.len();
    let mut wiped: Vec<Player> = Vec::new();
    let mut i: usize = 0;
    while i < n
        invariant
            i <= n,
            n == game.players@.len(),
            wiped@.len() == i,
            forall|j: int| 0 <= j < i ==> wiped@[j] == cleared_player(game.players@[j]),
        decreases n - i,
    {
        let mut p = game.players[i];
        p.vote_target = None;
        wiped.push(p);
        i += 1;
    }
    game.players = wiped;
    proof {
        assert(game@.players =~= cleared_roster(mid));
    }
    match check_win_condition(game) {
        Some(w) => {
            game.state = GameState::Finished;
            game.winner = Some(w);
        },
        None => {},
    }
    proof {
        if pre.current_phase == GamePhase::Day {
            assert(game@ =~= day_advanced_game(pre, now));
        } else {
            assert(game@ =~= night_advanced_game(pre, now));
        }
        assert forall|a: int, b: int|
            0 <= a < b < game@.players.len() implies game@.players[a].address
            != game@.players[b].address by {
            assert(mid[a].address != mid[b].address);
            assert(game@.players[a] == cleared_player(mid[a]));
            assert(game@.players[b] == cleared_player(mid[b]));
        }
        assert forall|a: int| 0 <= a < game@.players.len() implies game@.players[a].role
            != Role::Unknown by {
            assert(game@.players[a] == cleared_player(mid[a]));
        }
    }
    Ok(eliminated)
}

} // verus!
