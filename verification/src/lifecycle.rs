//! Session lifecycle: creation, admission of players, and the start of
//! the game with its positional role assignment.

use vstd::prelude::*;

use crate::types::GameState;
use crate::types::GamePhase;
use crate::types::Role;
use crate::types::Player;
use crate::types::Game;
use crate::types::GameView;
use crate::types::GameCounter;
use crate::types::ErrorCode;
use crate::types::has_player;
use crate::types::find_player;

verus! {

/// The session record a fresh game starts from.
pub open spec fn fresh_game(id: u64, name: Seq<char>, max_players: u8, entry_fee: u64, creator: u64, now: i64) -> GameView {
    GameView {
        game_id: id,
        name: name,
        creator: creator,
        max_players: max_players,
        entry_fee: entry_fee,
        state: GameState::WaitingForPlayers,
        current_phase: GamePhase::Lobby,
        day_count: 0,
        created_at: now,
        phase_start_time: now,
        phase_end_time: 0,
        players: Seq::empty(),
        roles: Seq::empty(),
        votes: Seq::empty(),
        eliminated_players: Seq::empty(),
        winner: None,
    }
}

/// The roster entry a joining identity is admitted as.
pub open spec fn new_player(a: u64, now: i64) -> Player {
    Player {
        address: a,
        is_alive: true,
        role: Role::Unknown,
        vote_target: None,
        joined_at: now,
    }
}

/// The session after a successful join.
pub open spec fn joined_game(g: GameView, a: u64, now: i64) -> GameView {
    GameView { players: g.players.push(new_player(a, now)), ..g }
}

/// How many roster entries are dealt the Mafia role: a quarter of the
/// roster, rounded down, but at least one.
pub open spec fn mafia_quota(n: int) -> int {
    if n / 4 < 1 {
        1
    } else {
        n / 4
    }
}

/// The role dealt to roster position `i` of `n` when the game starts:
/// the first `mafia_quota(n)` positions become Mafia, the next one the
/// Detective, the one after it the Doctor, and the rest Civilians.
pub open spec fn assigned_role(i: int, n: int) -> Role {
    if i < mafia_quota(n) {
        Role::Mafia
    } else if i == mafia_quota(n) {
        Role::Detective
    } else if i == mafia_quota(n) + 1 {
        Role::Doctor
    } else {
        Role::Civilian
    }
}

/// The session after a successful start: roles dealt by position, the
/// first day begun.
pub open spec fn started_game(g: GameView, now: i64) -> GameView {
    GameView {
        players: Seq::new(
            g.players.len(),
            |i: int| (Player { role: assigned_role(i, g.players.len() as int), ..g.players[i] }),
        ),
        state: GameState::Active,
        current_phase: GamePhase::Day,
        day_count: 1,
        phase_start_time: now,
        ..g
    }
}

/// Puts the session counter into its starting position.
pub fn initialize_counter(counter: &mut GameCounter)
    ensures
        final(counter).count == 0,
{
    counter.count = 0;
}

/// Creates a session: draws the next identifier from the counter and
/// returns the empty waiting-room record. The host persists the record
/// and reports the creation.
pub fn initialize_game(
    counter: &mut GameCounter,
    name: String,
    max_players: u8,
    entry_fee: u64,
    creator: u64,
    now: i64,
) -> (g: Game)
    requires
        old(counter).count < u64::MAX,
    ensures
        final(counter).count == old(counter).count + 1,
        g@ == fresh_game((old(counter).count + 1) as u64, name@, max_players, entry_fee, creator, now),
        g@.wf(),
{
    counter.count = counter.count + 1;
    let g = Game {
        game_id: counter.count,
        name: name,
        creator: creator,
        max_players: max_players,
        entry_fee: entry_fee,
        state: GameState::WaitingForPlayers,
        current_phase: GamePhase::Lobby,
        day_count: 0,
        created_at: now,
        phase_start_time: now,
        phase_end_time: 0,
        players: Vec::new(),
        roles: Vec::new(),
        votes: Vec::new(),
        eliminated_players: Vec::new(),
        winner: None,
    };
    proof {
        assert(g@ =~= fresh_game((old(counter).count + 1) as u64, name@, max_players, entry_fee, creator, now));
    }
    g
}

/// Admits an identity into a waiting session. On success the host owes
/// the escrow exactly `entry_fee` from the joining identity; on error
/// nothing changes. A session at capacity rejects the join, so the
/// roster can never outgrow `max_players`.
pub fn join_game(game: &mut Game, player: u64, now: i64) -> (r: Result<(), ErrorCode>)
    requires
        old(game)@.wf(),
    ensures
        final(game)@.wf(),
        old(game)@.state != GameState::WaitingForPlayers
            ==> r == Err::<(), ErrorCode>(ErrorCode::GameNotJoinable) && *final(game) == *old(game),
        old(game)@.state == GameState::WaitingForPlayers
            && old(game)@.players.len() >= old(game)@.max_players as int
            ==> r == Err::<(), ErrorCode>(ErrorCode::GameFull) && *final(game) == *old(game),
        old(game)@.state == GameState::WaitingForPlayers
            && old(game)@.players.len() < old(game)@.max_players as int
            && has_player(old(game)@.players, player)
            ==> r == Err::<(), ErrorCode>(ErrorCode::AlreadyJoined) && *final(game) == *old(game),
        old(game)@.state == GameState::WaitingForPlayers
            && old(game)@.players.len() < old(game)@.max_players as int
            && !has_player(old(game)@.players, player)
            ==> r == Ok::<(), ErrorCode>(()) && final(game)@ == joined_game(old(game)@, player, now),
{
    if !matches!(game.state, GameState::WaitingForPlayers) {
        return Err(ErrorCode::GameNotJoinable);
    }
    if game.players.len() >= game.max_players as usize {
        return Err(ErrorCode::GameFull);
    }
    if find_player(&game.players, player).is_some() {
        return Err(ErrorCode::AlreadyJoined);
    }
    game.players.push(Player {
        address: player,
        is_alive: true,
        role: Role::Unknown,
        vote_target: None,
        joined_at: now,
    });
    proof {
        assert(game@ =~= joined_game(old(game)@, player, now));
        assert forall|i: int, j: int|
            0 <= i < j < game@.players.len() implies game@.players[i].address
            != game@.players[j].address by {
            if j == game@.players.len() - 1 {
                assert(game@.players[i] == old(game)@.players[i]);
            }
        }
    }
    Ok(())
}

/// Starts a waiting session with at least four players: deals roles by
/// roster position and opens the first day. Only the creator may start.
pub fn start_game(game: &mut Game, caller: u64, now: i64) -> (r: Result<(), ErrorCode>)
    requires
        old(game)@.wf(),
    ensures
        final(game)@.wf(),
        caller != old(game)@.creator
            ==> r == Err::<(), ErrorCode>(ErrorCode::NotCreator) && *final(game) == *old(game),
        caller == old(game)@.creator && old(game)@.state != GameState::WaitingForPlayers
            ==> r == Err::<(), ErrorCode>(ErrorCode::GameNotStartable) && *final(game) == *old(game),
        caller == old(game)@.creator && old(game)@.state == GameState::WaitingForPlayers
            && old(game)@.players.len() < 4
            ==> r == Err::<(), ErrorCode>(ErrorCode::NotEnoughPlayers) && *final(game) == *old(game),
        caller == old(game)@.creator && old(game)@.state == GameState::WaitingForPlayers
            && old(game)@.players.len() >= 4
            ==> r == Ok::<(), ErrorCode>(()) && final(game)@ == started_game(old(game)@, now),
{
    if caller != game.creator {
        return Err(ErrorCode::NotCreator);
    }
    if !matches!(game.state, GameState::WaitingForPlayers) {
        return Err(ErrorCode::GameNotStartable);
    }
    let n = game.players.len();
    if n < 4 {
        return Err(ErrorCode::NotEnoughPlayers);
    }
    let quota: usize = if n / 4 < 1 { 1 } else { n / 4 };
    let mut dealt: Vec<Player> = Vec::new();
    let mut i: usize = 0;
    while i < n
        invariant
            i <= n,
            n == game.players@.len(),
            quota == mafia_quota(n as int),
            dealt@.len() == i,
            forall|j: int| 0 <= j < i
                ==> dealt@[j] == (Player { role: assigned_role(j, n as int), ..game.players@[j] }),
        decreases n - i,
    {
        let mut p = game.players[i];
        if i < quota {
            p.role = Role::Mafia;
        } else if i == quota {
            p.role = Role::Detective;
        } else if i == quota + 1 {
            p.role = Role::Doctor;
        } else {
            p.role = Role::Civilian;
        }
        dealt.push(p);
        i += 1;
    }
    game.players = dealt;
    game.state = GameState::Active;
    game.current_phase = GamePhase::Day;
    game.day_count = 1;
    game.phase_start_time = now;
    proof {
        assert(game@.players =~= started_game(old(game)@, now).players);
        assert(game@ =~= started_game(old(game)@, now));
    }
    Ok(())
}

} // verus!
