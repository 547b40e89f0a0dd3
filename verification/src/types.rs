//! The session record and its invariant: players, votes, phases, roles,
//! and the spec-level helpers the operation contracts are written over.

use vstd::prelude::*;

verus! {

/// Coarse lifecycle of a session.
#[derive(Clone, Copy, PartialEq, Eq, Structural, Debug)]
pub enum GameState {
    WaitingForPlayers,
    Active,
    Finished,
}

/// Fine-grained sub-state, meaningful while the session is `Active`.
#[derive(Clone, Copy, PartialEq, Eq, Structural, Debug)]
pub enum GamePhase {
    Lobby,
    Day,
    Night,
}

/// A participant's role; `Unknown` until the game starts.
#[derive(Clone, Copy, PartialEq, Eq, Structural, Debug)]
pub enum Role {
    Unknown,
    Mafia,
    Detective,
    Doctor,
    Civilian,
}

/// The winning faction of a finished game.
#[derive(Clone, Copy, PartialEq, Eq, Structural, Debug)]
pub enum Winner {
    Mafia,
    Town,
}

/// What a player attempts during a `Night` phase.
#[derive(Clone, Copy, PartialEq, Eq, Structural, Debug)]
pub enum NightActionType {
    MafiaKill,
    DetectiveInvestigate,
    DoctorHeal,
}

/// Named rejection of an attempted operation; the session is never
/// changed when one of these is returned.
#[derive(Clone, Copy, PartialEq, Eq, Structural, Debug)]
pub enum ErrorCode {
    GameNotJoinable,
    GameFull,
    AlreadyJoined,
    NotCreator,
    GameNotStartable,
    NotEnoughPlayers,
    GameNotActive,
    NotVotingPhase,
    PlayerNotInGame,
    InvalidTarget,
    PlayerDead,
    InvalidPhase,
    NotNightPhase,
    InvalidRole,
    GameNotFinished,
    NoWinner,
    NotWinner,
    TooManyPlayers,
}

/// One participant. Identities are opaque account addresses; the logic
/// only ever compares them, so they are carried as plain integers.
#[derive(Clone, Copy, PartialEq, Eq, Structural, Debug)]
pub struct Player {
    pub address: u64,
    pub is_alive: bool,
    pub role: Role,
    pub vote_target: Option<u64>,
    pub joined_at: i64,
}

/// One standing day ballot.
#[derive(Clone, Copy, PartialEq, Eq, Structural, Debug)]
pub struct Vote {
    pub voter: u64,
    pub target: u64,
    pub timestamp: i64,
}

/// Counter from which fresh session identifiers are drawn.
#[derive(Clone, Copy, PartialEq, Eq, Structural, Debug)]
pub struct GameCounter {
    pub count: u64,
}

/// One game session: the single record every operation works on.
#[derive(Debug)]
pub struct Game {
    pub game_id: u64,
    pub name: String,
    pub creator: u64,
    pub max_players: u8,
    pub entry_fee: u64,
    pub state: GameState,
    pub current_phase: GamePhase,
    pub day_count: u16,
    pub created_at: i64,
    pub phase_start_time: i64,
    pub phase_end_time: i64,
    pub players: Vec<Player>,
    pub roles: Vec<Role>,
    pub votes: Vec<Vote>,
    pub eliminated_players: Vec<u64>,
    pub winner: Option<Winner>,
}

/// The mathematical value of a session record: what the operation
/// contracts are stated over.
#[verifier::ext_equal]
pub struct GameView {
    pub game_id: u64,
    pub name: Seq<char>,
    pub creator: u64,
    pub max_players: u8,
    pub entry_fee: u64,
    pub state: GameState,
    pub current_phase: GamePhase,
    pub day_count: u16,
    pub created_at: i64,
    pub phase_start_time: i64,
    pub phase_end_time: i64,
    pub players: Seq<Player>,
    pub roles: Seq<Role>,
    pub votes: Seq<Vote>,
    pub eliminated_players: Seq<u64>,
    pub winner: Option<Winner>,
}

impl View for Game {
    type V = GameView;

    open spec fn view(&self) -> GameView {
        GameView {
            game_id: self.game_id,
            name: self.name@,
            creator: self.creator,
            max_players: self.max_players,
            entry_fee: self.entry_fee,
            state: self.state,
            current_phase: self.current_phase,
            day_count: self.day_count,
            created_at: self.created_at,
            phase_start_time: self.phase_start_time,
            phase_end_time: self.phase_end_time,
            players: self.players@,
            roles: self.roles@,
            votes: self.votes@,
            eliminated_players: self.eliminated_players@,
            winner: self.winner,
        }
    }
}

/// Some player on the roster carries this address.
pub open spec fn has_player(s: Seq<Player>, a: u64) -> bool {
    exists|i: int| 0 <= i < s.len() && s[i].address == a
}

/// Some living player on the roster carries this address.
pub open spec fn has_living_player(s: Seq<Player>, a: u64) -> bool {
    exists|i: int| 0 <= i < s.len() && s[i].address == a && s[i].is_alive
}

/// The roster position holding this address; meaningful only under
/// `has_player`, and unique under `distinct_addresses`.
pub open spec fn addr_index(s: Seq<Player>, a: u64) -> int {
    choose|i: int| 0 <= i < s.len() && s[i].address == a
}

/// The roster entry holding this address.
pub open spec fn player_of(s: Seq<Player>, a: u64) -> Player {
    s[addr_index(s, a)]
}

/// No two roster entries share an address.
pub open spec fn distinct_addresses(s: Seq<Player>) -> bool {
    forall|i: int, j: int| 0 <= i < j < s.len() ==> s[i].address != s[j].address
}

/// No two ballots share a voter.
pub open spec fn distinct_voters(s: Seq<Vote>) -> bool {
    forall|i: int, j: int| 0 <= i < j < s.len() ==> s[i].voter != s[j].voter
}

/// Every roster entry has been dealt a role.
pub open spec fn roles_assigned(s: Seq<Player>) -> bool {
    forall|i: int| 0 <= i < s.len() ==> s[i].role != Role::Unknown
}

impl GameView {
    /// The session invariant: it holds of a freshly created session and
    /// every game operation preserves it.
    pub open spec fn wf(self) -> bool {
        &&& self.players.len() <= self.max_players as int
        &&& distinct_addresses(self.players)
        &&& (self.state == GameState::Active ==> roles_assigned(self.players))
        &&& distinct_voters(self.votes)
        &&& (self.winner is Some <==> self.state == GameState::Finished)
    }
}

/// Under a duplicate-free roster, any position holding an address is
/// the position `addr_index` names.
pub proof fn lemma_addr_index_agrees(s: Seq<Player>, a: u64, i: int)
    requires
        distinct_addresses(s),
        0 <= i < s.len(),
        s[i].address == a,
    ensures
        has_player(s, a),
        addr_index(s, a) == i,
{
    assert(has_player(s, a));
    let j = addr_index(s, a);
    assert(0 <= j < s.len() && s[j].address == a);
    if i < j {
        assert(s[i].address != s[j].address);
    } else if j < i {
        assert(s[j].address != s[i].address);
    }
}

/// Finds the first roster position holding the given address.
pub fn find_player(players: &Vec<Player>, a: u64) -> (r: Option<usize>)
    ensures
        match r {
            Some(i) => i < players@.len() && players@[i as int].address == a
                && (forall|j: int| 0 <= j < i ==> players@[j].address != a),
            None => !has_player(players@, a),
        },
{
    let n = players.len();
    let mut i: usize = 0;
    while i < n
        invariant
            i <= n,
            n == players@.len(),
            forall|j: int| 0 <= j < i ==> players@[j].address != a,
        decreases n - i,
    {
        if players[i].address == a {
            return Some(i);
        }
        i += 1;
    }
    None
}

/// Decides the session invariant at run time, so that an unverified
/// host can guard a record of unknown provenance before handing it to
/// the game operations.
pub fn is_well_formed(game: &Game) -> (b: bool)
    ensures
        b == game@.wf(),
{
    let n = game.players.len();
    if n > game.max_players as usize {
        return false;
    }
    let mut i: usize = 0;
    while i < n
        invariant
            i <= n,
            n == game.players@.len(),
            forall|p: int, q: int| 0 <= p < q < game.players@.len() && p < i
                ==> game.players@[p].address != game.players@[q].address,
        decreases n - i,
    {
        let mut j: usize = i + 1;
        while j < n
            invariant
                i < j <= n,
                n == game.players@.len(),
                forall|q: int| i < q < j ==> game.players@[i as int].address != game.players@[q].address,
            decreases n - j,
        {
            if game.players[i].address == game.players[j].address {
                return false;
            }
            j += 1;
        }
        i += 1;
    }
    if matches!(game.state, GameState::Active) {
        let mut k: usize = 0;
        while k < n
            invariant
                k <= n,
                n == game.players@.len(),
                game.state == GameState::Active,
                forall|p: int| 0 <= p < k ==> game.players@[p].role != Role::Unknown,
            decreases n - k,
        {
            if matches!(game.players[k].role, Role::Unknown) {
                return false;
            }
            k += 1;
        }
    }
    let m = game.votes.len();
    let mut i: usize = 0;
    while i < m
        invariant
            i <= m,
            m == game.votes@.len(),
            forall|p: int, q: int| 0 <= p < q < game.votes@.len() && p < i
                ==> game.votes@[p].voter != game.votes@[q].voter,
        decreases m - i,
    {
        let mut j: usize = i + 1;
        while j < m
            invariant
                i < j <= m,
                m == game.votes@.len(),
                forall|q: int| i < q < j ==> game.votes@[i as int].voter != game.votes@[q].voter,
            decreases m - j,
        {
            if game.votes[i].voter == game.votes[j].voter {
                return false;
            }
            j += 1;
        }
        i += 1;
    }
    let winner_set = matches!(game.winner, Some(_));
    let finished = matches!(game.state, GameState::Finished);
    winner_set == finished
}

} // verus!
