use mafia_game::advance_phase;
use mafia_game::cast_vote;
use mafia_game::check_win_condition;
use mafia_game::claim_winnings;
use mafia_game::initialize_counter;
use mafia_game::initialize_game;
use mafia_game::is_well_formed;
use mafia_game::join_game;
use mafia_game::night_action;
use mafia_game::start_game;
use mafia_game::update_game_details;
use mafia_game::ErrorCode;
use mafia_game::Game;
use mafia_game::GameCounter;
use mafia_game::GamePhase;
use mafia_game::GameState;
use mafia_game::NightActionType;
use mafia_game::Player;
use mafia_game::Role;
use mafia_game::Winner;

const CREATOR: u64 = 99;

fn fresh_session(max_players: u8, entry_fee: u64) -> Game {
    let mut counter = GameCounter { count: 0 };
    initialize_counter(&mut counter);
    initialize_game(&mut counter, String::from("table"), max_players, entry_fee, CREATOR, 100)
}

fn started_session(player_count: u64, max_players: u8, entry_fee: u64) -> Game {
    let mut game = fresh_session(max_players, entry_fee);
    for a in 1..=player_count {
        assert_eq!(join_game(&mut game, a, 100 + a as i64), Ok(()));
    }
    assert_eq!(start_game(&mut game, CREATOR, 200), Ok(()));
    game
}

#[test]
fn create_session_defaults() {
    let mut counter = GameCounter { count: 6 };
    let game = initialize_game(&mut counter, String::from("opening"), 8, 50, CREATOR, 123);
    assert_eq!(counter.count, 7);
    assert_eq!(game.game_id, 7);
    assert_eq!(game.creator, CREATOR);
    assert_eq!(game.max_players, 8);
    assert_eq!(game.entry_fee, 50);
    assert_eq!(game.state, GameState::WaitingForPlayers);
    assert_eq!(game.current_phase, GamePhase::Lobby);
    assert_eq!(game.day_count, 0);
    assert_eq!(game.created_at, 123);
    assert_eq!(game.phase_start_time, 123);
    assert_eq!(game.players.len(), 0);
    assert_eq!(game.votes.len(), 0);
    assert_eq!(game.eliminated_players.len(), 0);
    assert_eq!(game.winner, None);
    assert!(is_well_formed(&game));
}

#[test]
fn roster_never_exceeds_capacity() {
    let mut game = fresh_session(4, 0);
    for a in 1..=4 {
        assert_eq!(join_game(&mut game, a, 0), Ok(()));
        assert!(game.players.len() <= game.max_players as usize);
    }
    assert_eq!(join_game(&mut game, 5, 0), Err(ErrorCode::GameFull));
    assert_eq!(game.players.len(), 4);
}

#[test]
fn duplicate_join_rejected_roster_unchanged() {
    let mut game = fresh_session(10, 0);
    assert_eq!(join_game(&mut game, 1, 0), Ok(()));
    assert_eq!(join_game(&mut game, 2, 0), Ok(()));
    assert_eq!(join_game(&mut game, 1, 5), Err(ErrorCode::AlreadyJoined));
    assert_eq!(game.players.len(), 2);
    assert_eq!(game.players[0].address, 1);
    assert_eq!(game.players[0].joined_at, 0);
    assert_eq!(game.players[1].address, 2);
}

#[test]
fn start_assigns_positional_roles_of_four() {
    let game = started_session(4, 10, 0);
    assert_eq!(game.state, GameState::Active);
    assert_eq!(game.current_phase, GamePhase::Day);
    assert_eq!(game.day_count, 1);
    assert_eq!(game.players[0].role, Role::Mafia);
    assert_eq!(game.players[1].role, Role::Detective);
    assert_eq!(game.players[2].role, Role::Doctor);
    assert_eq!(game.players[3].role, Role::Civilian);
}

#[test]
fn start_assigns_positional_roles_of_eight() {
    let game = started_session(8, 10, 0);
    let expected = [
        Role::Mafia,
        Role::Mafia,
        Role::Detective,
        Role::Doctor,
        Role::Civilian,
        Role::Civilian,
        Role::Civilian,
        Role::Civilian,
    ];
    for (i, want) in expected.iter().enumerate() {
        assert_eq!(game.players[i].role, *want);
    }
}

#[test]
fn start_needs_four_players() {
    let mut game = fresh_session(10, 0);
    for a in 1..=3 {
        assert_eq!(join_game(&mut game, a, 0), Ok(()));
    }
    assert_eq!(start_game(&mut game, CREATOR, 0), Err(ErrorCode::NotEnoughPlayers));
    assert_eq!(game.state, GameState::WaitingForPlayers);
    assert_eq!(join_game(&mut game, 4, 0), Ok(()));
    assert_eq!(start_game(&mut game, CREATOR, 0), Ok(()));
}

#[test]
fn second_ballot_replaces_first() {
    let mut game = started_session(4, 10, 0);
    assert_eq!(cast_vote(&mut game, 2, 3, 300), Ok(()));
    assert_eq!(cast_vote(&mut game, 4, 3, 301), Ok(()));
    assert_eq!(game.votes.len(), 2);
    assert_eq!(cast_vote(&mut game, 2, 1, 302), Ok(()));
    assert_eq!(game.votes.len(), 2);
    assert_eq!(game.votes[0].voter, 4);
    assert_eq!(game.votes[1].voter, 2);
    assert_eq!(game.votes[1].target, 1);
    assert_eq!(game.players[1].vote_target, Some(1));
}

#[test]
fn day_tally_eliminates_highest_count() {
    let mut game = started_session(5, 10, 0);
    // 1 and 2 vote for 4; 3 votes for 5: 4 falls.
    assert_eq!(cast_vote(&mut game, 1, 4, 300), Ok(()));
    assert_eq!(cast_vote(&mut game, 2, 4, 301), Ok(()));
    assert_eq!(cast_vote(&mut game, 3, 5, 302), Ok(()));
    let r = advance_phase(&mut game, 400);
    assert_eq!(r, Ok(Some(4)));
    assert_eq!(game.current_phase, GamePhase::Night);
    assert!(!game.players[3].is_alive);
    assert_eq!(game.eliminated_players, vec![4]);
    assert_eq!(game.votes.len(), 0);
    assert!(game.players.iter().all(|p| p.vote_target.is_none()));
    assert_eq!(game.phase_start_time, 400);
}

#[test]
fn day_tally_tie_goes_to_earliest_ballot() {
    let mut game = started_session(5, 10, 0);
    // One ballot each for 5 and 4: the earliest-cast ballot wins the tie.
    assert_eq!(cast_vote(&mut game, 1, 5, 300), Ok(()));
    assert_eq!(cast_vote(&mut game, 2, 4, 301), Ok(()));
    let r = advance_phase(&mut game, 400);
    assert_eq!(r, Ok(Some(5)));
    assert!(!game.players[4].is_alive);
}

#[test]
fn advance_without_votes_eliminates_nobody() {
    let mut game = started_session(4, 10, 0);
    let r = advance_phase(&mut game, 400);
    assert_eq!(r, Ok(None));
    assert_eq!(game.current_phase, GamePhase::Night);
    assert_eq!(game.eliminated_players.len(), 0);
    assert!(game.players.iter().all(|p| p.is_alive));
    assert_eq!(game.day_count, 1);
    let r2 = advance_phase(&mut game, 500);
    assert_eq!(r2, Ok(None));
    assert_eq!(game.current_phase, GamePhase::Day);
    assert_eq!(game.day_count, 2);
}

fn bare_player(address: u64, is_alive: bool, role: Role) -> Player {
    Player { address, is_alive, role, vote_target: None, joined_at: 0 }
}

fn bare_session(players: Vec<Player>, state: GameState, winner: Option<Winner>) -> Game {
    Game {
        game_id: 1,
        name: String::from("bare"),
        creator: CREATOR,
        max_players: 20,
        entry_fee: 10,
        state,
        current_phase: GamePhase::Day,
        day_count: 2,
        created_at: 0,
        phase_start_time: 0,
        phase_end_time: 0,
        players,
        roles: Vec::new(),
        votes: Vec::new(),
        eliminated_players: Vec::new(),
        winner,
    }
}

#[test]
fn win_tie_goes_to_mafia() {
    let players = vec![
        bare_player(1, true, Role::Mafia),
        bare_player(2, true, Role::Civilian),
        bare_player(3, false, Role::Civilian),
        bare_player(4, false, Role::Civilian),
    ];
    let game = bare_session(players, GameState::Active, None);
    assert_eq!(check_win_condition(&game), Some(Winner::Mafia));
}

#[test]
fn win_town_when_no_mafia_lives() {
    let players = vec![
        bare_player(1, false, Role::Mafia),
        bare_player(2, true, Role::Civilian),
    ];
    let game = bare_session(players, GameState::Active, None);
    assert_eq!(check_win_condition(&game), Some(Winner::Town));
    let nobody = bare_session(Vec::new(), GameState::Active, None);
    assert_eq!(check_win_condition(&nobody), Some(Winner::Town));
}

#[test]
fn win_open_while_mafia_outnumbered() {
    let players = vec![
        bare_player(1, true, Role::Mafia),
        bare_player(2, true, Role::Detective),
        bare_player(3, true, Role::Civilian),
    ];
    let game = bare_session(players, GameState::Active, None);
    assert_eq!(check_win_condition(&game), None);
}

#[test]
fn night_kill_resolves_immediately() {
    let mut game = started_session(4, 10, 0);
    assert_eq!(advance_phase(&mut game, 300), Ok(None));
    assert_eq!(night_action(&mut game, 1, NightActionType::MafiaKill, Some(3)), Ok(()));
    assert!(!game.players[2].is_alive);
    assert_eq!(game.eliminated_players, vec![3]);
    // Kill without a target validates the role and changes nothing.
    assert_eq!(night_action(&mut game, 1, NightActionType::MafiaKill, None), Ok(()));
    assert_eq!(game.eliminated_players, vec![3]);
}

#[test]
fn night_kill_of_dead_target_rejected() {
    let mut game = started_session(4, 10, 0);
    assert_eq!(advance_phase(&mut game, 300), Ok(None));
    assert_eq!(night_action(&mut game, 1, NightActionType::MafiaKill, Some(4)), Ok(()));
    assert_eq!(game.eliminated_players, vec![4]);
    let r = night_action(&mut game, 1, NightActionType::MafiaKill, Some(4));
    assert_eq!(r, Err(ErrorCode::InvalidTarget));
    assert_eq!(game.eliminated_players, vec![4]);
    assert_eq!(game.eliminated_players.len(), 1);
}

#[test]
fn investigate_and_heal_change_nothing() {
    let mut game = started_session(4, 10, 0);
    assert_eq!(advance_phase(&mut game, 300), Ok(None));
    let before_elims = game.eliminated_players.len();
    assert_eq!(
        night_action(&mut game, 2, NightActionType::DetectiveInvestigate, Some(1)),
        Ok(())
    );
    assert_eq!(night_action(&mut game, 3, NightActionType::DoctorHeal, Some(4)), Ok(()));
    assert_eq!(game.eliminated_players.len(), before_elims);
    assert!(game.players.iter().all(|p| p.is_alive));
}

#[test]
fn payout_splits_pot_with_truncation() {
    // Entry fee 10, four seats, Town wins with three of them alive:
    // each eligible claimer is owed 40 / 3 = 13, and 1 stays in escrow.
    let mut game = started_session(4, 10, 10);
    for voter in 2..=4 {
        assert_eq!(cast_vote(&mut game, voter, 1, 300), Ok(()));
    }
    assert_eq!(advance_phase(&mut game, 400), Ok(Some(1)));
    assert_eq!(game.state, GameState::Finished);
    assert_eq!(game.winner, Some(Winner::Town));
    for claimer in 2..=4 {
        assert_eq!(claim_winnings(&game, claimer), Ok(13));
    }
    // A repeated claim is not refused by the record itself.
    assert_eq!(claim_winnings(&game, 2), Ok(13));
    // The fallen Mafia seat gets nothing.
    assert_eq!(claim_winnings(&game, 1), Err(ErrorCode::NotWinner));
}

#[test]
fn mafia_payout_after_mafia_win() {
    let mut game = started_session(4, 10, 8);
    // Night falls with no ballots; the Mafia removes two townsfolk
    // over two nights, leaving one Mafia against one Town: Mafia wins.
    assert_eq!(advance_phase(&mut game, 300), Ok(None));
    assert_eq!(night_action(&mut game, 1, NightActionType::MafiaKill, Some(2)), Ok(()));
    assert_eq!(advance_phase(&mut game, 310), Ok(None));
    assert_eq!(game.state, GameState::Active);
    assert_eq!(advance_phase(&mut game, 320), Ok(None));
    assert_eq!(night_action(&mut game, 1, NightActionType::MafiaKill, Some(3)), Ok(()));
    assert_eq!(advance_phase(&mut game, 330), Ok(None));
    assert_eq!(game.state, GameState::Finished);
    assert_eq!(game.winner, Some(Winner::Mafia));
    assert_eq!(claim_winnings(&game, 1), Ok(32));
    assert_eq!(claim_winnings(&game, 4), Err(ErrorCode::NotWinner));
}

#[test]
fn update_overwrites_and_marks_mafia() {
    let mut game = started_session(4, 10, 0);
    let supplied = vec![
        bare_player(7, true, Role::Civilian),
        bare_player(8, true, Role::Detective),
        bare_player(9, true, Role::Doctor),
        bare_player(10, true, Role::Civilian),
    ];
    let r = update_game_details(
        &mut game,
        CREATOR,
        supplied,
        vec![7, 10],
        Vec::new(),
        Some(Winner::Mafia),
        500,
        600,
    );
    assert_eq!(r, Ok(()));
    assert_eq!(game.players[0].role, Role::Mafia);
    assert_eq!(game.players[1].role, Role::Detective);
    assert_eq!(game.players[2].role, Role::Doctor);
    assert_eq!(game.players[3].role, Role::Mafia);
    assert_eq!(game.phase_start_time, 500);
    assert_eq!(game.phase_end_time, 600);
    assert_eq!(game.state, GameState::Finished);
    assert_eq!(game.winner, Some(Winner::Mafia));
    assert!(is_well_formed(&game));
}

#[test]
fn scripted_session_keeps_invariants() {
    let mut game = fresh_session(6, 5);
    assert!(is_well_formed(&game));
    for a in 1..=5 {
        assert_eq!(join_game(&mut game, a, a as i64), Ok(()));
        assert!(is_well_formed(&game));
    }
    assert_eq!(start_game(&mut game, CREATOR, 10), Ok(()));
    assert!(is_well_formed(&game));
    assert_eq!(cast_vote(&mut game, 1, 5, 11), Ok(()));
    assert!(is_well_formed(&game));
    assert_eq!(cast_vote(&mut game, 2, 5, 12), Ok(()));
    assert!(is_well_formed(&game));
    assert_eq!(cast_vote(&mut game, 2, 4, 13), Ok(()));
    assert!(is_well_formed(&game));
    assert_eq!(advance_phase(&mut game, 20), Ok(Some(5)));
    assert!(is_well_formed(&game));
    assert_eq!(night_action(&mut game, 1, NightActionType::MafiaKill, Some(4)), Ok(()));
    assert!(is_well_formed(&game));
    assert_eq!(advance_phase(&mut game, 30), Ok(None));
    assert!(is_well_formed(&game));
    // One Mafia against two Town: play continues into day two.
    assert_eq!(game.state, GameState::Active);
    assert_eq!(game.day_count, 2);
    assert_eq!(cast_vote(&mut game, 2, 1, 31), Ok(()));
    assert!(is_well_formed(&game));
    assert_eq!(advance_phase(&mut game, 40), Ok(Some(1)));
    assert!(is_well_formed(&game));
    assert_eq!(game.state, GameState::Finished);
    assert_eq!(game.winner, Some(Winner::Town));
    assert_eq!(claim_winnings(&game, 2), Ok(12));
    assert!(is_well_formed(&game));
}
