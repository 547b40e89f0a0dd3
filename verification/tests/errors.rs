use mafia_game::advance_phase;
use mafia_game::cast_vote;
use mafia_game::claim_winnings;
use mafia_game::initialize_game;
use mafia_game::join_game;
use mafia_game::night_action;
use mafia_game::start_game;
use mafia_game::update_game_details;
use mafia_game::ErrorCode;
use mafia_game::Game;
use mafia_game::GameCounter;
use mafia_game::GamePhase;
use mafia_game::GameState;
use mafia_game::NightActionType;
use mafia_game::Player;
use mafia_game::Role;
use mafia_game::Winner;

const HOST: u64 = 77;

fn lobby_session() -> Game {
    let mut counter = GameCounter { count: 0 };
    initialize_game(&mut counter, String::from("room"), 12, 3, HOST, 0)
}

fn running_session() -> Game {
    let mut game = lobby_session();
    for a in 1..=4 {
        assert_eq!(join_game(&mut game, a, 0), Ok(()));
    }
    assert_eq!(start_game(&mut game, HOST, 0), Ok(()));
    game
}

fn seat(address: u64, is_alive: bool, role: Role) -> Player {
    Player { address, is_alive, role, vote_target: None, joined_at: 0 }
}

#[test]
fn join_rejected_once_started() {
    let mut game = running_session();
    assert_eq!(join_game(&mut game, 9, 0), Err(ErrorCode::GameNotJoinable));
    assert_eq!(game.players.len(), 4);
}

#[test]
fn start_rejected_for_stranger_and_twice() {
    let mut game = lobby_session();
    for a in 1..=4 {
        assert_eq!(join_game(&mut game, a, 0), Ok(()));
    }
    assert_eq!(start_game(&mut game, 5, 0), Err(ErrorCode::NotCreator));
    assert_eq!(game.state, GameState::WaitingForPlayers);
    assert_eq!(start_game(&mut game, HOST, 0), Ok(()));
    assert_eq!(start_game(&mut game, HOST, 0), Err(ErrorCode::GameNotStartable));
}

#[test]
fn vote_rejected_outside_active_day() {
    let mut game = lobby_session();
    assert_eq!(cast_vote(&mut game, 1, 2, 0), Err(ErrorCode::GameNotActive));
    let mut game = running_session();
    assert_eq!(advance_phase(&mut game, 0), Ok(None));
    assert_eq!(cast_vote(&mut game, 1, 2, 0), Err(ErrorCode::NotVotingPhase));
    assert_eq!(game.votes.len(), 0);
}

#[test]
fn vote_rejected_for_strangers() {
    let mut game = running_session();
    assert_eq!(cast_vote(&mut game, 9, 2, 0), Err(ErrorCode::PlayerNotInGame));
    assert_eq!(cast_vote(&mut game, 1, 9, 0), Err(ErrorCode::InvalidTarget));
    assert_eq!(game.votes.len(), 0);
}

#[test]
fn vote_touching_the_dead_rejected() {
    let mut game = running_session();
    // Night one: the Mafia removes seat 4; day two opens.
    assert_eq!(advance_phase(&mut game, 0), Ok(None));
    assert_eq!(night_action(&mut game, 1, NightActionType::MafiaKill, Some(4)), Ok(()));
    assert_eq!(advance_phase(&mut game, 0), Ok(None));
    assert_eq!(cast_vote(&mut game, 2, 4, 0), Err(ErrorCode::InvalidTarget));
    assert_eq!(cast_vote(&mut game, 4, 2, 0), Err(ErrorCode::PlayerDead));
    assert_eq!(game.votes.len(), 0);
}

#[test]
fn advance_rejected_when_not_active() {
    let mut game = lobby_session();
    assert_eq!(advance_phase(&mut game, 0), Err(ErrorCode::GameNotActive));
}

#[test]
fn advance_rejected_in_stuck_lobby_phase() {
    // An active session still sitting in the Lobby phase can only come
    // from a record written outside the normal transitions.
    let mut game = running_session();
    game.current_phase = GamePhase::Lobby;
    assert_eq!(advance_phase(&mut game, 0), Err(ErrorCode::InvalidPhase));
    assert_eq!(game.current_phase, GamePhase::Lobby);
}

#[test]
fn night_action_rejected_outside_night() {
    let mut game = lobby_session();
    assert_eq!(
        night_action(&mut game, 1, NightActionType::MafiaKill, Some(2)),
        Err(ErrorCode::GameNotActive)
    );
    let mut game = running_session();
    assert_eq!(
        night_action(&mut game, 1, NightActionType::MafiaKill, Some(2)),
        Err(ErrorCode::NotNightPhase)
    );
}

#[test]
fn night_action_rejected_for_wrong_actor() {
    let mut game = running_session();
    assert_eq!(advance_phase(&mut game, 0), Ok(None));
    assert_eq!(
        night_action(&mut game, 9, NightActionType::MafiaKill, Some(2)),
        Err(ErrorCode::PlayerNotInGame)
    );
    assert_eq!(
        night_action(&mut game, 4, NightActionType::MafiaKill, Some(2)),
        Err(ErrorCode::InvalidRole)
    );
    assert_eq!(
        night_action(&mut game, 1, NightActionType::DetectiveInvestigate, Some(2)),
        Err(ErrorCode::InvalidRole)
    );
    assert_eq!(
        night_action(&mut game, 2, NightActionType::DoctorHeal, Some(3)),
        Err(ErrorCode::InvalidRole)
    );
    // A fallen actor may not act.
    assert_eq!(night_action(&mut game, 1, NightActionType::MafiaKill, Some(2)), Ok(()));
    assert_eq!(
        night_action(&mut game, 2, NightActionType::DetectiveInvestigate, None),
        Err(ErrorCode::PlayerDead)
    );
}

#[test]
fn claim_rejected_before_finish_and_without_verdict() {
    let game = running_session();
    assert_eq!(claim_winnings(&game, 1), Err(ErrorCode::GameNotFinished));
    let mut broken = running_session();
    broken.state = GameState::Finished;
    assert_eq!(claim_winnings(&broken, 1), Err(ErrorCode::NoWinner));
}

#[test]
fn claim_rejected_for_losers_and_the_dead() {
    let mut game = lobby_session();
    game.entry_fee = 10;
    game.state = GameState::Finished;
    game.winner = Some(Winner::Town);
    game.players = vec![
        seat(1, false, Role::Mafia),
        seat(2, true, Role::Civilian),
        seat(3, false, Role::Civilian),
        seat(4, true, Role::Detective),
    ];
    assert_eq!(claim_winnings(&game, 1), Err(ErrorCode::NotWinner));
    assert_eq!(claim_winnings(&game, 3), Err(ErrorCode::NotWinner));
    assert_eq!(claim_winnings(&game, 9), Err(ErrorCode::NotWinner));
    assert_eq!(claim_winnings(&game, 2), Ok(20));
    assert_eq!(claim_winnings(&game, 4), Ok(20));
}

#[test]
fn update_rejected_for_stranger_and_oversize_roster() {
    let mut game = running_session();
    let r = update_game_details(&mut game, 5, Vec::new(), Vec::new(), Vec::new(), None, 0, 0);
    assert_eq!(r, Err(ErrorCode::NotCreator));
    let oversized: Vec<Player> = (1..=21).map(|a| seat(a, true, Role::Civilian)).collect();
    let r = update_game_details(&mut game, HOST, oversized, Vec::new(), Vec::new(), None, 0, 0);
    assert_eq!(r, Err(ErrorCode::TooManyPlayers));
    assert_eq!(game.players.len(), 4);
}
