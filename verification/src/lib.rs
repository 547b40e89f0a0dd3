//! A verified state machine for a multiplayer social-deduction ("Mafia")
//! game session: lobby and joins, positional role assignment, day voting
//! with a deterministic tally, night actions, win evaluation, and pot
//! payout arithmetic. The host that persists sessions, authenticates
//! signers, keeps the clock and moves currency is expected to call these
//! operations one at a time and apply their effects atomically.

pub mod admin;
pub mod lifecycle;
pub mod night;
pub mod payout;
pub mod types;
pub mod voting;

pub use admin::update_game_details;
pub use lifecycle::initialize_counter;
pub use lifecycle::initialize_game;
pub use lifecycle::join_game;
pub use lifecycle::start_game;
pub use night::night_action;
pub use payout::claim_winnings;
pub use types::is_well_formed;
pub use types::ErrorCode;
pub use types::Game;
pub use types::GameCounter;
pub use types::GameView;
pub use types::GamePhase;
pub use types::GameState;
pub use types::NightActionType;
pub use types::Player;
pub use types::Role;
pub use types::Vote;
pub use types::Winner;
pub use voting::advance_phase;
pub use voting::cast_vote;
pub use voting::check_win_condition;
pub use voting::process_day_votes;
