//! A minimal leaderboard ledger: per-player high scores and a single global
//! champion, maintained across an unbounded stream of score submissions.
//!
//! The update protocol lives in [`records`]; a keyed record store with the
//! full error protocol lives in [`service`]; the ghost event history and the
//! laws proved about it live in [`history`].

pub mod history;
pub mod records;
pub mod service;

pub use records::create_player;
pub use records::get_leaderboard_info;
pub use records::initialize;
pub use records::submit_score;
pub use records::GameError;
pub use records::GameState;
pub use records::LeaderboardInfo;
pub use records::Player;
pub use records::PlayerKey;
pub use service::Leaderboard;
