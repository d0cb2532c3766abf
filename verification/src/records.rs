//! The two durable records of the leaderboard and the update protocol that
//! mutates them.
//!
//! The hosting platform owns storage, authentication and the clock; the
//! functions here take the affected records and the caller's identity as
//! plain values and state the exact effect of each operation.

use vstd::prelude::*;

verus! {

/// A 256-bit caller identity, held as four 64-bit words.
///
/// The hosting platform guarantees that identities are unforgeable; the
/// library only ever compares them for equality.
#[derive(Clone, Copy, Debug, PartialEq, Eq, Structural)]
pub struct PlayerKey {
    pub w0: u64,
    pub w1: u64,
    pub w2: u64,
    pub w3: u64,
}

impl PlayerKey {
    pub fn new(w0: u64, w1: u64, w2: u64, w3: u64) -> (k: PlayerKey)
        ensures
            k == (PlayerKey { w0, w1, w2, w3 }),
    {
        PlayerKey { w0, w1, w2, w3 }
    }
}

/// The singleton global leaderboard record.
#[derive(Clone, Copy)]
pub struct GameState {
    /// Identity that created the record; immutable after creation.
    pub authority: PlayerKey,
    /// Count of registered players; never decreases.
    pub total_players: u64,
    /// Count of submitted scores across all players; never decreases.
    pub total_games: u64,
    /// Highest score ever submitted; never decreases.
    pub top_score: u64,
    /// Holder of `top_score`; `None` while no score has been submitted.
    pub top_player: Option<PlayerKey>,
}

/// The per-player record, exclusively owned by `wallet`.
#[derive(Clone, Copy)]
pub struct Player {
    /// Identity this record belongs to; immutable after creation.
    pub wallet: PlayerKey,
    /// Count of scores this player has submitted; never decreases.
    pub total_games: u64,
    /// This player's best score ever; 0 until a score is submitted.
    pub high_score: u64,
    /// Time of the most recent submission, or of registration if none yet.
    pub last_played: i64,
}

/// The read-only snapshot served by a leaderboard query.
#[derive(Clone, Copy)]
pub struct LeaderboardInfo {
    pub total_players: u64,
    pub total_games: u64,
    pub top_score: u64,
    pub top_player: Option<PlayerKey>,
}

/// Every way an operation can be refused. No error leaves a partial effect.
#[derive(Clone, Copy, Debug, PartialEq, Eq, Structural)]
pub enum GameError {
    /// A submitted score was 0; scores must be strictly positive.
    InvalidScore,
    /// Initialize was called although the global record already exists.
    AlreadyInitialized,
    /// Register was called although the caller already has a record.
    PlayerAlreadyRegistered,
    /// The global record does not exist yet.
    LeaderboardNotInitialized,
    /// The caller has no player record.
    PlayerRecordNotFound,
    /// The caller does not own the player record it tried to mutate.
    Unauthorized,
}

/// The larger of two scores.
pub open spec fn max_u64(a: u64, b: u64) -> u64 {
    if a >= b {
        a
    } else {
        b
    }
}

/// Creates the global leaderboard record with `authority` as its creator and
/// every counter at zero.
///
/// The store (or platform) must guarantee that this happens at most once; see
/// [`crate::service::Leaderboard::initialize`] for the guarded form.
pub fn initialize(authority: PlayerKey) -> (game_state: GameState)
    ensures
        game_state == (GameState {
            authority,
            total_players: 0,
            total_games: 0,
            top_score: 0,
            top_player: None::<PlayerKey>,
        }),
{
    GameState { authority, total_players: 0, total_games: 0, top_score: 0, top_player: None }
}

/// Creates the player record for `authority` and counts the new player in the
/// global record; both effects form one atomic unit.
///
/// `now` is the platform's clock reading at the time of the call.
pub fn create_player(game_state: &mut GameState, authority: PlayerKey, now: i64) -> (player:
    Player)
    requires
        old(game_state).total_players < u64::MAX,
    ensures
        player == (Player { wallet: authority, total_games: 0, high_score: 0, last_played: now }),
        *final(game_state) == (GameState {
            authority: old(game_state).authority,
            total_players: (old(game_state).total_players + 1) as u64,
            total_games: old(game_state).total_games,
            top_score: old(game_state).top_score,
            top_player: old(game_state).top_player,
        }),
{
    game_state.total_players = game_state.total_players + 1;
    Player { wallet: authority, total_games: 0, high_score: 0, last_played: now }
}

/// Applies one score submission by `authority` to its player record and to
/// the global record, as one atomic unit.
///
/// A zero score is rejected, and a caller that does not own `player` is
/// rejected; a rejected call mutates nothing. On success the player's high
/// score and the global top score each rise to `score` exactly when `score`
/// strictly exceeds them: an equal score never displaces the current holder.
pub fn submit_score(
    player: &mut Player,
    game_state: &mut GameState,
    authority: PlayerKey,
    score: u64,
    now: i64,
) -> (r: Result<(), GameError>)
    requires
        old(player).total_games < u64::MAX,
        old(game_state).total_games < u64::MAX,
    ensures
        r == Err::<(), GameError>(GameError::Unauthorized) <==> authority != old(player).wallet,
        r == Err::<(), GameError>(GameError::InvalidScore) <==> (authority == old(player).wallet
            && score == 0),
        r is Ok <==> (authority == old(player).wallet && score > 0),
        r is Err ==> *final(player) == *old(player) && *final(game_state) == *old(game_state),
        r is Ok ==> *final(player) == (Player {
            wallet: old(player).wallet,
            total_games: (old(player).total_games + 1) as u64,
            high_score: max_u64(old(player).high_score, score),
            last_played: now,
        }),
        r is Ok ==> *final(game_state) == (GameState {
            authority: old(game_state).authority,
            total_players: old(game_state).total_players,
            total_games: (old(game_state).total_games + 1) as u64,
            top_score: max_u64(old(game_state).top_score, score),
            top_player: if score > old(game_state).top_score {
                Some(authority)
            } else {
                old(game_state).top_player
            },
        }),
{
    if !(authority == player.wallet) {
        return Err(GameError::Unauthorized);
    }
    if score == 0 {
        return Err(GameError::InvalidScore);
    }
    if score > player.high_score {
        player.high_score = score;
    }
    player.total_games = player.total_games + 1;
    player.last_played = now;
    game_state.total_games = game_state.total_games + 1;
    if score > game_state.top_score {
        game_state.top_score = score;
        game_state.top_player = Some(authority);
    }
    Ok(())
}

/// The read-only projection of the global record: a pure snapshot, no effect.
pub fn get_leaderboard_info(game_state: &GameState) -> (info: LeaderboardInfo)
    ensures
        info == (LeaderboardInfo {
            total_players: game_state.total_players,
            total_games: game_state.total_games,
            top_score: game_state.top_score,
            top_player: game_state.top_player,
        }),
{
    LeaderboardInfo {
        total_players: game_state.total_players,
        total_games: game_state.total_games,
        top_score: game_state.top_score,
        top_player: game_state.top_player,
    }
}

} // verus!
