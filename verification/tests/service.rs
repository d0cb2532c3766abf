//! Tests of the leaderboard service: lifecycle, error protocol, and the
//! all-or-nothing behaviour of every operation.

use tap_to_win::GameError;
use tap_to_win::Leaderboard;
use tap_to_win::LeaderboardInfo;
use tap_to_win::PlayerKey;

fn key(n: u64) -> PlayerKey {
    PlayerKey::new(n, 0, 0, 0)
}

fn snapshot(lb: &Leaderboard) -> LeaderboardInfo {
    lb.get_leaderboard_info().expect("leaderboard should be initialized")
}

#[test]
fn query_before_initialize_fails() {
    let lb = Leaderboard::new();
    assert_eq!(
        lb.get_leaderboard_info().map(|_| ()),
        Err(GameError::LeaderboardNotInitialized)
    );
}

#[test]
fn register_before_initialize_fails() {
    let mut lb = Leaderboard::new();
    assert_eq!(
        lb.create_player(key(1), 0),
        Err(GameError::LeaderboardNotInitialized)
    );
}

#[test]
fn submit_before_initialize_fails() {
    let mut lb = Leaderboard::new();
    assert_eq!(
        lb.submit_score(key(1), 10, 0),
        Err(GameError::LeaderboardNotInitialized)
    );
}

#[test]
fn second_initialize_fails_and_changes_nothing() {
    let admin = key(9);
    let alice = key(1);
    let mut lb = Leaderboard::new();
    assert_eq!(lb.initialize(admin), Ok(()));
    assert_eq!(lb.create_player(alice, 1), Ok(()));
    assert_eq!(lb.submit_score(alice, 40, 2), Ok(()));
    let before = snapshot(&lb);

    assert_eq!(lb.initialize(key(3)), Err(GameError::AlreadyInitialized));

    let after = snapshot(&lb);
    assert_eq!(after.total_players, before.total_players);
    assert_eq!(after.total_games, before.total_games);
    assert_eq!(after.top_score, before.top_score);
    assert_eq!(after.top_player, before.top_player);
}

#[test]
fn second_register_fails_and_changes_nothing() {
    let alice = key(1);
    let mut lb = Leaderboard::new();
    assert_eq!(lb.initialize(key(9)), Ok(()));
    assert_eq!(lb.create_player(alice, 1), Ok(()));
    assert_eq!(lb.submit_score(alice, 25, 2), Ok(()));

    assert_eq!(
        lb.create_player(alice, 3),
        Err(GameError::PlayerAlreadyRegistered)
    );

    let info = snapshot(&lb);
    assert_eq!(info.total_players, 1);
    assert_eq!(info.total_games, 1);
    let record = lb.player_record(alice).expect("alice is registered");
    assert_eq!(record.high_score, 25);
    assert_eq!(record.total_games, 1);
    assert_eq!(record.last_played, 2);
}

#[test]
fn submit_by_unregistered_caller_fails() {
    let mut lb = Leaderboard::new();
    assert_eq!(lb.initialize(key(9)), Ok(()));
    assert_eq!(
        lb.submit_score(key(1), 10, 0),
        Err(GameError::PlayerRecordNotFound)
    );
    assert_eq!(snapshot(&lb).total_games, 0);
}

#[test]
fn zero_score_fails_and_mutates_neither_record() {
    let alice = key(1);
    let mut lb = Leaderboard::new();
    assert_eq!(lb.initialize(key(9)), Ok(()));
    assert_eq!(lb.create_player(alice, 1), Ok(()));

    assert_eq!(lb.submit_score(alice, 0, 2), Err(GameError::InvalidScore));

    let info = snapshot(&lb);
    assert_eq!(info.total_games, 0);
    assert_eq!(info.top_score, 0);
    assert_eq!(info.top_player, None);
    let record = lb.player_record(alice).expect("alice is registered");
    assert_eq!(record.high_score, 0);
    assert_eq!(record.total_games, 0);
    assert_eq!(record.last_played, 1);
}

#[test]
fn player_record_of_unregistered_caller_is_none() {
    let mut lb = Leaderboard::new();
    assert_eq!(lb.initialize(key(9)), Ok(()));
    assert!(lb.player_record(key(1)).is_none());
}

#[test]
fn counters_count_only_successful_calls() {
    let alice = key(1);
    let bob = key(2);
    let mut lb = Leaderboard::new();
    assert_eq!(lb.initialize(key(9)), Ok(()));
    assert_eq!(lb.create_player(alice, 1), Ok(()));
    assert!(lb.create_player(alice, 2).is_err());
    assert_eq!(lb.create_player(bob, 3), Ok(()));
    assert_eq!(lb.submit_score(alice, 5, 4), Ok(()));
    assert!(lb.submit_score(alice, 0, 5).is_err());
    assert!(lb.submit_score(key(7), 6, 6).is_err());
    assert_eq!(lb.submit_score(bob, 8, 7), Ok(()));

    let info = snapshot(&lb);
    assert_eq!(info.total_players, 2);
    assert_eq!(info.total_games, 2);
}

#[test]
fn full_two_player_scenario() {
    let a = key(1);
    let b = key(2);
    let mut lb = Leaderboard::new();
    assert_eq!(lb.initialize(a), Ok(()));
    assert_eq!(lb.create_player(a, 1), Ok(()));
    assert_eq!(lb.create_player(b, 2), Ok(()));

    assert_eq!(lb.submit_score(a, 100, 3), Ok(()));
    let info = snapshot(&lb);
    assert_eq!(info.top_score, 100);
    assert_eq!(info.top_player, Some(a));

    assert_eq!(lb.submit_score(b, 100, 4), Ok(()));
    let info = snapshot(&lb);
    assert_eq!(info.top_score, 100);
    assert_eq!(info.top_player, Some(a));

    assert_eq!(lb.submit_score(b, 150, 5), Ok(()));
    let info = snapshot(&lb);
    assert_eq!(info.total_players, 2);
    assert_eq!(info.total_games, 3);
    assert_eq!(info.top_score, 150);
    assert_eq!(info.top_player, Some(b));
    assert_eq!(lb.player_record(a).expect("registered").high_score, 100);
    assert_eq!(lb.player_record(b).expect("registered").high_score, 150);
}
