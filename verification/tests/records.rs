//! Tests of the record-level update protocol: the four operations applied
//! directly to `GameState` and `Player` values.

use tap_to_win::create_player;
use tap_to_win::get_leaderboard_info;
use tap_to_win::initialize;
use tap_to_win::submit_score;
use tap_to_win::GameError;
use tap_to_win::PlayerKey;

fn key(n: u64) -> PlayerKey {
    PlayerKey::new(n, 0, 0, 0)
}

#[test]
fn initialize_starts_empty() {
    let admin = key(9);
    let gs = initialize(admin);
    assert_eq!(gs.authority, admin);
    assert_eq!(gs.total_players, 0);
    assert_eq!(gs.total_games, 0);
    assert_eq!(gs.top_score, 0);
    assert_eq!(gs.top_player, None);
}

#[test]
fn create_player_counts_and_fills_record() {
    let admin = key(9);
    let alice = key(1);
    let mut gs = initialize(admin);
    let p = create_player(&mut gs, alice, 42);
    assert_eq!(p.wallet, alice);
    assert_eq!(p.high_score, 0);
    assert_eq!(p.total_games, 0);
    assert_eq!(p.last_played, 42);
    assert_eq!(gs.total_players, 1);
    assert_eq!(gs.total_games, 0);
    assert_eq!(gs.top_score, 0);
    assert_eq!(gs.top_player, None);
}

#[test]
fn high_score_is_max_of_submissions() {
    let alice = key(1);
    let mut gs = initialize(key(9));
    let mut p = create_player(&mut gs, alice, 0);
    assert_eq!(submit_score(&mut p, &mut gs, alice, 5, 1), Ok(()));
    assert_eq!(submit_score(&mut p, &mut gs, alice, 3, 2), Ok(()));
    assert_eq!(submit_score(&mut p, &mut gs, alice, 7, 3), Ok(()));
    assert_eq!(submit_score(&mut p, &mut gs, alice, 7, 4), Ok(()));
    assert_eq!(p.high_score, 7);
    assert_eq!(p.total_games, 4);
    assert_eq!(gs.total_games, 4);
    assert_eq!(gs.top_score, 7);
}

#[test]
fn last_played_updates_even_without_new_best() {
    let alice = key(1);
    let mut gs = initialize(key(9));
    let mut p = create_player(&mut gs, alice, 10);
    assert_eq!(submit_score(&mut p, &mut gs, alice, 50, 11), Ok(()));
    assert_eq!(p.last_played, 11);
    assert_eq!(submit_score(&mut p, &mut gs, alice, 20, 12), Ok(()));
    assert_eq!(p.high_score, 50);
    assert_eq!(p.last_played, 12);
}

#[test]
fn zero_score_is_rejected_without_effect() {
    let alice = key(1);
    let mut gs = initialize(key(9));
    let mut p = create_player(&mut gs, alice, 10);
    let r = submit_score(&mut p, &mut gs, alice, 0, 11);
    assert_eq!(r, Err(GameError::InvalidScore));
    assert_eq!(p.high_score, 0);
    assert_eq!(p.total_games, 0);
    assert_eq!(p.last_played, 10);
    assert_eq!(gs.total_games, 0);
    assert_eq!(gs.top_score, 0);
    assert_eq!(gs.top_player, None);
}

#[test]
fn foreign_caller_is_rejected_without_effect() {
    let alice = key(1);
    let mallory = key(2);
    let mut gs = initialize(key(9));
    let mut p = create_player(&mut gs, alice, 10);
    let r = submit_score(&mut p, &mut gs, mallory, 99, 11);
    assert_eq!(r, Err(GameError::Unauthorized));
    assert_eq!(p.high_score, 0);
    assert_eq!(p.total_games, 0);
    assert_eq!(gs.total_games, 0);
    assert_eq!(gs.top_player, None);
}

#[test]
fn tie_keeps_the_first_holder() {
    let alice = key(1);
    let bob = key(2);
    let mut gs = initialize(key(9));
    let mut pa = create_player(&mut gs, alice, 0);
    let mut pb = create_player(&mut gs, bob, 0);
    assert_eq!(submit_score(&mut pa, &mut gs, alice, 100, 1), Ok(()));
    assert_eq!(gs.top_player, Some(alice));
    assert_eq!(submit_score(&mut pb, &mut gs, bob, 100, 2), Ok(()));
    assert_eq!(gs.top_score, 100);
    assert_eq!(gs.top_player, Some(alice));
    assert_eq!(submit_score(&mut pb, &mut gs, bob, 150, 3), Ok(()));
    assert_eq!(gs.top_score, 150);
    assert_eq!(gs.top_player, Some(bob));
}

#[test]
fn snapshot_mirrors_the_global_record() {
    let alice = key(1);
    let mut gs = initialize(key(9));
    let mut p = create_player(&mut gs, alice, 0);
    assert_eq!(submit_score(&mut p, &mut gs, alice, 12, 1), Ok(()));
    let info = get_leaderboard_info(&gs);
    assert_eq!(info.total_players, 1);
    assert_eq!(info.total_games, 1);
    assert_eq!(info.top_score, 12);
    assert_eq!(info.top_player, Some(alice));
}

#[test]
fn player_key_holds_its_words() {
    let k = PlayerKey::new(1, 2, 3, 4);
    assert_eq!(k.w0, 1);
    assert_eq!(k.w1, 2);
    assert_eq!(k.w2, 3);
    assert_eq!(k.w3, 4);
    assert_ne!(k, PlayerKey::new(1, 2, 3, 5));
}
