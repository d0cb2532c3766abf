//! The ghost event history of a leaderboard, and the laws proved over it.
//!
//! Every successful Register Player or Submit Score call appends one event;
//! failed calls append nothing. The spec functions here read a history back
//! into the counters, maxima and champion that the records must show, and
//! the lemmas state the laws of that reading: the top score bounds every
//! submitted score, the champion is the first identity to have reached it,
//! and a player's count of games never exceeds the global one.

use vstd::prelude::*;

use crate::records::max_u64;
use crate::records::PlayerKey;

verus! {

/// One successful state-changing call, as the history records it.
pub enum Event {
    /// A successful Register Player call by `wallet` at platform time `at`.
    Registered { wallet: PlayerKey, at: i64 },
    /// A successful Submit Score call of `score` by `player` at time `at`.
    Scored { player: PlayerKey, score: u64, at: i64 },
}

/// Number of successful Submit Score calls in `h`.
pub open spec fn games_in(h: Seq<Event>) -> nat
    decreases h.len(),
{
    if h.len() == 0 {
        0
    } else {
        games_in(h.drop_last()) + if h.last() is Scored {
            1nat
        } else {
            0nat
        }
    }
}

/// Number of successful Register Player calls in `h`.
pub open spec fn players_in(h: Seq<Event>) -> nat
    decreases h.len(),
{
    if h.len() == 0 {
        0
    } else {
        players_in(h.drop_last()) + if h.last() is Registered {
            1nat
        } else {
            0nat
        }
    }
}

/// Whether `w` has successfully registered in `h`.
pub open spec fn registered_in(h: Seq<Event>, w: PlayerKey) -> bool
    decreases h.len(),
{
    if h.len() == 0 {
        false
    } else {
        registered_in(h.drop_last(), w) || (h.last() matches Event::Registered { wallet, .. }
            && wallet == w)
    }
}

/// Number of scores `w` has successfully submitted in `h`.
pub open spec fn player_games_in(h: Seq<Event>, w: PlayerKey) -> nat
    decreases h.len(),
{
    if h.len() == 0 {
        0
    } else {
        player_games_in(h.drop_last(), w) + if (h.last() matches Event::Scored { player, .. }
            && player == w) {
            1nat
        } else {
            0nat
        }
    }
}

/// The highest score `w` has ever submitted in `h`; 0 if none.
pub open spec fn best_in(h: Seq<Event>, w: PlayerKey) -> u64
    decreases h.len(),
{
    if h.len() == 0 {
        0
    } else {
        match h.last() {
            Event::Scored { player, score, .. } => if player == w {
                max_u64(best_in(h.drop_last(), w), score)
            } else {
                best_in(h.drop_last(), w)
            },
            _ => best_in(h.drop_last(), w),
        }
    }
}

/// The highest score anyone has ever submitted in `h`; 0 if none.
pub open spec fn top_score_in(h: Seq<Event>) -> u64
    decreases h.len(),
{
    if h.len() == 0 {
        0
    } else {
        match h.last() {
            Event::Scored { score, .. } => max_u64(top_score_in(h.drop_last()), score),
            _ => top_score_in(h.drop_last()),
        }
    }
}

/// The holder of the top score: the champion changes exactly when a score
/// strictly exceeds every earlier one, so ties leave the earlier holder.
pub open spec fn top_player_in(h: Seq<Event>) -> Option<PlayerKey>
    decreases h.len(),
{
    if h.len() == 0 {
        None
    } else {
        match h.last() {
            Event::Scored { player, score, .. } => if score > top_score_in(h.drop_last()) {
                Some(player)
            } else {
                top_player_in(h.drop_last())
            },
            _ => top_player_in(h.drop_last()),
        }
    }
}

/// The platform time `w` last played: the time of `w`'s latest submission,
/// or of `w`'s registration if `w` has not submitted yet; 0 if `w` never
/// appears in `h`.
pub open spec fn last_played_in(h: Seq<Event>, w: PlayerKey) -> i64
    decreases h.len(),
{
    if h.len() == 0 {
        0
    } else {
        match h.last() {
            Event::Scored { player, at, .. } => if player == w {
                at
            } else {
                last_played_in(h.drop_last(), w)
            },
            Event::Registered { wallet, at } => if wallet == w {
                at
            } else {
                last_played_in(h.drop_last(), w)
            },
        }
    }
}

/// A single event the service could have recorded: a zero score is rejected
/// before any state changes, so every recorded score is positive.
pub open spec fn event_ok(e: Event) -> bool {
    match e {
        Event::Scored { score, .. } => score > 0,
        _ => true,
    }
}

/// Histories the service can produce: every recorded score is positive.
pub open spec fn wf_history(h: Seq<Event>) -> bool {
    forall|i: int| 0 <= i < h.len() ==> event_ok(#[trigger] h[i])
}

/// No player has submitted more scores than were submitted in total.
pub proof fn lemma_player_games_le_games(h: Seq<Event>, w: PlayerKey)
    ensures
        player_games_in(h, w) <= games_in(h),
    decreases h.len(),
{
    if h.len() > 0 {
        lemma_player_games_le_games(h.drop_last(), w);
    }
}

/// Dropping the latest event keeps a history well formed.
proof fn lemma_wf_drop_last(h: Seq<Event>)
    requires
        wf_history(h),
        h.len() > 0,
    ensures
        wf_history(h.drop_last()),
{
    assert forall|i: int| 0 <= i < h.drop_last().len() implies event_ok(
        #[trigger] h.drop_last()[i],
    ) by {
        assert(h.drop_last()[i] == h[i]);
    }
}

/// The top score bounds every score ever submitted.
pub proof fn lemma_top_score_bounds(h: Seq<Event>, k: int)
    requires
        0 <= k < h.len(),
        h[k] is Scored,
    ensures
        h[k]->score <= top_score_in(h),
    decreases h.len(),
{
    if k < h.len() - 1 {
        lemma_top_score_bounds(h.drop_last(), k);
        assert(h.drop_last()[k] == h[k]);
    }
}

/// While nothing has been submitted, the top score is zero and there is no
/// top player.
pub proof fn lemma_no_games_no_top(h: Seq<Event>)
    requires
        games_in(h) == 0,
    ensures
        top_score_in(h) == 0,
        top_player_in(h) is None,
    decreases h.len(),
{
    if h.len() > 0 {
        lemma_no_games_no_top(h.drop_last());
    }
}

/// Once anything has been submitted, the top score is one of the submitted
/// scores: together with [`lemma_top_score_bounds`] it is their maximum.
pub proof fn lemma_top_score_achieved(h: Seq<Event>)
    requires
        games_in(h) > 0,
    ensures
        exists|k: int|
            0 <= k < h.len() && (#[trigger] h[k]) is Scored && h[k]->score == top_score_in(h),
    decreases h.len(),
{
    let d = h.drop_last();
    match h.last() {
        Event::Scored { score, .. } => {
            if score >= top_score_in(d) {
                assert(h[h.len() - 1] is Scored && h[h.len() - 1]->score == top_score_in(h));
            } else {
                if games_in(d) == 0 {
                    lemma_no_games_no_top(d);
                }
                lemma_top_score_achieved(d);
                let k = choose|k: int|
                    0 <= k < d.len() && (#[trigger] d[k]) is Scored && d[k]->score
                        == top_score_in(d);
                assert(h[k] == d[k]);
                assert(h[k] is Scored && h[k]->score == top_score_in(h));
            }
        },
        Event::Registered { .. } => {
            lemma_top_score_achieved(d);
            let k = choose|k: int|
                0 <= k < d.len() && (#[trigger] d[k]) is Scored && d[k]->score == top_score_in(d);
            assert(h[k] == d[k]);
            assert(h[k] is Scored && h[k]->score == top_score_in(h));
        },
    }
}

/// In a well-formed history the three signs of an untouched leaderboard
/// coincide: no submission has happened, the top score is zero, and the top
/// player is unset.
pub proof fn lemma_untouched_iff(h: Seq<Event>)
    requires
        wf_history(h),
    ensures
        games_in(h) == 0 <==> top_score_in(h) == 0,
        games_in(h) == 0 <==> top_player_in(h) is None,
    decreases h.len(),
{
    if games_in(h) == 0 {
        lemma_no_games_no_top(h);
    } else {
        let d = h.drop_last();
        lemma_wf_drop_last(h);
        match h.last() {
            Event::Scored { score, .. } => {
                assert(event_ok(h[h.len() - 1]));
                if score > top_score_in(d) {
                } else {
                    lemma_untouched_iff(d);
                }
            },
            Event::Registered { .. } => {
                lemma_untouched_iff(d);
            },
        }
    }
}

/// First-writer-wins: the top player is the identity of the first submission
/// to have reached the top score; later ties displace nobody.
///
/// `k` is the index of the first submission whose score equals the top
/// score: every earlier submission scored strictly less.
pub proof fn lemma_top_player_first_achiever(h: Seq<Event>, k: int)
    requires
        wf_history(h),
        0 <= k < h.len(),
        h[k] is Scored,
        h[k]->score == top_score_in(h),
        forall|j: int|
            0 <= j < k ==> ((#[trigger] h[j]) is Scored ==> h[j]->score < top_score_in(h)),
    ensures
        top_player_in(h) == Some(h[k]->player),
    decreases h.len(),
{
    let d = h.drop_last();
    lemma_wf_drop_last(h);
    if k == h.len() - 1 {
        assert(event_ok(h[k]));
        if games_in(d) == 0 {
            lemma_no_games_no_top(d);
        } else {
            lemma_top_score_achieved(d);
            let j = choose|j: int|
                0 <= j < d.len() && (#[trigger] d[j]) is Scored && d[j]->score == top_score_in(d);
            assert(h[j] == d[j]);
            assert(h[j]->score < top_score_in(h));
        }
        assert(h[k]->score > top_score_in(d));
    } else {
        match h.last() {
            Event::Scored { score, .. } => {
                if score > top_score_in(d) {
                    lemma_top_score_bounds(d, k);
                    assert(d[k] == h[k]);
                    assert(false);
                } else {
                    assert(top_score_in(h) == top_score_in(d));
                    assert(d[k] == h[k]);
                    assert forall|j: int|
                        0 <= j < k implies ((#[trigger] d[j]) is Scored ==> d[j]->score
                        < top_score_in(d)) by {
                        assert(d[j] == h[j]);
                    }
                    lemma_top_player_first_achiever(d, k);
                }
            },
            Event::Registered { .. } => {
                assert(top_score_in(h) == top_score_in(d));
                assert(d[k] == h[k]);
                assert forall|j: int|
                    0 <= j < k implies ((#[trigger] d[j]) is Scored ==> d[j]->score < top_score_in(
                    d,
                )) by {
                    assert(d[j] == h[j]);
                }
                lemma_top_player_first_achiever(d, k);
            },
        }
    }
}

/// A player's best bounds every score that player ever submitted.
pub proof fn lemma_best_bounds(h: Seq<Event>, w: PlayerKey, k: int)
    requires
        0 <= k < h.len(),
        h[k] is Scored,
        h[k]->player == w,
    ensures
        h[k]->score <= best_in(h, w),
    decreases h.len(),
{
    if k < h.len() - 1 {
        lemma_best_bounds(h.drop_last(), w, k);
        assert(h.drop_last()[k] == h[k]);
    }
}

/// While a player has submitted nothing, that player's best is zero.
pub proof fn lemma_no_player_games_no_best(h: Seq<Event>, w: PlayerKey)
    requires
        player_games_in(h, w) == 0,
    ensures
        best_in(h, w) == 0,
    decreases h.len(),
{
    if h.len() > 0 {
        lemma_no_player_games_no_best(h.drop_last(), w);
    }
}

/// Once a player has submitted anything, that player's best is one of that
/// player's submitted scores: together with [`lemma_best_bounds`] it is
/// their maximum.
pub proof fn lemma_best_achieved(h: Seq<Event>, w: PlayerKey)
    requires
        player_games_in(h, w) > 0,
    ensures
        exists|k: int|
            0 <= k < h.len() && (#[trigger] h[k]) is Scored && h[k]->player == w && h[k]->score
                == best_in(h, w),
    decreases h.len(),
{
    let d = h.drop_last();
    let n = h.len() - 1;
    if h[n] matches Event::Scored { player, score, .. } && player == w && score >= best_in(d, w) {
        assert(h[n] is Scored && h[n]->player == w && h[n]->score == best_in(h, w));
    } else {
        if player_games_in(d, w) == 0 {
            lemma_no_player_games_no_best(d, w);
            assert(false);
        }
        lemma_best_achieved(d, w);
        let k = choose|k: int|
            0 <= k < d.len() && (#[trigger] d[k]) is Scored && d[k]->player == w && d[k]->score
                == best_in(d, w);
        assert(h[k] == d[k]);
        assert(h[k] is Scored && h[k]->player == w && h[k]->score == best_in(h, w));
    }
}

} // verus!
