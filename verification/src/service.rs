//! The leaderboard service: a keyed record store around the update protocol
//! of [`crate::records`], enforcing the full lifecycle and error protocol.
//!
//! The store holds the singleton global record and one record per registered
//! player, together with the ghost history of every successful call. The
//! invariant [`Leaderboard::well_formed`] ties the stored records to that
//! history: counters count events, high scores are maxima over events, and
//! the champion is the replay of the strictly-greater update rule.

use vstd::prelude::*;

use crate::history::best_in;
use crate::history::games_in;
use crate::history::last_played_in;
use crate::history::lemma_player_games_le_games;
use crate::history::player_games_in;
use crate::history::players_in;
use crate::history::registered_in;
use crate::history::top_player_in;
use crate::history::top_score_in;
use crate::history::wf_history;
use crate::history::Event;
use crate::records::max_u64;
use crate::records::GameError;
use crate::records::GameState;
use crate::records::LeaderboardInfo;
use crate::records::Player;
use crate::records::PlayerKey;

verus! {

/// One stored player record agrees with what the history says of its owner.
pub open spec fn player_matches(p: Player, h: Seq<Event>) -> bool {
    &&& registered_in(h, p.wallet)
    &&& p.high_score == best_in(h, p.wallet)
    &&& p.total_games == player_games_in(h, p.wallet)
    &&& p.last_played == last_played_in(h, p.wallet)
}

/// The leaderboard service: the singleton global record, the per-player
/// record store, and the ghost log of every successful call since creation.
pub struct Leaderboard {
    /// The singleton global record; `None` until Initialize succeeds.
    pub game: Option<GameState>,
    /// One record per registered identity, in order of registration.
    pub players: Vec<Player>,
    /// The ghost log of successful Register Player and Submit Score calls.
    pub history: Ghost<Seq<Event>>,
}

impl Leaderboard {
    /// Whether Initialize has succeeded.
    pub open spec fn is_initialized(self) -> bool {
        self.game is Some
    }

    /// Whether a Register Player call by `w` has succeeded.
    pub open spec fn is_registered(self, w: PlayerKey) -> bool {
        registered_in(self.history@, w)
    }

    /// The store invariant: every record shows exactly what the history of
    /// successful calls dictates. Before Initialize nothing exists; after,
    /// the global counters count events, each player's high score is the
    /// maximum of that player's submitted scores, the top score is the
    /// maximum over all of them, and the top player is the first identity
    /// to have reached it.
    pub open spec fn well_formed(self) -> bool {
        &&& wf_history(self.history@)
        &&& (forall|w: PlayerKey|
            !(#[trigger] registered_in(self.history@, w)) ==> player_games_in(self.history@, w)
                == 0 && best_in(self.history@, w) == 0 && last_played_in(self.history@, w) == 0)
        &&& match self.game {
            None => self.players@.len() == 0 && self.history@.len() == 0,
            Some(g) => {
                &&& g.total_players == players_in(self.history@)
                &&& g.total_games == games_in(self.history@)
                &&& g.top_score == top_score_in(self.history@)
                &&& g.top_player == top_player_in(self.history@)
                &&& self.players@.len() == players_in(self.history@)
                &&& (forall|i: int|
                    0 <= i < self.players@.len() ==> player_matches(
                        #[trigger] self.players@[i],
                        self.history@,
                    ))
                &&& (forall|i: int, j: int|
                    0 <= i < j < self.players@.len() ==> (#[trigger] self.players@[i]).wallet != (
                    #[trigger] self.players@[j]).wallet)
                &&& (forall|w: PlayerKey|
                    #[trigger] registered_in(self.history@, w) ==> exists|i: int|
                        0 <= i < self.players@.len() && (#[trigger] self.players@[i]).wallet == w)
            },
        }
    }

    /// A fresh, uninitialized service: no records, no history.
    pub fn new() -> (lb: Leaderboard)
        ensures
            lb.well_formed(),
            !lb.is_initialized(),
            lb.history@ == Seq::<Event>::empty(),
            lb.players@ == Seq::<Player>::empty(),
    {
        Leaderboard { game: None, players: Vec::new(), history: Ghost(Seq::empty()) }
    }

    /// Creates the singleton global record with `authority` as administrator
    /// and all counters at zero. A second call fails with
    /// `AlreadyInitialized` and changes nothing.
    pub fn initialize(&mut self, authority: PlayerKey) -> (r: Result<(), GameError>)
        requires
            old(self).well_formed(),
        ensures
            final(self).well_formed(),
            final(self).is_initialized(),
            old(self).is_initialized() ==> r == Err::<(), GameError>(GameError::AlreadyInitialized)
                && *final(self) == *old(self),
            !old(self).is_initialized() ==> ({
                &&& r is Ok
                &&& final(self).game == Some(
                    GameState {
                        authority,
                        total_players: 0,
                        total_games: 0,
                        top_score: 0,
                        top_player: None::<PlayerKey>,
                    },
                )
                &&& final(self).players@ == old(self).players@
                &&& final(self).history@ == old(self).history@
            }),
    {
        match self.game {
            Some(_) => Err(GameError::AlreadyInitialized),
            None => {
                self.game = Some(crate::records::initialize(authority));
                Ok(())
            },
        }
    }

    /// Registers the caller: creates its player record and counts it in the
    /// global record, as one atomic unit. Fails with
    /// `LeaderboardNotInitialized` before Initialize and with
    /// `PlayerAlreadyRegistered` on a second call by the same identity; a
    /// failed call changes nothing.
    pub fn create_player(&mut self, authority: PlayerKey, now: i64) -> (r: Result<(), GameError>)
        requires
            old(self).well_formed(),
            old(self).players@.len() < u64::MAX,
        ensures
            final(self).well_formed(),
            !old(self).is_initialized() ==> r == Err::<(), GameError>(
                GameError::LeaderboardNotInitialized,
            ) && *final(self) == *old(self),
            old(self).is_initialized() && old(self).is_registered(authority) ==> r == Err::<
                (),
                GameError,
            >(GameError::PlayerAlreadyRegistered) && *final(self) == *old(self),
            old(self).is_initialized() && !old(self).is_registered(authority) ==> ({
                &&& r is Ok
                &&& final(self).history@ == old(self).history@.push(
                    Event::Registered { wallet: authority, at: now },
                )
                &&& final(self).players@ == old(self).players@.push(
                    Player { wallet: authority, total_games: 0, high_score: 0, last_played: now },
                )
                &&& final(self).game matches Some(g) && old(self).game matches Some(og) && g == (
                GameState {
                    authority: og.authority,
                    total_players: (og.total_players + 1) as u64,
                    total_games: og.total_games,
                    top_score: og.top_score,
                    top_player: og.top_player,
                })
            }),
    {
        let ghost pre = *self;
        if self.game.is_none() {
            return Err(GameError::LeaderboardNotInitialized);
        }
        if self.find_player(authority).is_some() {
            return Err(GameError::PlayerAlreadyRegistered);
        }
        let mut gs = self.game.unwrap();
        let player = crate::records::create_player(&mut gs, authority, now);
        self.game = Some(gs);
        self.players.push(player);
        proof {
            let h = pre.history@;
            let e = Event::Registered { wallet: authority, at: now };
            self.history@ = h.push(e);
            let h2 = self.history@;
            assert(h2.drop_last() =~= h);
            assert(h2.last() == e);
            assert forall|i: int| 0 <= i < h2.len() implies (#[trigger] h2[i]
                matches Event::Scored { score, .. } ==> score > 0) by {
                if i < h.len() {
                    assert(h2[i] == h[i]);
                }
            }
            assert forall|w: PlayerKey| !(#[trigger] registered_in(h2, w)) implies player_games_in(
                h2,
                w,
            ) == 0 && best_in(h2, w) == 0 && last_played_in(h2, w) == 0 by {
                assert(!registered_in(h, w));
                assert(w != authority);
            }
            assert forall|i: int| 0 <= i < self.players@.len() implies player_matches(
                #[trigger] self.players@[i],
                h2,
            ) by {
                let p = self.players@[i];
                if i < pre.players@.len() {
                    assert(player_matches(p, h));
                    assert(p.wallet != authority);
                } else {
                    assert(p == player);
                    assert(!registered_in(h, authority));
                }
            }
            assert forall|w: PlayerKey| #[trigger]
                registered_in(h2, w) implies exists|i: int|
                0 <= i < self.players@.len() && (#[trigger] self.players@[i]).wallet == w by {
                if w == authority {
                    assert(self.players@[pre.players@.len() as int].wallet == w);
                } else {
                    assert(registered_in(h, w));
                    let i = choose|i: int|
                        0 <= i < pre.players@.len() && (#[trigger] pre.players@[i]).wallet == w;
                    assert(self.players@[i].wallet == w);
                }
            }
        }
        Ok(())
    }

    /// Applies one score submission by `authority`, updating its player
    /// record and the global record as one atomic unit. Fails with
    /// `LeaderboardNotInitialized` before Initialize, `PlayerRecordNotFound`
    /// for an unregistered caller and `InvalidScore` for a zero score; a
    /// failed call changes nothing. On success both records follow the
    /// strictly-greater update rule: an equal score displaces no holder.
    pub fn submit_score(&mut self, authority: PlayerKey, score: u64, now: i64) -> (r: Result<
        (),
        GameError,
    >)
        requires
            old(self).well_formed(),
            games_in(old(self).history@) < u64::MAX,
        ensures
            final(self).well_formed(),
            !old(self).is_initialized() ==> r == Err::<(), GameError>(
                GameError::LeaderboardNotInitialized,
            ) && *final(self) == *old(self),
            old(self).is_initialized() && !old(self).is_registered(authority) ==> r == Err::<
                (),
                GameError,
            >(GameError::PlayerRecordNotFound) && *final(self) == *old(self),
            old(self).is_initialized() && old(self).is_registered(authority) && score == 0 ==> r
                == Err::<(), GameError>(GameError::InvalidScore) && *final(self) == *old(self),
            old(self).is_initialized() && old(self).is_registered(authority) && score > 0 ==> ({
                &&& r is Ok
                &&& final(self).history@ == old(self).history@.push(
                    Event::Scored { player: authority, score, at: now },
                )
                &&& final(self).game matches Some(g) && old(self).game matches Some(og) && g == (
                GameState {
                    authority: og.authority,
                    total_players: og.total_players,
                    total_games: (og.total_games + 1) as u64,
                    top_score: max_u64(og.top_score, score),
                    top_player: if score > og.top_score {
                        Some(authority)
                    } else {
                        og.top_player
                    },
                })
                &&& final(self).players@.len() == old(self).players@.len()
                &&& (forall|i: int|
                    0 <= i < old(self).players@.len() && (#[trigger] old(
                        self,
                    ).players@[i]).wallet != authority ==> final(self).players@[i] == old(
                        self,
                    ).players@[i])
                &&& (forall|i: int|
                    0 <= i < old(self).players@.len() && (#[trigger] old(
                        self,
                    ).players@[i]).wallet == authority ==> final(self).players@[i] == (Player {
                        wallet: authority,
                        total_games: (old(self).players@[i].total_games + 1) as u64,
                        high_score: max_u64(old(self).players@[i].high_score, score),
                        last_played: now,
                    }))
            }),
    {
        let ghost pre = *self;
        if self.game.is_none() {
            return Err(GameError::LeaderboardNotInitialized);
        }
        let found = self.find_player(authority);
        if found.is_none() {
            return Err(GameError::PlayerRecordNotFound);
        }
        let i = found.unwrap();
        if score == 0 {
            return Err(GameError::InvalidScore);
        }
        let mut gs = self.game.unwrap();
        proof {
            lemma_player_games_le_games(pre.history@, authority);
        }
        let result = crate::records::submit_score(
            &mut self.players[i],
            &mut gs,
            authority,
            score,
            now,
        );
        self.game = Some(gs);
        proof {
            let h = pre.history@;
            let e = Event::Scored { player: authority, score, at: now };
            self.history@ = h.push(e);
            let h2 = self.history@;
            assert(h2.drop_last() =~= h);
            assert(h2.last() == e);
            assert forall|k: int| 0 <= k < h2.len() implies (#[trigger] h2[k]
                matches Event::Scored { score: s, .. } ==> s > 0) by {
                if k < h.len() {
                    assert(h2[k] == h[k]);
                }
            }
            assert forall|w: PlayerKey| !(#[trigger] registered_in(h2, w)) implies player_games_in(
                h2,
                w,
            ) == 0 && best_in(h2, w) == 0 && last_played_in(h2, w) == 0 by {
                assert(!registered_in(h, w));
                assert(w != authority);
            }
            assert forall|k: int| 0 <= k < self.players@.len() implies player_matches(
                #[trigger] self.players@[k],
                h2,
            ) by {
                let p = self.players@[k];
                assert(player_matches(pre.players@[k], h));
                if k == i {
                    assert(p.wallet == authority);
                } else {
                    assert(p == pre.players@[k]);
                    assert(pre.players@[k].wallet != pre.players@[i as int].wallet);
                }
            }
            assert forall|w: PlayerKey| #[trigger]
                registered_in(h2, w) implies exists|k: int|
                0 <= k < self.players@.len() && (#[trigger] self.players@[k]).wallet == w by {
                assert(registered_in(h, w));
                let k = choose|k: int|
                    0 <= k < pre.players@.len() && (#[trigger] pre.players@[k]).wallet == w;
                assert(self.players@[k].wallet == w);
            }
        }
        result
    }

    /// The read-only projection of the global record: a snapshot of the
    /// counters and the champion, or `LeaderboardNotInitialized` before
    /// Initialize. No state changes either way.
    pub fn get_leaderboard_info(&self) -> (r: Result<LeaderboardInfo, GameError>)
        ensures
            !self.is_initialized() ==> r == Err::<LeaderboardInfo, GameError>(
                GameError::LeaderboardNotInitialized,
            ),
            self.is_initialized() ==> (self.game matches Some(g) && r == Ok::<
                LeaderboardInfo,
                GameError,
            >(
                LeaderboardInfo {
                    total_players: g.total_players,
                    total_games: g.total_games,
                    top_score: g.top_score,
                    top_player: g.top_player,
                },
            )),
    {
        match &self.game {
            None => Err(GameError::LeaderboardNotInitialized),
            Some(g) => Ok(crate::records::get_leaderboard_info(g)),
        }
    }

    /// A read-only copy of the caller's player record, or `None` if the
    /// caller never registered.
    pub fn player_record(&self, wallet: PlayerKey) -> (r: Option<Player>)
        requires
            self.well_formed(),
        ensures
            match r {
                Some(p) => self.is_registered(wallet) && p.wallet == wallet && exists|i: int|
                    0 <= i < self.players@.len() && self.players@[i] == p,
                None => !self.is_registered(wallet),
            },
    {
        match self.find_player(wallet) {
            Some(i) => Some(self.players[i]),
            None => None,
        }
    }

    /// Linear scan of the record store for the record owned by `w`.
    fn find_player(&self, w: PlayerKey) -> (r: Option<usize>)
        ensures
            match r {
                Some(i) => i < self.players@.len() && self.players@[i as int].wallet == w,
                None => forall|i: int|
                    0 <= i < self.players@.len() ==> (#[trigger] self.players@[i]).wallet != w,
            },
    {
        let mut i: usize = 0;
        while i < self.players.len()
            invariant
                i <= self.players@.len(),
                forall|j: int| 0 <= j < i ==> (#[trigger] self.players@[j]).wallet != w,
            decreases self.players@.len() - i,
        {
            if self.players[i].wallet == w {
                return Some(i);
            }
            i = i + 1;
        }
        None
    }
}

} // verus!
