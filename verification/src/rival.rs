use vstd::prelude::*;

use std::time::Duration;
use std::time::Instant;

use crate::cache::{CacheKey, TranspositionTable, ZobristHash};
use crate::error::{RivalError, RivalResult};
use crate::moves::Moves;
use crate::play::Play;
use crate::search::{entries_ok, SearchResult, Strategy};

verus! {

/// Declares std::time::Instant so the time-boxed search below can hold a
/// timestamp; the value is opaque to verification.
#[verifier::external_type_specification]
#[verifier::external_body]
pub struct ExInstant(Instant);

/// Relies on std::time::Instant::now: an opaque timestamp of the moment
/// of the call. Nothing is assumed of the value.
#[verifier::external_body]
fn now_instant() -> Instant {
    Instant::now()
}

/// Relies on std::time::Instant::elapsed: the wall-clock time since
/// `start`. Nothing is assumed of the value.
#[verifier::external_body]
fn elapsed_since(start: &Instant) -> Duration {
    start.elapsed()
}

/// Relies on core::time::Duration's ordering: whether `a` is at
/// least `b`. Nothing is assumed of the result; it only steers when the
/// iterative deepening below stops.
#[verifier::external_body]
fn duration_at_least(a: &Duration, b: &Duration) -> bool {
    *a >= *b
}

/// The orchestrator: binds one search strategy and one transposition
/// table to repeated "pick a move" queries against an evolving game
/// state. The table lives as long as the orchestrator and is reused
/// across consecutive searches on the same evolving state, both for
/// exact-depth lookups and for progressively deepening searches.
pub struct Rival<G: Moves + CacheKey + ZobristHash, S: Strategy<G>> {
    cache: TranspositionTable<G, SearchResult<S::Value, G::Move>>,
}

impl<G: Moves + CacheKey + ZobristHash, S: Strategy<G>> Rival<G, S> {
    /// The orchestrator's invariant: a usable table whose every entry
    /// satisfies the strategy's entry contract.
    pub closed spec fn wf(&self) -> bool {
        &&& self.cache.wf()
        &&& entries_ok(
            self.cache@,
            |k: G::Key, e: SearchResult<S::Value, G::Move>| S::entry_ok(k, e),
        )
    }

    /// Creates an orchestrator with an empty transposition table of
    /// `capacity` slots.
    pub fn new(capacity: usize) -> (r: Self)
        requires
            capacity > 0,
        ensures
            r.wf(),
    {
        Rival { cache: TranspositionTable::new(capacity) }
    }

    /// Computes the best move of the acting player, searching `depth`
    /// moves ahead. Fails with [`RivalError::NoMove`] exactly when the
    /// search finds no move — always when the root is terminal, and for
    /// any depth of one or more, only then. The state is handed back
    /// unchanged.
    pub fn get_best(&mut self, game: &mut G, depth: u8) -> (r: RivalResult<G::Move>)
        requires
            old(self).wf(),
            old(game).inv(),
        ensures
            final(self).wf(),
            *final(game) == *old(game),
            r matches Ok(m) ==> old(game).spec_moves().contains(m),
            old(game).spec_moves().len() == 0 ==> r is Err,
            old(game).spec_moves().len() > 0 && depth >= 1 ==> r is Ok,
    {
        let result = S::search(game, depth, &mut self.cache);
        match result.best {
            Some(m) => Ok(m),
            None => Err(RivalError::NoMove),
        }
    }

    /// Computes the best move within a wall-clock budget, by iterative
    /// deepening: starting at depth one, it re-searches at increasing
    /// depth, keeping the most recently completed answer, until the
    /// elapsed time meets or exceeds `timeout` (or the depth counter is
    /// exhausted). The deadline is checked only between full depth
    /// increments, never mid-search, so a single deep increment may
    /// overrun the budget. Fails with [`RivalError::NoMove`] exactly when
    /// the root has no legal move.
    pub fn get_best_within(&mut self, game: &mut G, timeout: Duration) -> (r: RivalResult<G::Move>)
        requires
            old(self).wf(),
            old(game).inv(),
        ensures
            final(self).wf(),
            *final(game) == *old(game),
            r matches Ok(m) ==> old(game).spec_moves().contains(m),
            old(game).spec_moves().len() == 0 ==> r is Err,
            old(game).spec_moves().len() > 0 ==> r is Ok,
    {
        let start = now_instant();
        let mut depth: u8 = 1;
        let mut best: G::Move = match self.get_best(game, depth) {
            Ok(m) => m,
            Err(e) => {
                return Err(e);
            },
        };
        while depth < 255 && !duration_at_least(&elapsed_since(&start), &timeout)
            invariant
                self.wf(),
                *game == *old(game),
                game.inv(),
                depth >= 1,
                old(game).spec_moves().contains(best),
                old(game).spec_moves().len() > 0,
            decreases 255 - depth,
        {
            depth = depth + 1;
            match self.get_best(game, depth) {
                Ok(m) => {
                    best = m;
                },
                Err(_) => {},
            }
        }
        Ok(best)
    }

    /// Computes the best move at `depth` and applies it to the caller's
    /// state. On failure the state is left untouched.
    pub fn play(&mut self, game: &mut G, depth: u8) -> (r: RivalResult<()>) where G: Play
        requires
            old(self).wf(),
            old(game).inv(),
        ensures
            final(self).wf(),
            r is Ok ==> exists|m: G::Move|
                old(game).spec_moves().contains(m) && *final(game) == old(game).spec_play(m),
            r is Err ==> *final(game) == *old(game),
            old(game).spec_moves().len() == 0 ==> r is Err,
            old(game).spec_moves().len() > 0 && depth >= 1 ==> r is Ok,
    {
        let best = match self.get_best(game, depth) {
            Ok(m) => m,
            Err(e) => {
                return Err(e);
            },
        };
        let _token = game.play(&best);
        Ok(())
    }

    /// Computes the best move within the wall-clock budget and applies it
    /// to the caller's state. On failure the state is left untouched.
    pub fn play_within(&mut self, game: &mut G, timeout: Duration) -> (r: RivalResult<()>) where
        G: Play
        requires
            old(self).wf(),
            old(game).inv(),
        ensures
            final(self).wf(),
            r is Ok ==> exists|m: G::Move|
                old(game).spec_moves().contains(m) && *final(game) == old(game).spec_play(m),
            r is Err ==> *final(game) == *old(game),
            old(game).spec_moves().len() == 0 ==> r is Err,
            old(game).spec_moves().len() > 0 ==> r is Ok,
    {
        let best = match self.get_best_within(game, timeout) {
            Ok(m) => m,
            Err(e) => {
                return Err(e);
            },
        };
        let _token = game.play(&best);
        Ok(())
    }
}

} // verus!
