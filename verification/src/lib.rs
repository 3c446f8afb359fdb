//! An adversarial tree-search engine for finite, deterministic,
//! perfect-information, turn-based games.
//!
//! A game supplies a state type together with a handful of small contracts:
//! how to enumerate legal moves ([`Moves`]), how to score a state
//! ([`Evaluate`] or, for two-player zero-sum games, [`EvaluateZeroSum`]),
//! and how to apply and undo a move ([`Play`], or the snapshot-based
//! [`PlayClone`]). The engine supplies depth-bounded game-tree search:
//! an exhaustive N-player maximizing search, a two-player zero-sum
//! alpha-beta search whose pruning provably never changes the computed
//! answer, a transposition table with collision-safe validation, and an
//! orchestrator that binds a strategy and a cache to repeated
//! "pick a move" queries.

mod cache;
mod error;
mod evaluate;
mod moves;
mod play;
mod rival;
mod search;
mod tictactoe;

pub use cache::{lookup, slot_of, CacheKey, CloneCacheKey, TranspositionTable, ZobristHash};
pub use error::{RivalError, RivalResult};
pub use evaluate::{Evaluate, EvaluateZeroSum, Value, VALUE_CEIL, VALUE_FLOOR};
pub use moves::Moves;
pub use play::{play_then_unplay, Play, PlayClone};
pub use rival::Rival;
pub use search::{
    abs_result, alpha_beta_post, child_result, child_value, dec_depth, entries_ok,
    lemma_depth_zero_leaf, lemma_first_wins, lemma_max_n_wf, lemma_max_n_zero_sum,
    lemma_prefix_char, max_n, max_n_cached, max_n_cached_is_reproducible, maxn_entry_ok, maxn_result_ok, neg_entry_ok,
    neg_result_ok, negamax, negamax_ab, negamax_ab_cached, negamax_cached_is_reproducible, prefix_best_idx, pruning_transparency, sat_inc, spec_max_n,
    spec_max_n_prefix, worst_values, MaxN, Negamax, SearchExt, SearchResult, SpecResult, Strategy,
    FOLD_START, MAX_DEPTH,
};
pub use tictactoe::{Place, Symbol, TicTacToe};
