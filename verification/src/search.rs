use vstd::prelude::*;

mod max_n;
mod negamax;

pub use max_n::{
    max_n, max_n_cached, max_n_cached_is_reproducible, maxn_entry_ok, maxn_result_ok, MaxN,
    SearchExt,
};
pub use negamax::{
    alpha_beta_post, neg_entry_ok, neg_result_ok, negamax, negamax_ab, negamax_ab_cached,
    negamax_cached_is_reproducible, pruning_transparency, Negamax,
};

use crate::cache::{lookup, CacheKey, TranspositionTable, ZobristHash};
use crate::evaluate::{Evaluate, Value, VALUE_CEIL, VALUE_FLOOR};
use crate::moves::Moves;

verus! {

/// The starting point of the engine's maximizing folds: strictly below
/// every score a state may report, so the first explored move always
/// replaces it.
pub const FOLD_START: i16 = -32767;

/// The sentinel depth of a terminal leaf: a fully resolved result is
/// never considered "too shallow" on a later, shallower query.
pub const MAX_DEPTH: u8 = 255;

/// The mathematical value of a search: the effort actually spent, one
/// score per player, and the chosen move, if any.
pub ghost struct SpecResult<M> {
    /// The search depth actually explored, saturating at 255; a terminal
    /// leaf reports 255.
    pub depth: int,
    /// The score of each player at the chosen horizon.
    pub values: Seq<int>,
    /// The move chosen at the root, `None` at a leaf.
    pub best: Option<M>,
}

/// Depth bookkeeping of an inner node: one more than the winning child's
/// depth, saturating at 255.
pub open spec fn sat_inc(d: int) -> int {
    if d >= 255 {
        255
    } else {
        d + 1
    }
}

/// The depth a child is searched to: one less than the node's, saturating
/// at zero, so a non-quiet state at the depth limit keeps the search going.
pub open spec fn dec_depth(d: int) -> int {
    if d <= 0 {
        0
    } else {
        d - 1
    }
}

/// The fold's starting point: a score strictly worse than anything a
/// state may report, for each of `n` players.
pub open spec fn worst_values(n: int) -> Seq<int> {
    Seq::new(n as nat, |i: int| FOLD_START as int)
}

/// The reference semantics of the engine's search: the exhaustive
/// maximizing search of a state to a given depth. Every player maximizes
/// their own coordinate of the score vector; ties between moves are
/// broken in favor of the move enumerated first.
///
/// A terminal state is a leaf of maximal depth; a quiet state at depth
/// zero is a leaf of depth zero; every other state folds over its legal
/// moves in enumeration order.
pub open spec fn spec_max_n<G: Evaluate>(s: G, depth: int) -> SpecResult<G::Move>
    decreases s.height(), 1int, 0int,
        when s.inv()
{
    if s.spec_moves().len() == 0 {
        SpecResult { depth: MAX_DEPTH as int, values: s.spec_values(), best: None }
    } else if depth <= 0 && s.spec_quiet() {
        SpecResult { depth: 0, values: s.spec_values(), best: None }
    } else {
        spec_max_n_prefix(s, depth, s.spec_moves().len() as int)
    }
}

/// The fold of [`spec_max_n`] over the first `n` legal moves: the best
/// result found among them, where "best" compares the acting player's own
/// coordinate with strict greater-than, so the first move achieving the
/// maximum is kept.
pub open spec fn spec_max_n_prefix<G: Evaluate>(s: G, depth: int, n: int) -> SpecResult<G::Move>
    decreases s.height(), 0int, n + 2,
        when s.inv() && n <= s.spec_moves().len()
{
    if n <= 0 {
        SpecResult { depth: 0, values: worst_values(s.players()), best: None }
    } else {
        let prev = spec_max_n_prefix(s, depth, n - 1);
        let child = child_result(s, depth, n - 1);
        if child.values[s.spec_turn()] > prev.values[s.spec_turn()] {
            SpecResult {
                depth: sat_inc(child.depth),
                values: child.values,
                best: Some(s.spec_moves()[n - 1]),
            }
        } else {
            prev
        }
    }
}

/// The search result of the `k`-th child of `s`: the state after the
/// `k`-th legal move, searched one level shallower.
pub open spec fn child_result<G: Evaluate>(s: G, depth: int, k: int) -> SpecResult<G::Move>
    decreases s.height(), 0int, 0int,
        when s.inv() && 0 <= k < s.spec_moves().len()
{
    {
        proof {
            let m = s.spec_moves()[k];
            assert(s.spec_moves().contains(m));
            s.lemma_play_wf(m);
        }
        spec_max_n(s.spec_play(s.spec_moves()[k]), dec_depth(depth))
    }
}

/// The `k`-th child's score for the player acting at `s`: the coordinate
/// the fold of [`spec_max_n`] compares.
pub open spec fn child_value<G: Evaluate>(s: G, depth: int, k: int) -> int
    decreases s.height(), 0int, 1int,
{
    child_result(s, depth, k).values[s.spec_turn()]
}

/// The index of the move [`spec_max_n`] chooses among the first `n`: the
/// first index whose child value is maximal.
pub open spec fn prefix_best_idx<G: Evaluate>(s: G, depth: int, n: int) -> int
    decreases s.height(), 0int, n + 2,
{
    if n <= 1 {
        0
    } else {
        let prev = prefix_best_idx(s, depth, n - 1);
        if child_value(s, depth, n - 1) > child_value(s, depth, prev) {
            n - 1
        } else {
            prev
        }
    }
}

/// Well-formedness of the reference search: the result carries one score
/// per player, every score is a real score (never the fold's starting
/// point), the depth is a valid saturating count, leaves are exactly the
/// terminal and quiet-at-depth-zero states, and a chosen move is always
/// one of the state's legal moves.
pub proof fn lemma_max_n_wf<G: Evaluate>(s: G, depth: int)
    requires
        s.inv(),
    ensures
        spec_max_n(s, depth).values.len() == s.players(),
        forall|i: int|
            0 <= i < spec_max_n(s, depth).values.len() ==> VALUE_FLOOR as int <= #[trigger] spec_max_n(
                s,
                depth,
            ).values[i] <= VALUE_CEIL as int,
        0 <= spec_max_n(s, depth).depth <= 255,
        s.spec_moves().len() == 0 ==> spec_max_n(s, depth) == (SpecResult {
            depth: MAX_DEPTH as int,
            values: s.spec_values(),
            best: None::<G::Move>,
        }),
        s.spec_moves().len() > 0 && depth <= 0 && s.spec_quiet() ==> spec_max_n(s, depth)
            == (SpecResult { depth: 0, values: s.spec_values(), best: None::<G::Move> }),
        s.spec_moves().len() > 0 && !(depth <= 0 && s.spec_quiet()) ==> spec_max_n(s, depth).best
            is Some,
        spec_max_n(s, depth).best matches Some(m) ==> s.spec_moves().contains(m),
    decreases s.height(), 1int, 0int,
{
    s.lemma_evaluate_wf();
    if s.spec_moves().len() == 0 {
    } else if depth <= 0 && s.spec_quiet() {
    } else {
        let n = s.spec_moves().len() as int;
        lemma_prefix_char(s, depth, n);
        let k = prefix_best_idx(s, depth, n);
        let m = s.spec_moves()[k];
        assert(s.spec_moves().contains(m));
        s.lemma_play_wf(m);
        s.lemma_play_keeps_players(m);
        lemma_max_n_wf(s.spec_play(m), dec_depth(depth));
    }
}

/// The fold over the first `n` moves (for `n >= 1`) returns exactly the
/// result of the child at [`prefix_best_idx`], wrapped with the winning
/// move and the incremented depth; that index achieves the maximal child
/// value, and every earlier index is strictly worse — the first move
/// achieving the maximum wins ties.
pub proof fn lemma_prefix_char<G: Evaluate>(s: G, depth: int, n: int)
    requires
        s.inv(),
        1 <= n <= s.spec_moves().len(),
    ensures
        0 <= prefix_best_idx(s, depth, n) < n,
        spec_max_n_prefix(s, depth, n) == (SpecResult {
            depth: sat_inc(child_result(s, depth, prefix_best_idx(s, depth, n)).depth),
            values: child_result(s, depth, prefix_best_idx(s, depth, n)).values,
            best: Some(s.spec_moves()[prefix_best_idx(s, depth, n)]),
        }),
        forall|j: int|
            0 <= j < prefix_best_idx(s, depth, n) ==> #[trigger] child_value(s, depth, j)
                < child_value(s, depth, prefix_best_idx(s, depth, n)),
        forall|j: int|
            0 <= j < n ==> #[trigger] child_value(s, depth, j) <= child_value(
                s,
                depth,
                prefix_best_idx(s, depth, n),
            ),
    decreases s.height(), 0int, n,
{
    s.lemma_evaluate_wf();
    let t = s.spec_turn();
    let m = s.spec_moves()[n - 1];
    assert(s.spec_moves().contains(m));
    s.lemma_play_wf(m);
    s.lemma_play_keeps_players(m);
    lemma_max_n_wf(s.spec_play(m), dec_depth(depth));
    assert(child_result(s, depth, n - 1) == spec_max_n(s.spec_play(m), dec_depth(depth)));
    if n == 1 {
        assert(spec_max_n_prefix(s, depth, 0) == (SpecResult {
            depth: 0,
            values: worst_values(s.players()),
            best: None::<G::Move>,
        }));
        assert(worst_values(s.players())[t] == FOLD_START as int);
        assert(child_value(s, depth, 0) > FOLD_START as int);
    } else {
        lemma_prefix_char(s, depth, n - 1);
        let kp = prefix_best_idx(s, depth, n - 1);
        assert(spec_max_n_prefix(s, depth, n - 1).values[t] == child_value(s, depth, kp));
    }
}

/// On a two-player zero-sum game the reference search's score vector is
/// itself zero-sum at every node: one player's score is the negation of
/// the other's, whatever the depth.
pub proof fn lemma_max_n_zero_sum<G: crate::evaluate::EvaluateZeroSum>(s: G, depth: int)
    requires
        s.inv(),
    ensures
        spec_max_n(s, depth).values.len() == 2,
        spec_max_n(s, depth).values[0] == -spec_max_n(s, depth).values[1],
    decreases s.height(),
{
    s.lemma_evaluate_wf();
    if s.spec_moves().len() == 0 {
    } else if depth <= 0 && s.spec_quiet() {
    } else {
        let n = s.spec_moves().len() as int;
        lemma_prefix_char(s, depth, n);
        let k = prefix_best_idx(s, depth, n);
        let m = s.spec_moves()[k];
        assert(s.spec_moves().contains(m));
        s.lemma_play_wf(m);
        lemma_max_n_zero_sum(s.spec_play(m), dec_depth(depth));
    }
}

/// Depth-zero leaf equivalence: searching a non-terminal, quiet state at
/// depth zero returns no move and the state's own evaluation, unmodified.
pub proof fn lemma_depth_zero_leaf<G: Evaluate>(s: G)
    requires
        s.inv(),
        s.spec_moves().len() > 0,
        s.spec_quiet(),
    ensures
        spec_max_n(s, 0) == (SpecResult { depth: 0, values: s.spec_values(), best: None::<G::Move> }),
{
}

/// Deterministic tie-break: at any searched inner node the chosen move is
/// the one enumerated first among the moves of maximal value — every
/// earlier move is strictly worse, no later move is better.
pub proof fn lemma_first_wins<G: Evaluate>(s: G, depth: int)
    requires
        s.inv(),
        s.spec_moves().len() > 0,
        !(depth <= 0 && s.spec_quiet()),
    ensures
        exists|k: int|
            {
                &&& 0 <= k < s.spec_moves().len()
                &&& spec_max_n(s, depth).best == Some(s.spec_moves()[k])
                &&& forall|j: int|
                    0 <= j < k ==> #[trigger] child_value(s, depth, j) < child_value(s, depth, k)
                &&& forall|j: int|
                    0 <= j < s.spec_moves().len() ==> #[trigger] child_value(s, depth, j)
                        <= child_value(s, depth, k)
            },
{
    let n = s.spec_moves().len() as int;
    lemma_prefix_char(s, depth, n);
    let k = prefix_best_idx(s, depth, n);
    assert({
        &&& 0 <= k < s.spec_moves().len()
        &&& spec_max_n(s, depth).best == Some(s.spec_moves()[k])
        &&& forall|j: int|
            0 <= j < k ==> #[trigger] child_value(s, depth, j) < child_value(s, depth, k)
        &&& forall|j: int|
            0 <= j < s.spec_moves().len() ==> #[trigger] child_value(s, depth, j) <= child_value(
                s,
                depth,
                k,
            )
    });
}

/// The result of a search: the depth actually explored (saturating, with
/// 255 marking a fully resolved subtree), the computed value — a score
/// vector for the N-player search, a single signed score for the
/// zero-sum search — and the chosen move, `None` at a leaf.
#[derive(Clone, Copy, Debug)]
pub struct SearchResult<V, M> {
    /// The search depth actually explored, saturating.
    pub depth: u8,
    /// The computed value.
    pub value: V,
    /// The chosen move, if the root had one worth choosing.
    pub best: Option<M>,
}

/// The mathematical reading of an N-player search result.
pub open spec fn abs_result<M>(r: SearchResult<Vec<Value>, M>) -> SpecResult<M> {
    SpecResult {
        depth: r.depth as int,
        values: r.value@.map_values(|x: Value| x as int),
        best: r.best,
    }
}

/// Every filled slot of `items` holds an entry satisfying `ok` for the
/// key witness it is stored under. An empty table satisfies this
/// trivially, and every search preserves it.
pub open spec fn entries_ok<K, R>(items: Seq<Option<(K, R)>>, ok: spec_fn(K, R) -> bool) -> bool {
    forall|i: int|
        0 <= i < items.len() ==> (#[trigger] items[i] matches Some(e) ==> ok(e.0, e.1))
}

/// Whether the table contents `items` hold an entry for `s` recorded deep
/// enough to answer a query at `depth` without searching: such a hit
/// short-circuits a whole node.
pub open spec fn stored_hit<G: Moves + CacheKey + ZobristHash, V>(
    items: Seq<Option<(G::Key, SearchResult<V, G::Move>)>>,
    s: G,
    depth: u8,
) -> bool {
    lookup(items, s) matches Some(e) && e.depth >= depth
}

/// A search strategy: a depth-bounded search of a game state that
/// consults a transposition table before descending and populates it on
/// the way back up.
///
/// The table makes repeated searches cheap but heuristic: a stored result
/// of a deep earlier search is reused verbatim for a shallower query, so
/// a cached search is not promised to equal the cache-free reference
/// search. What every strategy does promise: the state is handed back
/// unchanged, every table entry it leaves behind satisfies the strategy's
/// entry contract, a chosen move is legal for the root, a terminal root
/// yields no move, a non-terminal root searched to depth one or more
/// always yields one, the recorded depth never falls below the requested
/// one, a deep-enough stored entry answers the query with the table left
/// untouched, and the searched state's slot is filled on return.
pub trait Strategy<G: Moves + CacheKey + ZobristHash>: Sized {
    /// The type of the computed value.
    type Value;

    /// What a table entry stored under the key witness `k` satisfies —
    /// stated for every state carrying that witness, which by
    /// [`CacheKey::lemma_key_faithful`] is a single state.
    spec fn entry_ok(k: G::Key, r: SearchResult<Self::Value, G::Move>) -> bool;

    /// Searches `state` to `depth`, consulting and populating `cache`.
    fn search(
        state: &mut G,
        depth: u8,
        cache: &mut TranspositionTable<G, SearchResult<Self::Value, G::Move>>,
    ) -> (r: SearchResult<Self::Value, G::Move>)
        requires
            old(state).inv(),
            old(cache).wf(),
            entries_ok(old(cache)@, |k: G::Key, e: SearchResult<Self::Value, G::Move>| Self::entry_ok(k, e)),
        ensures
            *final(state) == *old(state),
            final(cache).wf(),
            entries_ok(final(cache)@, |k: G::Key, e: SearchResult<Self::Value, G::Move>| Self::entry_ok(k, e)),
            Self::entry_ok(old(state).spec_key(), r),
            r.best matches Some(m) ==> old(state).spec_moves().contains(m),
            old(state).spec_moves().len() == 0 ==> r.best is None,
            old(state).spec_moves().len() > 0 && depth >= 1 ==> r.best is Some,
            r.depth >= depth,
            stored_hit(old(cache)@, *old(state), depth) ==> final(cache)@ == old(cache)@,
            lookup(final(cache)@, *old(state)) is Some,
    ;
}

} // verus!
