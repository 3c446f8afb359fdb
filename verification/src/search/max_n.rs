use vstd::prelude::*;

use crate::cache::{lookup, slot_of, CacheKey, TranspositionTable, ZobristHash};
use crate::evaluate::{Evaluate, Value, VALUE_CEIL, VALUE_FLOOR};
use crate::play::Play;
use crate::search::{
    abs_result, child_result, dec_depth, entries_ok, spec_max_n, spec_max_n_prefix, stored_hit,
    worst_values, SearchResult, Strategy, FOLD_START, MAX_DEPTH,
};

verus! {

/// Copies a score vector.
pub(crate) fn copy_values(v: &Vec<Value>) -> (out: Vec<Value>)
    ensures
        out@ == v@,
{
    let mut out: Vec<Value> = Vec::new();
    let mut i: usize = 0;
    while i < v.len()
        invariant
            i <= v.len(),
            out@ =~= v@.subrange(0, i as int),
        decreases v.len() - i,
    {
        out.push(v[i]);
        i = i + 1;
    }
    proof {
        assert(out@ =~= v@);
    }
    out
}

/// A score vector strictly worse than anything a state reports, for
/// `players` players: the starting point of the maximizing fold.
pub(crate) fn fold_start_values(players: usize) -> (out: Vec<Value>)
    ensures
        out@.len() == players,
        forall|j: int| 0 <= j < players ==> #[trigger] out@[j] == FOLD_START,
        out@.map_values(|x: Value| x as int) == worst_values(players as int),
{
    let mut out: Vec<Value> = Vec::new();
    let mut i: usize = 0;
    while i < players
        invariant
            i <= players,
            out@.len() == i,
            forall|j: int| 0 <= j < i ==> out@[j] == FOLD_START,
        decreases players - i,
    {
        out.push(FOLD_START);
        i = i + 1;
    }
    proof {
        assert(out@.map_values(|x: Value| x as int) =~= worst_values(players as int));
    }
    out
}

/// The exhaustive N-player maximizing search, without a cache: exactly
/// the reference semantics [`spec_max_n`]. Each player maximizes their
/// own coordinate of the score vector, ties are broken in favor of the
/// move enumerated first, and the state is handed back unchanged.
///
/// MaxN has no valid generalization of alpha-beta pruning for more than
/// two players with arbitrary score vectors, so it is always exhaustive
/// within the depth bound.
pub(crate) fn max_n_rec<G: Evaluate + Play>(state: &mut G, depth: u8, Ghost(h): Ghost<nat>) -> (r:
    SearchResult<Vec<Value>, G::Move>)
    requires
        old(state).inv(),
        old(state).height() == h,
    ensures
        *final(state) == *old(state),
        abs_result(r) == spec_max_n(*old(state), depth as int),
    decreases h,
{
    let ghost s0 = *state;
    let moves = state.moves();
    if moves.len() == 0 {
        let value = state.evaluate();
        SearchResult { depth: MAX_DEPTH, value, best: None }
    } else if depth == 0 && state.quiet() {
        let value = state.evaluate();
        SearchResult { depth: 0, value, best: None }
    } else {
        let turn = state.turn();
        proof {
            s0.lemma_evaluate_wf();
        }
        let probe = state.evaluate();
        let players = probe.len();
        proof {
            assert(probe@.map_values(|x: Value| x as int).len() == s0.players());
        }
        let mut best: SearchResult<Vec<Value>, G::Move> = SearchResult {
            depth: 0,
            value: fold_start_values(players),
            best: None,
        };
        proof {
            assert(abs_result(best) == spec_max_n_prefix(s0, depth as int, 0));
        }
        let next_depth: u8 = if depth == 0 {
            0
        } else {
            depth - 1
        };
        let mut i: usize = 0;
        while i < moves.len()
            invariant
                *state == s0,
                state.inv(),
                s0.height() == h,
                moves@ == s0.spec_moves(),
                moves.len() > 0,
                i <= moves.len(),
                turn as int == s0.spec_turn(),
                players as int == s0.players(),
                turn < players,
                next_depth as int == dec_depth(depth as int),
                best.value@.len() == players,
                abs_result(best) == spec_max_n_prefix(s0, depth as int, i as int),
            decreases moves.len() - i,
        {
            let m = moves[i];
            proof {
                assert(s0.spec_moves().contains(m));
                s0.lemma_play_wf(m);
                s0.lemma_play_keeps_players(m);
            }
            let token = state.play(&m);
            let ghost s1 = *state;
            let current = max_n_rec(state, next_depth, Ghost(s1.height()));
            state.unplay(token);
            proof {
                assert(child_result(s0, depth as int, i as int) == spec_max_n(
                    s1,
                    dec_depth(depth as int),
                ));
                crate::search::lemma_max_n_wf(s1, dec_depth(depth as int));
                assert(abs_result(current).values.len() == s1.players());
                assert(current.value@.len() == players);
                assert(current.value@[turn as int] as int == abs_result(current).values[turn as int]);
                assert(best.value@[turn as int] as int == abs_result(best).values[turn as int]);
            }
            if current.value[turn] > best.value[turn] {
                best = SearchResult {
                    depth: current.depth.saturating_add(1),
                    value: current.value,
                    best: Some(m),
                };
            }
            proof {
                assert(abs_result(best) == spec_max_n_prefix(s0, depth as int, i as int + 1));
            }
            i = i + 1;
        }
        best
    }
}

/// Provides a convenient "best move" query on any game state that can be
/// scored and mutated: the move the cache-free maximizing search chooses,
/// or `None` at a leaf.
pub trait SearchExt: Evaluate + Play {
    /// Returns the best move of the acting player, looking `depth` moves
    /// ahead, or `None` if the state is terminal (or quiet at depth
    /// zero). The state is handed back unchanged.
    fn best_move(&mut self, depth: u8) -> (r: Option<Self::Move>)
        requires
            old(self).inv(),
        ensures
            *final(self) == *old(self),
            r == spec_max_n(*old(self), depth as int).best,
    ;
}

impl<G: Evaluate + Play> SearchExt for G {
    fn best_move(&mut self, depth: u8) -> (r: Option<G::Move>) {
        let result = max_n(self, depth);
        result.best
    }
}

/// The exhaustive N-player maximizing search, without a cache: exactly
/// the reference semantics [`spec_max_n`]. The state is handed back
/// unchanged.
pub fn max_n<G: Evaluate + Play>(state: &mut G, depth: u8) -> (r: SearchResult<
    Vec<Value>,
    G::Move,
>)
    requires
        old(state).inv(),
    ensures
        *final(state) == *old(state),
        abs_result(r) == spec_max_n(*old(state), depth as int),
{
    max_n_rec(state, depth, Ghost(state.height()))
}

/// Copies a search result of the N-player search.
fn copy_search_result<M: Copy>(r: &SearchResult<Vec<Value>, M>) -> (out: SearchResult<
    Vec<Value>,
    M,
>)
    ensures
        out.depth == r.depth,
        out.value@ == r.value@,
        out.best == r.best,
{
    SearchResult { depth: r.depth, value: copy_values(&r.value), best: r.best }
}

/// What a table entry of the N-player search guarantees about the state
/// it was computed for: one in-range score per player, a legal chosen
/// move, no move at a terminal state, and — whenever the recorded depth
/// admits reuse at depth one or more — a move unless the state is
/// terminal.
pub open spec fn maxn_result_ok<G: Evaluate>(s: G, r: SearchResult<Vec<Value>, G::Move>) -> bool {
    &&& r.value@.len() == s.players()
    &&& forall|i: int| 0 <= i < r.value@.len() ==> VALUE_FLOOR <= #[trigger] r.value@[i] <= VALUE_CEIL
    &&& (r.best matches Some(m) ==> s.spec_moves().contains(m))
    &&& (s.spec_moves().len() == 0 ==> r.best is None)
    &&& (r.depth >= 1 ==> (s.spec_moves().len() == 0 || r.best is Some))
}

/// [`maxn_result_ok`] for every state carrying the key witness `k` — by
/// [`CacheKey::lemma_key_faithful`], the one state the entry was written
/// by.
pub open spec fn maxn_entry_ok<G: Evaluate + CacheKey>(
    k: G::Key,
    r: SearchResult<Vec<Value>, G::Move>,
) -> bool {
    forall|s: G| #[trigger] s.spec_key() == k ==> maxn_result_ok(s, r)
}

/// A leaf result — the state's own evaluation, no move — is a sound
/// search result of its state.
proof fn lemma_leaf_result_ok<G: Evaluate>(s: G, r: SearchResult<Vec<Value>, G::Move>)
    requires
        s.inv(),
        r.value@.map_values(|x: Value| x as int) == s.spec_values(),
        r.best is None,
        r.depth >= 1 ==> s.spec_moves().len() == 0,
    ensures
        maxn_result_ok(s, r),
{
    s.lemma_evaluate_wf();
    assert(r.value@.len() == s.spec_values().len());
    assert forall|i: int| 0 <= i < r.value@.len() implies VALUE_FLOOR <= #[trigger] r.value@[i]
        <= VALUE_CEIL by {
        assert(r.value@[i] as int == s.spec_values()[i]);
    }
}

/// The N-player maximizing search with a transposition table: a stored
/// result whose recorded depth is at least the requested depth
/// short-circuits the node — echoed verbatim, with the table left
/// untouched — and every freshly computed node overwrites its slot on
/// the way back up, so the searched state's slot afterwards holds the
/// returned result, recorded at least as deep as requested. Absent such
/// a hit, a terminal root returns the sentinel-depth leaf and a quiet
/// root at depth zero the depth-zero leaf, both carrying the state's own
/// evaluation and no move. Reusing a deeper stored result for a
/// shallower query makes the cached search heuristic — it is not promised
/// to equal the cache-free [`max_n`] — but every answer it returns and
/// every entry it stores is a sound search result of the state it belongs
/// to, as [`maxn_result_ok`] states.
pub fn max_n_cached<G: Evaluate + Play + CacheKey + ZobristHash>(
    state: &mut G,
    depth: u8,
    cache: &mut TranspositionTable<G, SearchResult<Vec<Value>, G::Move>>,
    Ghost(h): Ghost<nat>,
) -> (r: SearchResult<Vec<Value>, G::Move>)
    requires
        old(state).inv(),
        old(state).height() == h,
        old(cache).wf(),
        entries_ok(
            old(cache)@,
            |k: G::Key, e: SearchResult<Vec<Value>, G::Move>| maxn_entry_ok::<G>(k, e),
        ),
    ensures
        *final(state) == *old(state),
        final(cache).wf(),
        entries_ok(
            final(cache)@,
            |k: G::Key, e: SearchResult<Vec<Value>, G::Move>| maxn_entry_ok::<G>(k, e),
        ),
        maxn_result_ok(*old(state), r),
        old(state).spec_moves().len() > 0 && depth >= 1 ==> r.best is Some,
        r.depth >= depth,
        stored_hit(old(cache)@, *old(state), depth) ==> {
            &&& final(cache)@ == old(cache)@
            &&& (lookup(old(cache)@, *old(state)) matches Some(e) && r.depth == e.depth
                && r.value@ == e.value@ && r.best == e.best)
        },
        !stored_hit(old(cache)@, *old(state), depth) ==> {
            &&& (lookup(final(cache)@, *old(state)) matches Some(e) && e.depth == r.depth
                && e.value@ == r.value@ && e.best == r.best)
            &&& (old(state).spec_moves().len() == 0 ==> r.depth == MAX_DEPTH && r.value@.map_values(
                |x: Value| x as int,
            ) == old(state).spec_values() && r.best is None)
            &&& (old(state).spec_moves().len() > 0 && depth == 0 && old(state).spec_quiet()
                ==> r.depth == 0 && r.value@.map_values(|x: Value| x as int) == old(
                state,
            ).spec_values() && r.best is None)
        },
    decreases h,
{
    let ghost s0 = *state;
    proof {
        s0.lemma_evaluate_wf();
    }
    match cache.get(state) {
        Some(res) => {
            if res.depth >= depth {
                proof {
                    let items = cache@;
                    let slot = slot_of(s0.spec_hash(), items.len() as int);
                    assert(items[slot] matches Some(e) && e.0 == s0.spec_key() && e.1 == *res);
                    assert(maxn_entry_ok::<G>(s0.spec_key(), *res));
                    assert(maxn_result_ok(s0, *res));
                }
                return copy_search_result(res);
            }
        },
        None => {},
    }
    let moves = state.moves();
    let best: SearchResult<Vec<Value>, G::Move> = if moves.len() == 0 {
        let value = state.evaluate();
        let leaf = SearchResult { depth: MAX_DEPTH, value, best: None };
        proof {
            lemma_leaf_result_ok(s0, leaf);
        }
        leaf
    } else if depth == 0 && state.quiet() {
        let value = state.evaluate();
        let leaf = SearchResult { depth: 0, value, best: None };
        proof {
            lemma_leaf_result_ok(s0, leaf);
        }
        leaf
    } else {
        let turn = state.turn();
        let probe = state.evaluate();
        let players = probe.len();
        proof {
            assert(probe@.map_values(|x: Value| x as int).len() == s0.players());
        }
        let mut best: SearchResult<Vec<Value>, G::Move> = SearchResult {
            depth: 0,
            value: fold_start_values(players),
            best: None,
        };
        let next_depth: u8 = if depth == 0 {
            0
        } else {
            depth - 1
        };
        let mut i: usize = 0;
        while i < moves.len()
            invariant
                *state == s0,
                state.inv(),
                s0.height() == h,
                moves@ == s0.spec_moves(),
                moves.len() > 0,
                i <= moves.len(),
                turn as int == s0.spec_turn(),
                players as int == s0.players(),
                turn < players,
                next_depth as int == dec_depth(depth as int),
                cache.wf(),
                entries_ok(
                    cache@,
                    |k: G::Key, e: SearchResult<Vec<Value>, G::Move>| maxn_entry_ok::<G>(k, e),
                ),
                best.value@.len() == players,
                i == 0 ==> (forall|j: int| 0 <= j < players ==> #[trigger] best.value@[j]
                    == FOLD_START) && best.best is None,
                i > 0 ==> {
                    &&& forall|j: int|
                        0 <= j < best.value@.len() ==> VALUE_FLOOR <= #[trigger] best.value@[j]
                            <= VALUE_CEIL
                    &&& best.best matches Some(m) && s0.spec_moves().contains(m)
                    &&& best.depth >= 1
                    &&& best.depth >= depth
                },
            decreases moves.len() - i,
        {
            let m = moves[i];
            proof {
                assert(s0.spec_moves().contains(m));
                s0.lemma_play_wf(m);
                s0.lemma_play_keeps_players(m);
                s0.lemma_evaluate_wf();
            }
            let token = state.play(&m);
            let ghost s1 = *state;
            let current = max_n_cached(state, next_depth, cache, Ghost(s1.height()));
            state.unplay(token);
            proof {
                assert(current.value@.len() == players);
                if i == 0 {
                    assert(best.value@[turn as int] == FOLD_START);
                }
                assert(current.value@[turn as int] >= VALUE_FLOOR);
            }
            if current.value[turn] > best.value[turn] {
                best = SearchResult {
                    depth: current.depth.saturating_add(1),
                    value: current.value,
                    best: Some(m),
                };
            }
            i = i + 1;
        }
        proof {
            assert(maxn_result_ok(s0, best));
        }
        best
    };
    proof {
        assert(maxn_result_ok(s0, best));
    }
    let stored = copy_search_result(&best);
    let ghost pre = cache@;
    cache.insert(state, stored);
    proof {
        let slot = slot_of(s0.spec_hash(), pre.len() as int);
        assert forall|s: G| #[trigger] s.spec_key() == s0.spec_key() implies maxn_result_ok(
            s,
            stored,
        ) by {
            G::lemma_key_faithful(s, s0);
        }
        assert forall|i: int| 0 <= i < cache@.len() implies (#[trigger] cache@[i] matches Some(e)
            ==> maxn_entry_ok::<G>(e.0, e.1)) by {
            if i != slot {
                assert(cache@[i] == pre[i]);
            }
        }
        assert(cache@[slot] == Some((s0.spec_key(), stored)));
        assert(lookup(cache@, s0) == Some(stored));
    }
    best
}

/// Repeated searches are reproducible: searching the same state twice in
/// a row at the same depth, against the same table, returns the identical
/// result — the first search leaves its own result in the state's slot,
/// recorded deep enough that the second search is answered from it
/// verbatim.
pub fn max_n_cached_is_reproducible<G: Evaluate + Play + CacheKey + ZobristHash>(
    state: &mut G,
    depth: u8,
    cache: &mut TranspositionTable<G, SearchResult<Vec<Value>, G::Move>>,
) -> (r: (SearchResult<Vec<Value>, G::Move>, SearchResult<Vec<Value>, G::Move>))
    requires
        old(state).inv(),
        old(cache).wf(),
        entries_ok(
            old(cache)@,
            |k: G::Key, e: SearchResult<Vec<Value>, G::Move>| maxn_entry_ok::<G>(k, e),
        ),
    ensures
        *final(state) == *old(state),
        r.1.depth == r.0.depth,
        r.1.value@ == r.0.value@,
        r.1.best == r.0.best,
{
    let first = max_n_cached(state, depth, cache, Ghost(state.height()));
    let second = max_n_cached(state, depth, cache, Ghost(state.height()));
    (first, second)
}

/// The N-player maximizing strategy: exhaustive within the depth bound,
/// with transposition-table reuse.
#[derive(Clone, Copy, Debug)]
pub struct MaxN;

impl<G: Evaluate + Play + CacheKey + ZobristHash> Strategy<G> for MaxN {
    type Value = Vec<Value>;

    open spec fn entry_ok(k: G::Key, r: SearchResult<Vec<Value>, G::Move>) -> bool {
        maxn_entry_ok::<G>(k, r)
    }

    fn search(
        state: &mut G,
        depth: u8,
        cache: &mut TranspositionTable<G, SearchResult<Vec<Value>, G::Move>>,
    ) -> (r: SearchResult<Vec<Value>, G::Move>) {
        let r = max_n_cached(state, depth, cache, Ghost(state.height()));
        proof {
            assert forall|s: G| #[trigger] s.spec_key() == old(state).spec_key() implies
                maxn_result_ok(s, r) by {
                G::lemma_key_faithful(s, *old(state));
            }
        }
        r
    }
}

} // verus!
