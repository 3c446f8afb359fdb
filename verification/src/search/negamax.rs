use vstd::prelude::*;

use crate::cache::{lookup, slot_of, CacheKey, TranspositionTable, ZobristHash};
use crate::evaluate::{Evaluate, EvaluateZeroSum, Value, VALUE_CEIL, VALUE_FLOOR};
use crate::play::Play;
use crate::search::{
    child_result, child_value, dec_depth, entries_ok, lemma_max_n_wf, lemma_max_n_zero_sum,
    lemma_prefix_char, prefix_best_idx, sat_inc, spec_max_n, spec_max_n_prefix, stored_hit,
    SearchResult, Strategy, FOLD_START, MAX_DEPTH,
};

verus! {

/// What an alpha-beta search of `s` to `depth` inside the window
/// `(alpha, beta)` establishes about its result, relative to the true
/// value `t` the reference search [`spec_max_n`] assigns to the acting
/// player. Inside the window the search is exact — value, chosen move and
/// explored depth all equal the reference search's; outside it the result
/// is a faithful bound on which side of the window the true value lies.
pub open spec fn alpha_beta_post<G: EvaluateZeroSum>(
    s: G,
    depth: int,
    alpha: int,
    beta: int,
    r: SearchResult<Value, G::Move>,
) -> bool {
    let spec = spec_max_n(s, depth);
    let t = spec.values[s.spec_turn()];
    &&& (alpha < t < beta ==> r.value as int == t && r.best == spec.best && r.depth as int
        == spec.depth)
    &&& (t <= alpha ==> t <= r.value as int <= alpha)
    &&& (t >= beta ==> beta <= r.value as int <= t)
}

/// The recursive worker of the two-player zero-sum search: negamax with
/// alpha-beta pruning, without a cache. A branch is abandoned as soon as
/// its value can no longer affect the answer at its parent; the contract
/// states that this changes only the cost of the search, never its
/// answer, as [`alpha_beta_post`] spells out.
///
/// If a move leaves the acting player unchanged (some games allow extra
/// turns) the recursion keeps the window and the sign; if the acting
/// player changes, it searches the child inside the negated, swapped
/// window and negates the returned value.
pub fn negamax_ab<G: EvaluateZeroSum + Play>(
    state: &mut G,
    depth: u8,
    alpha: Value,
    beta: Value,
    Ghost(h): Ghost<nat>,
) -> (r: SearchResult<Value, G::Move>)
    requires
        old(state).inv(),
        old(state).height() == h,
        FOLD_START as int <= alpha < beta <= 32767,
    ensures
        *final(state) == *old(state),
        VALUE_FLOOR as int <= r.value as int <= VALUE_CEIL as int,
        alpha_beta_post(*old(state), depth as int, alpha as int, beta as int, r),
    decreases h,
{
    let ghost s0 = *state;
    proof {
        s0.lemma_evaluate_wf();
    }
    let moves = state.moves();
    if moves.len() == 0 {
        let e = EvaluateZeroSum::evaluate(state);
        proof {
            EvaluateZeroSum::lemma_value_wf(state);
        }
        let v: Value = if EvaluateZeroSum::min_turn(state) {
            -e
        } else {
            e
        };
        SearchResult { depth: MAX_DEPTH, value: v, best: None }
    } else if depth == 0 && EvaluateZeroSum::quiet(state) {
        let e = EvaluateZeroSum::evaluate(state);
        proof {
            EvaluateZeroSum::lemma_value_wf(state);
        }
        let v: Value = if EvaluateZeroSum::min_turn(state) {
            -e
        } else {
            e
        };
        SearchResult { depth: 0, value: v, best: None }
    } else {
        let ghost d = depth as int;
        let ghost n = moves@.len() as int;
        let ghost p = s0.spec_turn();
        let min0 = EvaluateZeroSum::min_turn(state);
        let next_depth: u8 = if depth == 0 {
            0
        } else {
            depth - 1
        };
        let mut alpha_cur = alpha;
        let mut best: SearchResult<Value, G::Move> = SearchResult {
            depth: 0,
            value: FOLD_START,
            best: None,
        };
        proof {
            lemma_prefix_char(s0, d, n);
            assert(spec_max_n(s0, d) == spec_max_n_prefix(s0, d, n));
            assert(spec_max_n_prefix(s0, d, 0).values[p] == FOLD_START as int);
        }
        let mut i: usize = 0;
        while i < moves.len()
            invariant_except_break
                *state == s0,
                state.inv(),
                s0.height() == h,
                moves@ == s0.spec_moves(),
                0 < n == moves@.len(),
                i <= n,
                d == depth as int,
                p == s0.spec_turn(),
                min0 == s0.spec_min_turn(),
                next_depth as int == dec_depth(d),
                FOLD_START as int <= alpha < beta <= 32767,
                spec_max_n(s0, d) == spec_max_n_prefix(s0, d, n),
                alpha <= alpha_cur < beta,
                alpha_cur as int == if best.value > alpha {
                    best.value as int
                } else {
                    alpha as int
                },
                FOLD_START as int <= best.value as int <= VALUE_CEIL as int,
                i > 0 ==> VALUE_FLOOR as int <= best.value as int,
                spec_max_n_prefix(s0, d, i as int).values[p] < beta as int,
                spec_max_n_prefix(s0, d, i as int).values[p] <= alpha as int ==> {
                    &&& spec_max_n_prefix(s0, d, i as int).values[p] <= best.value as int
                    &&& best.value <= alpha
                },
                spec_max_n_prefix(s0, d, i as int).values[p] > alpha as int ==> {
                    &&& best.value as int == spec_max_n_prefix(s0, d, i as int).values[p]
                    &&& best.best == spec_max_n_prefix(s0, d, i as int).best
                    &&& best.depth as int == spec_max_n_prefix(s0, d, i as int).depth
                },
            ensures
                *state == s0,
                VALUE_FLOOR as int <= best.value as int <= VALUE_CEIL as int,
                alpha_beta_post(s0, depth as int, alpha as int, beta as int, best),
            decreases moves.len() - i,
        {
            let ghost tp = spec_max_n_prefix(s0, d, i as int).values[p];
            let m = moves[i];
            proof {
                assert(s0.spec_moves().contains(m));
                s0.lemma_play_wf(m);
            }
            let token = state.play(&m);
            let ghost s1 = *state;
            let min1 = EvaluateZeroSum::min_turn(state);
            let sub = if min0 == min1 {
                negamax_ab(state, next_depth, alpha_cur, beta, Ghost(s1.height()))
            } else {
                negamax_ab(state, next_depth, -beta, -alpha_cur, Ghost(s1.height()))
            };
            state.unplay(token);
            let current_value: Value = if min0 == min1 {
                sub.value
            } else {
                -sub.value
            };
            proof {
                assert(child_result(s0, d, i as int) == spec_max_n(s1, dec_depth(d)));
                lemma_max_n_wf(s1, dec_depth(d));
                lemma_max_n_zero_sum(s1, dec_depth(d));
                s1.lemma_evaluate_wf();
                let ti = child_value(s0, d, i as int);
                if min0 == min1 {
                    assert(s1.spec_turn() == p);
                } else {
                    assert(s1.spec_turn() == 1 - p);
                    assert(spec_max_n(s1, dec_depth(d)).values[1 - p] == -spec_max_n(
                        s1,
                        dec_depth(d),
                    ).values[p]);
                }
                // The child facts, perspective-corrected: exactness inside
                // the window, a faithful bound outside it.
                assert(alpha_cur < ti < beta ==> current_value as int == ti
                    && sub.depth as int == child_result(s0, d, i as int).depth);
                assert(ti <= alpha_cur ==> ti <= current_value as int <= alpha_cur as int);
                assert(ti >= beta ==> beta as int <= current_value as int <= ti);
                assert(VALUE_FLOOR as int <= current_value as int <= VALUE_CEIL as int);
            }
            if current_value > best.value {
                if current_value > alpha_cur {
                    alpha_cur = current_value;
                }
                best = SearchResult {
                    depth: sub.depth.saturating_add(1),
                    value: current_value,
                    best: Some(m),
                };
            }
            proof {
                assert(spec_max_n_prefix(s0, d, i as int + 1) == if child_result(
                    s0,
                    d,
                    i as int,
                ).values[p] > spec_max_n_prefix(s0, d, i as int).values[p] {
                    crate::search::SpecResult {
                        depth: sat_inc(child_result(s0, d, i as int).depth),
                        values: child_result(s0, d, i as int).values,
                        best: Some(s0.spec_moves()[i as int]),
                    }
                } else {
                    spec_max_n_prefix(s0, d, i as int)
                });
            }
            i = i + 1;
            if alpha_cur >= beta {
                proof {
                    lemma_prefix_char(s0, d, n);
                    let k = prefix_best_idx(s0, d, n);
                    let t = spec_max_n(s0, d).values[p];
                    assert(child_value(s0, d, i - 1) <= child_value(s0, d, k));
                    assert(t == child_value(s0, d, k));
                }
                break ;
            }
        }
        best
    }
}

/// The two-player zero-sum search, without a cache: negamax with
/// alpha-beta pruning over the full window. Pruning transparency is its
/// contract: for every two-player zero-sum game and every depth, the
/// returned value, chosen move and explored depth are identical to the
/// reference maximizing search's root-perspective result at the same
/// depth — pruning changes the number of nodes visited, never the answer.
/// The returned value is stated from the acting player's own perspective.
pub fn negamax<G: EvaluateZeroSum + Play>(state: &mut G, depth: u8) -> (r: SearchResult<
    Value,
    G::Move,
>)
    requires
        old(state).inv(),
    ensures
        *final(state) == *old(state),
        r.value as int == spec_max_n(*old(state), depth as int).values[old(state).spec_turn()],
        r.best == spec_max_n(*old(state), depth as int).best,
        r.depth as int == spec_max_n(*old(state), depth as int).depth,
{
    let r = negamax_ab(state, depth, FOLD_START, 32767, Ghost(state.height()));
    proof {
        let s0 = *old(state);
        s0.lemma_evaluate_wf();
        lemma_max_n_wf(s0, depth as int);
        assert((FOLD_START as int) < spec_max_n(s0, depth as int).values[s0.spec_turn()] < 32767);
    }
    r
}

/// Pruning transparency, composed: for every two-player zero-sum game
/// and every depth, the alpha-beta search returns the same move, the
/// same explored depth and the same acting-player value as the
/// exhaustive maximizing search — pruning changes the number of nodes
/// visited, never the answer. The pair holds the exhaustive result
/// first, the pruned result second; nothing is assumed here beyond the
/// two searches' own contracts.
pub fn pruning_transparency<G: EvaluateZeroSum + Play>(state: &mut G, depth: u8) -> (r: (
    SearchResult<Vec<Value>, G::Move>,
    SearchResult<Value, G::Move>,
))
    requires
        old(state).inv(),
    ensures
        *final(state) == *old(state),
        r.1.best == r.0.best,
        r.1.depth == r.0.depth,
        r.1.value as int == crate::search::abs_result(r.0).values[Evaluate::spec_turn(old(state))],
{
    let full = crate::search::max_n(state, depth);
    let pruned = negamax(state, depth);
    (full, pruned)
}

/// What a table entry of the zero-sum search guarantees about the state
/// it was computed for: an in-range score, a legal chosen move, no move
/// at a terminal state, and — whenever the recorded depth admits reuse at
/// depth one or more — a move unless the state is terminal.
pub open spec fn neg_result_ok<G: EvaluateZeroSum>(s: G, r: SearchResult<Value, G::Move>) -> bool {
    &&& VALUE_FLOOR <= r.value <= VALUE_CEIL
    &&& (r.best matches Some(m) ==> s.spec_moves().contains(m))
    &&& (s.spec_moves().len() == 0 ==> r.best is None)
    &&& (r.depth >= 1 ==> (s.spec_moves().len() == 0 || r.best is Some))
}

/// [`neg_result_ok`] for every state carrying the key witness `k` — by
/// [`CacheKey::lemma_key_faithful`], the one state the entry was written
/// by.
pub open spec fn neg_entry_ok<G: EvaluateZeroSum + CacheKey>(
    k: G::Key,
    r: SearchResult<Value, G::Move>,
) -> bool {
    forall|s: G| #[trigger] s.spec_key() == k ==> neg_result_ok(s, r)
}

/// The zero-sum alpha-beta search with a transposition table: a stored
/// result whose recorded depth is at least the requested depth
/// short-circuits the node — echoed verbatim, with the table left
/// untouched — and every freshly computed node overwrites its slot on
/// the way back up, so the searched state's slot afterwards holds the
/// returned result, recorded at least as deep as requested. Absent such
/// a hit, a terminal root returns the sentinel-depth leaf and a quiet
/// root at depth zero the depth-zero leaf, both carrying the state's own
/// evaluation from the acting player's perspective and no move. Because
/// inner nodes store results computed under narrowed windows, and deeper
/// stored results answer shallower queries verbatim, the cached search
/// is heuristic — exactness is the cache-free [`negamax`]'s contract —
/// but every answer it returns and every entry it stores is a sound
/// search result of the state it belongs to, as [`neg_result_ok`]
/// states.
pub fn negamax_ab_cached<G: EvaluateZeroSum + Play + CacheKey + ZobristHash>(
    state: &mut G,
    depth: u8,
    alpha: Value,
    beta: Value,
    cache: &mut TranspositionTable<G, SearchResult<Value, G::Move>>,
    Ghost(h): Ghost<nat>,
) -> (r: SearchResult<Value, G::Move>)
    requires
        old(state).inv(),
        old(state).height() == h,
        FOLD_START as int <= alpha < beta <= 32767,
        old(cache).wf(),
        entries_ok(old(cache)@, |k: G::Key, e: SearchResult<Value, G::Move>| neg_entry_ok::<G>(k, e)),
    ensures
        *final(state) == *old(state),
        final(cache).wf(),
        entries_ok(final(cache)@, |k: G::Key, e: SearchResult<Value, G::Move>| neg_entry_ok::<G>(k, e)),
        neg_result_ok(*old(state), r),
        old(state).spec_moves().len() > 0 && depth >= 1 ==> r.best is Some,
        r.depth >= depth,
        stored_hit(old(cache)@, *old(state), depth) ==> {
            &&& final(cache)@ == old(cache)@
            &&& (lookup(old(cache)@, *old(state)) matches Some(e) && r == e)
        },
        !stored_hit(old(cache)@, *old(state), depth) ==> {
            &&& lookup(final(cache)@, *old(state)) == Some(r)
            &&& (old(state).spec_moves().len() == 0 ==> r.depth == MAX_DEPTH && r.value as int
                == (if old(state).spec_min_turn() {
                -old(state).spec_value()
            } else {
                old(state).spec_value()
            }) && r.best is None)
            &&& (old(state).spec_moves().len() > 0 && depth == 0 && old(state).spec_quiet()
                ==> r.depth == 0 && r.value as int == (if old(state).spec_min_turn() {
                -old(state).spec_value()
            } else {
                old(state).spec_value()
            }) && r.best is None)
        },
    decreases h,
{
    let ghost s0 = *state;
    proof {
        EvaluateZeroSum::lemma_value_wf(state);
    }
    match cache.get(state) {
        Some(res) => {
            if res.depth >= depth {
                proof {
                    let items = cache@;
                    let slot = slot_of(s0.spec_hash(), items.len() as int);
                    assert(items[slot] matches Some(e) && e.0 == s0.spec_key() && e.1 == *res);
                    assert(neg_entry_ok::<G>(s0.spec_key(), *res));
                    assert(neg_result_ok(s0, *res));
                }
                return *res;
            }
        },
        None => {},
    }
    let moves = state.moves();
    let best: SearchResult<Value, G::Move> = if moves.len() == 0 {
        let e = EvaluateZeroSum::evaluate(state);
        let v: Value = if EvaluateZeroSum::min_turn(state) {
            -e
        } else {
            e
        };
        SearchResult { depth: MAX_DEPTH, value: v, best: None }
    } else if depth == 0 && EvaluateZeroSum::quiet(state) {
        let e = EvaluateZeroSum::evaluate(state);
        let v: Value = if EvaluateZeroSum::min_turn(state) {
            -e
        } else {
            e
        };
        SearchResult { depth: 0, value: v, best: None }
    } else {
        let min0 = EvaluateZeroSum::min_turn(state);
        let next_depth: u8 = if depth == 0 {
            0
        } else {
            depth - 1
        };
        let mut alpha_cur = alpha;
        let mut best: SearchResult<Value, G::Move> = SearchResult {
            depth: 0,
            value: FOLD_START,
            best: None,
        };
        let mut i: usize = 0;
        while i < moves.len()
            invariant_except_break
                *state == s0,
                state.inv(),
                s0.height() == h,
                moves@ == s0.spec_moves(),
                moves.len() > 0,
                i <= moves.len(),
                FOLD_START as int <= alpha < beta <= 32767,
                alpha <= alpha_cur < beta,
                next_depth as int == dec_depth(depth as int),
                cache.wf(),
                entries_ok(
                    cache@,
                    |k: G::Key, e: SearchResult<Value, G::Move>| neg_entry_ok::<G>(k, e),
                ),
                i == 0 ==> best.value == FOLD_START && best.best is None,
                i > 0 ==> {
                    &&& VALUE_FLOOR <= best.value <= VALUE_CEIL
                    &&& best.best matches Some(m) && s0.spec_moves().contains(m)
                    &&& best.depth >= 1
                    &&& best.depth >= depth
                },
            ensures
                *state == s0,
                cache.wf(),
                entries_ok(
                    cache@,
                    |k: G::Key, e: SearchResult<Value, G::Move>| neg_entry_ok::<G>(k, e),
                ),
                VALUE_FLOOR <= best.value <= VALUE_CEIL,
                best.best matches Some(m) && s0.spec_moves().contains(m),
                best.depth >= 1,
                best.depth >= depth,
            decreases moves.len() - i,
        {
            let m = moves[i];
            proof {
                assert(s0.spec_moves().contains(m));
                s0.lemma_play_wf(m);
            }
            let token = state.play(&m);
            let ghost s1 = *state;
            let min1 = EvaluateZeroSum::min_turn(state);
            let sub = if min0 == min1 {
                negamax_ab_cached(state, next_depth, alpha_cur, beta, cache, Ghost(s1.height()))
            } else {
                negamax_ab_cached(state, next_depth, -beta, -alpha_cur, cache, Ghost(s1.height()))
            };
            state.unplay(token);
            let current_value: Value = if min0 == min1 {
                sub.value
            } else {
                -sub.value
            };
            if current_value > best.value {
                if current_value > alpha_cur {
                    alpha_cur = current_value;
                }
                best = SearchResult {
                    depth: sub.depth.saturating_add(1),
                    value: current_value,
                    best: Some(m),
                };
            }
            i = i + 1;
            if alpha_cur >= beta {
                break ;
            }
        }
        best
    };
    let ghost pre = cache@;
    cache.insert(state, best);
    proof {
        let slot = slot_of(s0.spec_hash(), pre.len() as int);
        assert(neg_result_ok(s0, best));
        assert forall|s: G| #[trigger] s.spec_key() == s0.spec_key() implies neg_result_ok(
            s,
            best,
        ) by {
            G::lemma_key_faithful(s, s0);
        }
        assert forall|i: int| 0 <= i < cache@.len() implies (#[trigger] cache@[i] matches Some(e)
            ==> neg_entry_ok::<G>(e.0, e.1)) by {
            if i != slot {
                assert(cache@[i] == pre[i]);
            }
        }
        assert(cache@[slot] == Some((s0.spec_key(), best)));
        assert(lookup(cache@, s0) == Some(best));
    }
    best
}

/// Repeated searches are reproducible: searching the same state twice in
/// a row at the same depth, against the same table, returns the identical
/// result — the first search leaves its own result in the state's slot,
/// recorded deep enough that the second search is answered from it
/// verbatim, whatever windows the two searches use.
pub fn negamax_cached_is_reproducible<G: EvaluateZeroSum + Play + CacheKey + ZobristHash>(
    state: &mut G,
    depth: u8,
    cache: &mut TranspositionTable<G, SearchResult<Value, G::Move>>,
) -> (r: (SearchResult<Value, G::Move>, SearchResult<Value, G::Move>))
    requires
        old(state).inv(),
        old(cache).wf(),
        entries_ok(old(cache)@, |k: G::Key, e: SearchResult<Value, G::Move>| neg_entry_ok::<G>(k, e)),
    ensures
        *final(state) == *old(state),
        r.1 == r.0,
{
    let first = negamax_ab_cached(state, depth, FOLD_START, 32767, cache, Ghost(state.height()));
    let second = negamax_ab_cached(state, depth, FOLD_START, 32767, cache, Ghost(state.height()));
    (first, second)
}

/// The two-player zero-sum alpha-beta strategy, with transposition-table
/// reuse.
#[derive(Clone, Copy, Debug)]
pub struct Negamax;

impl<G: EvaluateZeroSum + Play + CacheKey + ZobristHash> Strategy<G> for Negamax {
    type Value = Value;

    open spec fn entry_ok(k: G::Key, r: SearchResult<Value, G::Move>) -> bool {
        neg_entry_ok::<G>(k, r)
    }

    fn search(
        state: &mut G,
        depth: u8,
        cache: &mut TranspositionTable<G, SearchResult<Value, G::Move>>,
    ) -> (r: SearchResult<Value, G::Move>) {
        let r = negamax_ab_cached(state, depth, FOLD_START, 32767, cache, Ghost(state.height()));
        proof {
            assert forall|s: G| #[trigger] s.spec_key() == old(state).spec_key() implies
                neg_result_ok(s, r) by {
                G::lemma_key_faithful(s, *old(state));
            }
        }
        r
    }
}

} // verus!
