use vstd::prelude::*;

verus! {

/// A structural fingerprint of a state, used to choose a transposition
/// table slot. The fingerprint is a pure function of the state's value —
/// equal states hash equally — but it is not assumed collision-free:
/// collisions are detected through [`CacheKey`], not avoided.
pub trait ZobristHash {
    /// The fingerprint as a mathematical function of the state.
    spec fn spec_hash(&self) -> usize;

    /// Computes the structural fingerprint of the state.
    fn zobrist_hash(&self) -> (h: usize)
        ensures
            h == self.spec_hash(),
    ;
}

/// Hash collisions are common in these search algorithms, so a table slot
/// carries a cheap, exactly comparable witness of which state wrote it.
/// A stored entry is trusted only if its key equals the querying state's
/// key; the key determines the state, so a matching key means the entry
/// was written by an equal state and a particularly good or bad score of
/// an unrelated state can never leak into the current search.
///
/// [`CloneCacheKey`] derives this contract by storing a full copy of the
/// state itself.
pub trait CacheKey: Sized {
    /// The type of the stored witness.
    type Key;

    /// The witness as a mathematical function of the state.
    spec fn spec_key(&self) -> Self::Key;

    /// The witness determines the state: two states with equal keys are
    /// equal. This is what makes a validated table hit trustworthy.
    proof fn lemma_key_faithful(a: Self, b: Self)
        requires
            a.spec_key() == b.spec_key(),
        ensures
            a == b,
    ;

    /// Computes the witness for this state.
    fn cache_key(&self) -> (k: Self::Key)
        ensures
            k == self.spec_key(),
    ;

    /// Decides equality of two witnesses.
    fn key_eq(a: &Self::Key, b: &Self::Key) -> (r: bool)
        ensures
            r == (a == b),
    ;
}

/// Derives [`CacheKey`] for a copyable state by storing the entire state
/// as its own witness. Such a table never trusts an entry written by a
/// different state, at the cost of keeping a copy per slot.
pub trait CloneCacheKey: Sized + Copy {
    /// Decides equality of two states.
    fn state_eq(a: &Self, b: &Self) -> (r: bool)
        ensures
            r == (a == b),
    ;
}

impl<T: CloneCacheKey> CacheKey for T {
    type Key = T;

    open spec fn spec_key(&self) -> T {
        *self
    }

    proof fn lemma_key_faithful(a: T, b: T) {
    }

    fn cache_key(&self) -> (k: T) {
        *self
    }

    fn key_eq(a: &T, b: &T) -> (r: bool) {
        T::state_eq(a, b)
    }
}

/// The table slot a state with hash `hash` maps to in a table of `cap`
/// slots.
pub open spec fn slot_of(hash: usize, cap: int) -> int {
    hash as int % cap
}

/// What a lookup of `state` finds in table contents `items`: the stored
/// value at the state's slot, but only if the slot is filled and its key
/// witness equals the state's own key.
pub open spec fn lookup<G: CacheKey + ZobristHash, V>(
    items: Seq<Option<(G::Key, V)>>,
    state: G,
) -> Option<V> {
    match items[slot_of(state.spec_hash(), items.len() as int)] {
        Some((k, v)) => if k == state.spec_key() {
            Some(v)
        } else {
            None
        },
        None => None,
    }
}

/// A fixed-capacity, direct-mapped cache from state fingerprints to
/// previously computed values, validated against a per-slot key witness.
///
/// `insert` unconditionally overwrites the addressed slot — last write
/// wins, with no depth-aware or least-recently-used replacement policy;
/// this deliberate simplification mirrors how the engine reuses the
/// table. Capacity is fixed at construction; collisions beyond slot reuse
/// are handled by the key validation, not by chaining.
pub struct TranspositionTable<G: CacheKey, V> {
    items: Vec<Option<(G::Key, V)>>,
}

impl<G: CacheKey, V> View for TranspositionTable<G, V> {
    type V = Seq<Option<(G::Key, V)>>;

    closed spec fn view(&self) -> Seq<Option<(G::Key, V)>> {
        self.items@
    }
}

impl<G: CacheKey, V> TranspositionTable<G, V> {
    /// A table is usable once it has at least one slot.
    pub open spec fn wf(&self) -> bool {
        self@.len() > 0
    }

    /// Creates a table of `capacity` empty slots.
    pub fn new(capacity: usize) -> (r: Self)
        requires
            capacity > 0,
        ensures
            r.wf(),
            r@.len() == capacity,
            forall|i: int| 0 <= i < capacity ==> r@[i] is None,
    {
        let mut items: Vec<Option<(G::Key, V)>> = Vec::new();
        let mut i: usize = 0;
        while i < capacity
            invariant
                i <= capacity,
                items@.len() == i,
                forall|j: int| 0 <= j < i ==> items@[j] is None,
            decreases capacity - i,
        {
            items.push(None);
            i = i + 1;
        }
        TranspositionTable { items }
    }
}

impl<G: CacheKey + ZobristHash, V> TranspositionTable<G, V> {
    /// Overwrites the slot addressed by the state's fingerprint with the
    /// state's key witness and `value`, regardless of what the slot held.
    pub fn insert(&mut self, state: &G, value: V)
        requires
            old(self).wf(),
        ensures
            final(self)@ == old(self)@.update(
                slot_of(state.spec_hash(), old(self)@.len() as int),
                Some((state.spec_key(), value)),
            ),
    {
        let index = state.zobrist_hash() % self.items.len();
        let key = state.cache_key();
        self.items.set(index, Some((key, value)));
    }

    /// Returns the value stored at the state's slot, but only if the slot
    /// is filled and was written by a state with the same key witness;
    /// any other slot content is reported as a miss.
    pub fn get(&self, state: &G) -> (r: Option<&V>)
        requires
            self.wf(),
        ensures
            match r {
                Some(v) => lookup(self@, *state) == Some(*v),
                None => lookup(self@, *state) is None,
            },
    {
        let index = state.zobrist_hash() % self.items.len();
        match &self.items[index] {
            Some((old_key, value)) => {
                let key = state.cache_key();
                if G::key_eq(&key, old_key) {
                    Some(value)
                } else {
                    None
                }
            },
            None => None,
        }
    }
}

/// Cache correctness. In any table contents, after inserting a value for
/// `state`, a lookup for `state` itself finds exactly that value; a
/// lookup for a different state whose fingerprint collides with the same
/// slot but whose key witness differs misses; and a lookup for a state
/// addressing any other slot is unaffected by the insertion.
pub proof fn lemma_cache_round_trip<G: CacheKey + ZobristHash, V>(
    items: Seq<Option<(G::Key, V)>>,
    state: G,
    other: G,
    value: V,
)
    requires
        items.len() > 0,
    ensures
        lookup(items.update(slot_of(state.spec_hash(), items.len() as int), Some((state.spec_key(), value))), state)
            == Some(value),
        slot_of(other.spec_hash(), items.len() as int)
            == slot_of(state.spec_hash(), items.len() as int)
            && other.spec_key() != state.spec_key()
            ==> lookup(items.update(slot_of(state.spec_hash(), items.len() as int), Some((state.spec_key(), value))), other)
                is None,
        slot_of(other.spec_hash(), items.len() as int)
            != slot_of(state.spec_hash(), items.len() as int)
            ==> lookup(items.update(slot_of(state.spec_hash(), items.len() as int), Some((state.spec_key(), value))), other)
                == lookup(items, other),
{
}

} // verus!
