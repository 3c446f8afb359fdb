use vstd::prelude::*;

use crate::moves::Moves;

verus! {

/// The mutation contract of a game state: how the state changes in
/// response to playing a move, and how a played move is undone.
///
/// The search algorithms apply a move, recurse while the move is in
/// effect, then undo it, all on a single exclusively owned state. The
/// contract guarantees that playing a legal move and then undoing it with
/// the token the play returned restores the state to a value equal to the
/// original.
///
/// [`PlayClone`] is a simpler alternative that derives this contract by
/// snapshotting the whole state.
pub trait Play: Moves {
    /// Intermediate data that allows a played move to be undone later.
    type Remember;

    /// The state a token restores: the value the state had when
    /// [`Play::play`] handed the token out.
    spec fn remembered(r: Self::Remember) -> Self;

    /// When a token may be redeemed: [`Play::play`] establishes this for
    /// the state it leaves behind, and the engine hands the state back in
    /// that exact value, so manual-undo implementations may rely on the
    /// state still being the one the move produced.
    spec fn unplay_pre(s: Self, r: Self::Remember) -> bool;

    /// Plays the legal move `m`, changing the state in place, and returns
    /// a token with which [`Play::unplay`] undoes the move.
    fn play(&mut self, m: &Self::Move) -> (r: Self::Remember)
        requires
            old(self).inv(),
            old(self).spec_moves().contains(*m),
        ensures
            *final(self) == old(self).spec_play(*m),
            Self::remembered(r) == *old(self),
            Self::unplay_pre(*final(self), r),
    ;

    /// Undoes the move that produced the token `r`, restoring the state
    /// the token remembers.
    fn unplay(&mut self, r: Self::Remember)
        requires
            Self::unplay_pre(*old(self), r),
        ensures
            *final(self) == Self::remembered(r),
    ;
}

/// A safe and simple alternative to implementing [`Play`] by hand: a
/// copyable state gets [`Play`] for free by snapshotting the whole state
/// before the move and restoring the snapshot to undo it.
pub trait PlayClone: Moves + Copy {
    /// Plays the legal move `m`, changing the state in place.
    fn play(&mut self, m: &Self::Move)
        requires
            old(self).inv(),
            old(self).spec_moves().contains(*m),
        ensures
            *final(self) == old(self).spec_play(*m),
    ;
}

impl<G: PlayClone> Play for G {
    type Remember = G;

    open spec fn remembered(r: G) -> G {
        r
    }

    open spec fn unplay_pre(s: G, r: G) -> bool {
        true
    }

    fn play(&mut self, m: &G::Move) -> (r: G) {
        let saved: G = *self;
        PlayClone::play(self, m);
        saved
    }

    fn unplay(&mut self, r: G) {
        *self = r;
    }
}

/// Undo restores the state: playing any legal move and then undoing it
/// with the returned token yields a state equal to the original. This
/// holds for every well-formed state and every move it reports, for every
/// implementation of the mutation contract.
pub fn play_then_unplay<G: Play>(state: &mut G, m: &G::Move)
    requires
        old(state).inv(),
        old(state).spec_moves().contains(*m),
    ensures
        *final(state) == *old(state),
{
    let token = state.play(m);
    state.unplay(token);
}

} // verus!
