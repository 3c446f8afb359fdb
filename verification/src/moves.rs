use vstd::prelude::*;

verus! {

/// The base contract of a game state: enumeration of the legal moves of
/// the acting player, together with the mathematical model the engine's
/// contracts are stated over.
///
/// A state describes, in specification land, which states are well formed
/// ([`Moves::inv`]), which moves are legal ([`Moves::spec_moves`]), what
/// playing a legal move yields ([`Moves::spec_play`]), and a bound on the
/// number of moves left in the game ([`Moves::height`]). Games are finite:
/// every legal move strictly decreases the height, which is what makes the
/// engine's recursive descent terminate.
pub trait Moves: Sized {
    /// The type of the moves the acting player can make. Moves are plain,
    /// trivially copyable values identifying a transition.
    type Move: Copy;

    /// Which state values are well formed. Searches only visit well-formed
    /// states.
    spec fn inv(&self) -> bool;

    /// An upper bound on how many moves can still be played from this
    /// state before the game necessarily ends.
    spec fn height(&self) -> nat;

    /// The legal moves of the acting player, in the fixed order the state
    /// enumerates them. An empty sequence means the state is terminal.
    spec fn spec_moves(&self) -> Seq<Self::Move>;

    /// The state that playing the legal move `m` yields.
    spec fn spec_play(&self, m: Self::Move) -> Self;

    /// Playing a legal move preserves well-formedness and strictly
    /// decreases the height: games end after finitely many moves.
    proof fn lemma_play_wf(&self, m: Self::Move)
        requires
            self.inv(),
            self.spec_moves().contains(m),
        ensures
            self.spec_play(m).inv(),
            self.spec_play(m).height() < self.height(),
    ;

    /// Enumerates the legal moves of the acting player, in a fixed,
    /// restartable order. An empty vector means the state is terminal.
    fn moves(&self) -> (r: Vec<Self::Move>)
        requires
            self.inv(),
        ensures
            r@ == self.spec_moves(),
    ;
}

} // verus!
