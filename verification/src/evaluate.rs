use vstd::prelude::*;

use crate::moves::Moves;

verus! {

/// The type of a score. Scores are kept two units clear of the type's
/// minimum: the engine reserves `Value::MIN + 1` both as the starting
/// point of its maximizing folds ("nothing found yet") and as the floor
/// of the alpha-beta window, so every real score beats the starting
/// point and can be negated without overflow; `Value::MIN` itself is
/// never used.
pub type Value = i16;

/// The smallest score a state may report.
pub const VALUE_FLOOR: i16 = -32766;

/// The largest score a state may report.
pub const VALUE_CEIL: i16 = 32766;

/// The scoring contract for a game with an arbitrary fixed number of
/// players: each state reports one score per player, indexed consistently
/// with whose turn it is. Higher is better for the respective player.
pub trait Evaluate: Moves {
    /// The number of players of the game this state belongs to.
    spec fn players(&self) -> int;

    /// The index of the player whose turn it is.
    spec fn spec_turn(&self) -> int;

    /// The score of each player, as the integers the executable
    /// [`Evaluate::evaluate`] returns.
    spec fn spec_values(&self) -> Seq<int>;

    /// Whether the state is conclusive enough for the search to stop here
    /// once the nominal depth limit is reached.
    spec fn spec_quiet(&self) -> bool;

    /// The scoring model is well formed: at least one player, the acting
    /// player is one of them, one score per player, and every score stays
    /// within [`VALUE_FLOOR`]`..=`[`VALUE_CEIL`].
    proof fn lemma_evaluate_wf(&self)
        requires
            self.inv(),
        ensures
            1 <= self.players(),
            0 <= self.spec_turn() < self.players(),
            self.spec_values().len() == self.players(),
            forall|i: int|
                0 <= i < self.spec_values().len() ==> VALUE_FLOOR as int <= #[trigger] self
                    .spec_values()[i] <= VALUE_CEIL as int,
    ;

    /// The number of players never changes while the game is played.
    proof fn lemma_play_keeps_players(&self, m: Self::Move)
        requires
            self.inv(),
            self.spec_moves().contains(m),
        ensures
            self.spec_play(m).players() == self.players(),
    ;

    /// Returns the index of the player whose turn it is. The vector
    /// returned by [`Evaluate::evaluate`] holds the acting player's score
    /// at this index.
    fn turn(&self) -> (t: usize)
        requires
            self.inv(),
        ensures
            t as int == self.spec_turn(),
    ;

    /// Evaluates the state, returning the respective score of each
    /// player. Higher is better.
    fn evaluate(&self) -> (v: Vec<Value>)
        requires
            self.inv(),
        ensures
            v@.map_values(|x: Value| x as int) == self.spec_values(),
    ;

    /// Whether the current evaluation is settled enough to stop searching
    /// here when the depth limit is reached. Returning `false` makes the
    /// search look past the limit; returning `false` too often slows the
    /// search down dramatically.
    fn quiet(&self) -> (q: bool)
        requires
            self.inv(),
        ensures
            q == self.spec_quiet(),
    ;
}

/// The scoring contract for a two-player zero-sum game: one player's gain
/// is exactly the other's loss, so a single signed score suffices. The
/// score is stated from the maximizing player's perspective; the acting
/// player flags itself as the minimizer through
/// [`EvaluateZeroSum::min_turn`].
///
/// Every implementor gets [`Evaluate`] for free: the maximizer is player
/// 0, the minimizer player 1, and the score vector is the pair of the
/// score and its negation.
pub trait EvaluateZeroSum: Moves {
    /// Whether the acting player is the one trying to minimize the score.
    spec fn spec_min_turn(&self) -> bool;

    /// The score from the maximizing player's perspective.
    spec fn spec_value(&self) -> int;

    /// Whether the state is conclusive enough for the search to stop here
    /// once the nominal depth limit is reached.
    spec fn spec_quiet(&self) -> bool;

    /// The score stays within [`VALUE_FLOOR`]`..=`[`VALUE_CEIL`].
    proof fn lemma_value_wf(&self)
        requires
            self.inv(),
        ensures
            VALUE_FLOOR as int <= self.spec_value() <= VALUE_CEIL as int,
    ;

    /// Returns whether the acting player is trying to minimize the score.
    fn min_turn(&self) -> (b: bool)
        requires
            self.inv(),
        ensures
            b == self.spec_min_turn(),
    ;

    /// Evaluates the state: a high score means the maximizing player is
    /// winning, a low score that the minimizing player is doing better.
    fn evaluate(&self) -> (v: Value)
        requires
            self.inv(),
        ensures
            v as int == self.spec_value(),
    ;

    /// Whether the current evaluation is settled enough to stop searching
    /// here when the depth limit is reached.
    fn quiet(&self) -> (q: bool)
        requires
            self.inv(),
        ensures
            q == self.spec_quiet(),
    ;
}

impl<G: EvaluateZeroSum> Evaluate for G {
    open spec fn players(&self) -> int {
        2
    }

    open spec fn spec_turn(&self) -> int {
        if self.spec_min_turn() {
            1
        } else {
            0
        }
    }

    open spec fn spec_values(&self) -> Seq<int> {
        seq![EvaluateZeroSum::spec_value(self), -EvaluateZeroSum::spec_value(self)]
    }

    open spec fn spec_quiet(&self) -> bool {
        EvaluateZeroSum::spec_quiet(self)
    }

    proof fn lemma_evaluate_wf(&self) {
        EvaluateZeroSum::lemma_value_wf(self);
    }

    proof fn lemma_play_keeps_players(&self, m: Self::Move) {
    }

    fn turn(&self) -> (t: usize) {
        if EvaluateZeroSum::min_turn(self) {
            1
        } else {
            0
        }
    }

    fn evaluate(&self) -> (v: Vec<Value>) {
        let value = EvaluateZeroSum::evaluate(self);
        proof {
            EvaluateZeroSum::lemma_value_wf(self);
        }
        let mut v: Vec<Value> = Vec::new();
        v.push(value);
        v.push(-value);
        proof {
            assert(v@.map_values(|x: Value| x as int) =~= Evaluate::spec_values(self));
        }
        v
    }

    fn quiet(&self) -> (q: bool) {
        EvaluateZeroSum::quiet(self)
    }
}

} // verus!
