use vstd::prelude::*;

verus! {

/// The single recoverable error of the engine: a search was asked for a
/// best move at a root state in which the acting player has no legal move.
#[derive(Clone, Copy, Debug, PartialEq, Eq, Structural)]
pub enum RivalError {
    NoMove,
}

/// Shorthand for the result of the engine's "pick a move" operations.
pub type RivalResult<T> = Result<T, RivalError>;

impl RivalError {
    /// A human-readable description of the error.
    pub fn message(&self) -> (r: &'static str)
        ensures
            r@ == "no move possible"@,
    {
        proof {
            reveal_strlit("no move possible");
        }
        "no move possible"
    }
}

} // verus!
