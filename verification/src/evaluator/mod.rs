//! Leaf evaluation: the capability that scores a position without searching.

use vstd::prelude::*;

pub mod nneteval;
pub mod pointseval;
pub mod simpleeval;

pub use pointseval::PointsEval;
pub use simpleeval::SimpleEval;

verus! {

/// The greatest score. Scores are integers; the search negates them from one
/// ply to the next, so the range is symmetric.
pub const SCORE_MAX: i32 = 2147483647;

/// The least score, the negation of [`SCORE_MAX`].
pub const SCORE_MIN: i32 = -2147483647;

/// Whether a score lies in the symmetric range that the search works in.
pub open spec fn in_score_range(score: i32) -> bool {
    SCORE_MIN <= score <= SCORE_MAX
}

/// The reason why an evaluator could not score a position.
#[derive(Debug)]
pub struct EvalError {
    /// What went wrong, in words.
    pub message: String,
}

/// Scores a position without searching. The search reads a score as relative
/// to the side to move: positive is good for that side.
///
/// An evaluator is a function of the position: `evaluation` says what
/// `evaluate` returns, and a score that it returns lies in the symmetric range.
/// The search relies on both. An implementation that is not verified has to
/// see to it itself that `evaluate` returns the same for the same position,
/// and no score outside the range.
pub trait Evaluator {
    /// What `evaluate` returns for a position.
    spec fn evaluation(&self, board: chess::Board) -> Result<i32, EvalError>;

    /// Scores `board`, or reports why it cannot.
    fn evaluate(&self, board: &chess::Board) -> (r: Result<i32, EvalError>)
        ensures
            r == self.evaluation(*board),
            r matches Ok(score) ==> in_score_range(score),
    ;
}

/// A boxed evaluator is an evaluator: it scores as what it holds does. This
/// lets a searcher hold an evaluator that is chosen when the program runs.
impl<E: Evaluator + ?Sized> Evaluator for Box<E> {
    open spec fn evaluation(&self, board: chess::Board) -> Result<i32, EvalError> {
        (**self).evaluation(board)
    }

    fn evaluate(&self, board: &chess::Board) -> (r: Result<i32, EvalError>) {
        (**self).evaluate(board)
    }
}

/// Whether an evaluator scores every position.
pub open spec fn never_fails<E: Evaluator>(eval: E) -> bool {
    forall|board: chess::Board| #[trigger] eval.evaluation(board) is Ok
}

/// Whether two evaluators return the same for every position.
pub open spec fn agree<E1: Evaluator, E2: Evaluator>(first: E1, second: E2) -> bool {
    forall|board: chess::Board| #[trigger] first.evaluation(board) == second.evaluation(board)
}

} // verus!
