//! The evaluator that finds every position level.

use super::{EvalError, Evaluator};
use vstd::prelude::*;

verus! {

/// Scores every position as 0.
pub struct SimpleEval {}

impl SimpleEval {
    /// The evaluator: it scores every position, with 0.
    pub fn new() -> (r: SimpleEval)
        ensures
            forall|board: chess::Board| #[trigger] r.evaluation(board) == Ok::<i32, EvalError>(0),
    {
        SimpleEval {  }
    }
}

impl Evaluator for SimpleEval {
    open spec fn evaluation(&self, board: chess::Board) -> Result<i32, EvalError> {
        Ok(0)
    }

    fn evaluate(&self, _board: &chess::Board) -> (r: Result<i32, EvalError>) {
        Ok(0)
    }
}

} // verus!
