//! Full-width negamax search with a capture-only extension beyond the nominal
//! depth.

use super::simpleminmax_laws::{
    lemma_minimax_best_is_first_maximum, lemma_minimax_best_succeeds,
    lemma_minimax_none_iff_no_move, lemma_minimax_success_means_replies_scored,
};
use super::{
    better, examined_moves, is_first_highest_from, moves_to_examine, negated, MoveSearch,
    ScoredMove,
};
use crate::evaluator::{in_score_range, never_fails, EvalError, Evaluator};
use crate::rules::{
    board_after, is_generated, is_searchable, legal_moves, play, searchable,
};
use vstd::prelude::*;

verus! {

/// The negamax score of a node: that of its best move, or the evaluator's
/// where it has none.
pub open spec fn minimax_score<E: Evaluator>(
    max_capture_depth: i32,
    eval: E,
    board: chess::Board,
    depth: i32,
) -> Result<i32, EvalError>
    decreases depth + max_capture_depth, 2int, 0int,
{
    match minimax_best(max_capture_depth, eval, board, depth) {
        Err(e) => Err(e),
        Ok(Some(best)) => Ok(best.score),
        Ok(None) => eval.evaluation(board),
    }
}

/// The best move of a node: none once `depth` has fallen to the end of the
/// capture extension, and none for a position that cannot be searched, for
/// which no moves are generated; else what examining its moves in order gives.
pub open spec fn minimax_best<E: Evaluator>(
    max_capture_depth: i32,
    eval: E,
    board: chess::Board,
    depth: i32,
) -> Result<Option<ScoredMove>, EvalError>
    decreases depth + max_capture_depth, 1int, 0int,
{
    if depth <= -max_capture_depth || !searchable(board) {
        Ok(None)
    } else {
        minimax_scan(max_capture_depth, eval, board, examined_moves(board, depth), 0, depth, None)
    }
}

/// What examining the moves from index `next` on gives, with `best` the best
/// move so far. The score of a move is the negated score of the position it
/// leads to, with one ply less. The first error of the evaluator ends the
/// scan.
pub open spec fn minimax_scan<E: Evaluator>(
    max_capture_depth: i32,
    eval: E,
    board: chess::Board,
    moves: Seq<chess::ChessMove>,
    next: int,
    depth: i32,
    best: Option<ScoredMove>,
) -> Result<Option<ScoredMove>, EvalError>
    decreases depth + max_capture_depth, 0int, moves.len() - next,
{
    if depth <= -max_capture_depth || next < 0 || next >= moves.len() {
        Ok(best)
    } else {
        let m = moves[next];
        match minimax_score(max_capture_depth, eval, board_after(board, m), (depth - 1) as i32) {
            Err(e) => Err(e),
            Ok(child_score) => minimax_scan(
                max_capture_depth,
                eval,
                board,
                moves,
                next + 1,
                depth,
                better(best, m, negated(child_score)),
            ),
        }
    }
}

/// The score of the move at index `index`: the negated score of the position
/// it leads to, with one ply less. Meaningful where that position is scored
/// without error.
pub open spec fn move_score<E: Evaluator>(
    max_capture_depth: i32,
    eval: E,
    board: chess::Board,
    moves: Seq<chess::ChessMove>,
    index: int,
    depth: i32,
) -> i32 {
    negated(
        minimax_score(
            max_capture_depth,
            eval,
            board_after(board, moves[index]),
            (depth - 1) as i32,
        )->Ok_0,
    )
}

/// Whether every move from index `from` on leads to a position that is scored
/// without error.
pub open spec fn replies_scored<E: Evaluator>(
    max_capture_depth: i32,
    eval: E,
    board: chess::Board,
    moves: Seq<chess::ChessMove>,
    from: int,
    depth: i32,
) -> bool {
    forall|j: int|
        from <= j < moves.len() ==> (#[trigger] minimax_score(
            max_capture_depth,
            eval,
            board_after(board, moves[j]),
            (depth - 1) as i32,
        )) is Ok
}

/// The scores of the moves, in order.
pub open spec fn move_scores<E: Evaluator>(
    max_capture_depth: i32,
    eval: E,
    board: chess::Board,
    moves: Seq<chess::ChessMove>,
    depth: i32,
) -> Seq<i32> {
    Seq::new(
        moves.len(),
        |j: int| move_score(max_capture_depth, eval, board, moves, j, depth),
    )
}

/// Whether `found` is the first of the moves from index `from` on with the
/// highest score.
pub open spec fn is_first_maximum<E: Evaluator>(
    max_capture_depth: i32,
    eval: E,
    board: chess::Board,
    moves: Seq<chess::ChessMove>,
    from: int,
    depth: i32,
    found: ScoredMove,
) -> bool {
    let scores = move_scores(max_capture_depth, eval, board, moves, depth);
    exists|k: int|
        {
            &&& #[trigger] is_first_highest_from(scores, from, k)
            &&& found.chessmove == moves[k]
            &&& found.score == scores[k]
        }
}

/// The full-width searcher.
pub struct SimpleMinMax<E: Evaluator> {
    /// The nominal horizon, in plies.
    pub max_depth: i32,
    /// The plies beyond the nominal horizon in which captures are examined.
    pub max_capture_depth: i32,
    /// The evaluator that scores the leaves.
    pub eval: E,
}

impl<E: Evaluator> SimpleMinMax<E> {
    /// A searcher with the given limits and evaluator.
    pub fn new(max_depth: i32, max_capture_depth: i32, eval: E) -> (r: SimpleMinMax<E>)
        ensures
            r.max_depth == max_depth,
            r.max_capture_depth == max_capture_depth,
            r.eval == eval,
    {
        SimpleMinMax { max_depth, max_capture_depth, eval }
    }

    /// The negamax score of a position with `depth` plies left, from the point
    /// of view of the side to move.
    pub fn score(&self, board: &chess::Board, depth: i32) -> (r: Result<i32, EvalError>)
        requires
            0 <= self.max_capture_depth,
        ensures
            r == minimax_score(self.max_capture_depth, self.eval, *board, depth),
            r matches Ok(score) ==> in_score_range(score),
        decreases depth + self.max_capture_depth, 2int,
    {
        let scored_move = self.expand(board, depth)?;
        match scored_move {
            Some(scored_move) => Ok(scored_move.score),
            // The evaluator scores the position where the capture extension is
            // used up, where no capture is left, and at the end of the game.
            None => Ok(self.eval.evaluate(board)?),
        }
    }

    /// The best move of a position with `depth` plies left: `None` where the
    /// capture extension is used up, the position cannot be searched or it has
    /// no move to examine. Of equally good moves the first is kept.
    pub fn expand(&self, board: &chess::Board, depth: i32) -> (r: Result<
        Option<ScoredMove>,
        EvalError,
    >)
        requires
            0 <= self.max_capture_depth,
        ensures
            r == minimax_best(self.max_capture_depth, self.eval, *board, depth),
            r matches Ok(Some(best)) ==> in_score_range(best.score),
        decreases depth + self.max_capture_depth, 1int,
    {
        if depth <= -self.max_capture_depth {
            // The nominal depth and the capture extension are used up.
            return Ok(None);
        }
        if !is_searchable(board) {
            // A move may lead to a position that is not sane. No moves are
            // generated for it: it is scored as it stands.
            return Ok(None);
        }
        let moves = moves_to_examine(board, depth);
        let ghost goal = minimax_best(self.max_capture_depth, self.eval, *board, depth);
        let mut best_move: Option<ScoredMove> = None;
        let mut i: usize = 0;
        while i < moves.len()
            invariant
                0 <= self.max_capture_depth,
                searchable(*board),
                depth > -self.max_capture_depth,
                i <= moves.len(),
                forall|j: int| 0 <= j < moves@.len() ==> is_generated(*board, #[trigger] moves@[j]),
                best_move matches Some(best) ==> in_score_range(best.score),
                goal == minimax_best(self.max_capture_depth, self.eval, *board, depth),
                minimax_scan(
                    self.max_capture_depth,
                    self.eval,
                    *board,
                    moves@,
                    i as int,
                    depth,
                    best_move,
                ) == goal,
            decreases moves.len() - i,
        {
            let m = moves[i];
            // The score is negated: the position it comes from has the other
            // side to move.
            let score = -self.score(&play(board, m), depth - 1)?;
            match &best_move {
                Some(best_move_val) => {
                    if score > best_move_val.score {
                        best_move = Some(ScoredMove { chessmove: m, score });
                    }
                },
                None => {
                    best_move = Some(ScoredMove { chessmove: m, score });
                },
            }
            i += 1;
        }
        Ok(best_move)
    }
}

impl<E: Evaluator> MoveSearch for SimpleMinMax<E> {
    open spec fn ready(&self) -> bool {
        0 <= self.max_depth && 0 <= self.max_capture_depth
    }

    open spec fn choice(&self, board: chess::Board) -> Result<Option<ScoredMove>, EvalError> {
        minimax_best(self.max_capture_depth, self.eval, board, self.max_depth)
    }

    /// The move that maximises the negamax score at the nominal depth: the
    /// first of the root's moves with the highest score, where the score of a
    /// move is the negated score of the position it leads to. The searcher
    /// does not change.
    ///
    /// The result is `None` exactly where both limits are zero, the position
    /// cannot be searched or the root has no move to examine: for a position
    /// that can be searched and a nominal depth of at least one ply, exactly
    /// where the position has no legal move. With an evaluator that scores
    /// every position the search succeeds.
    fn search(&mut self, board: &chess::Board) -> (r: Result<Option<ScoredMove>, EvalError>)
        ensures
            *final(self) == *old(self),
            r matches Ok(None) <==> old(self).max_depth <= -old(self).max_capture_depth
                || !searchable(*board) || examined_moves(*board, old(self).max_depth).len() == 0,
            old(self).max_depth >= 1 && searchable(*board) ==> (r matches Ok(None) <==> legal_moves(
                *board,
            ).len() == 0),
            never_fails(old(self).eval) ==> r is Ok,
            r matches Ok(Some(best)) ==> in_score_range(best.score),
            r matches Ok(Some(best)) ==> is_first_maximum(
                old(self).max_capture_depth,
                old(self).eval,
                *board,
                examined_moves(*board, old(self).max_depth),
                0,
                old(self).max_depth,
                best,
            ),
    {
        proof {
            if self.max_depth > -self.max_capture_depth && searchable(*board) && minimax_best(
                self.max_capture_depth,
                self.eval,
                *board,
                self.max_depth,
            ) is Ok {
                lemma_minimax_success_means_replies_scored(
                    self.max_capture_depth,
                    self.eval,
                    *board,
                    examined_moves(*board, self.max_depth),
                    0,
                    self.max_depth,
                    None,
                );
                lemma_minimax_best_is_first_maximum(
                    self.max_capture_depth,
                    self.eval,
                    *board,
                    self.max_depth,
                );
            }
            lemma_minimax_none_iff_no_move(
                self.max_capture_depth,
                self.eval,
                *board,
                self.max_depth,
            );
            if never_fails(self.eval) {
                lemma_minimax_best_succeeds(
                    self.max_capture_depth,
                    self.eval,
                    *board,
                    self.max_depth,
                );
            }
        }
        self.expand(board, self.max_depth)
    }
}

} // verus!
