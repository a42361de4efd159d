//! What holds of the one-ply search and of the recursive scorer, proved of
//! their definitions.

use super::greedy::{
    greedy_scan, higher, reply_score, reply_scores, scorer_fold, scorer_reply, SCORER_HORIZON,
};
use super::is_first_highest_from;
use crate::evaluator::{EvalError, Evaluator};
use crate::rules::board_after;
use vstd::prelude::*;

verus! {

/// Where every reply is evaluated without error, a scan gives the first of the
/// remaining moves with the highest score if that score exceeds the best so
/// far, and keeps the best so far otherwise.
pub proof fn lemma_greedy_scan_maximum<E: Evaluator>(
    eval: E,
    board: chess::Board,
    moves: Seq<chess::ChessMove>,
    next: int,
    best: Option<chess::ChessMove>,
    best_score: i32,
)
    requires
        0 <= next <= moves.len(),
        forall|j: int|
            next <= j < moves.len() ==> (#[trigger] eval.evaluation(
                board_after(board, moves[j]),
            )) is Ok,
    ensures
        ({
            let scores = reply_scores(eval, board, moves);
            match greedy_scan(eval, board, moves, next, best, best_score) {
                Err(_) => false,
                Ok(None) => {
                    &&& best is None
                    &&& forall|j: int|
                        next <= j < moves.len() ==> #[trigger] scores[j] <= best_score
                },
                Ok(Some(found)) => {
                    ||| {
                        &&& best == Some(found.chessmove)
                        &&& found.score == best_score
                        &&& forall|j: int|
                            next <= j < moves.len() ==> #[trigger] scores[j] <= best_score
                    }
                    ||| {
                        &&& found.score > best_score
                        &&& exists|k: int|
                            {
                                &&& #[trigger] is_first_highest_from(scores, next, k)
                                &&& found.chessmove == moves[k]
                                &&& found.score == scores[k]
                            }
                    }
                },
            }
        }),
    decreases moves.len() - next,
{
    if next < moves.len() {
        let scores = reply_scores(eval, board, moves);
        let score = scores[next];
        if score > best_score {
            lemma_greedy_scan_maximum(eval, board, moves, next + 1, Some(moves[next]), score);
            let later = greedy_scan(eval, board, moves, next + 1, Some(moves[next]), score);
            let found = later->Ok_0->Some_0;
            if found.score == score && found.chessmove == moves[next] && (forall|j: int|
                next + 1 <= j < moves.len() ==> #[trigger] scores[j] <= score) {
                assert(is_first_highest_from(scores, next, next));
            } else {
                let k = choose|k: int|
                    {
                        &&& #[trigger] is_first_highest_from(scores, next + 1, k)
                        &&& found.chessmove == moves[k]
                        &&& found.score == scores[k]
                    };
                assert(is_first_highest_from(scores, next, k));
            }
        } else {
            lemma_greedy_scan_maximum(eval, board, moves, next + 1, best, best_score);
            let later = greedy_scan(eval, board, moves, next + 1, best, best_score);
            if let Ok(Some(found)) = later {
                if found.score > best_score {
                    let k = choose|k: int|
                        {
                            &&& #[trigger] is_first_highest_from(scores, next + 1, k)
                            &&& found.chessmove == moves[k]
                            &&& found.score == scores[k]
                        };
                    assert(is_first_highest_from(scores, next, k));
                }
            }
        }
    }
}

/// A scan succeeds only if every position that its moves lead to is
/// evaluated without error.
pub proof fn lemma_greedy_success_means_replies_evaluated<E: Evaluator>(
    eval: E,
    board: chess::Board,
    moves: Seq<chess::ChessMove>,
    next: int,
    best: Option<chess::ChessMove>,
    best_score: i32,
)
    requires
        0 <= next <= moves.len(),
        greedy_scan(eval, board, moves, next, best, best_score) is Ok,
    ensures
        forall|j: int|
            next <= j < moves.len() ==> (#[trigger] eval.evaluation(
                board_after(board, moves[j]),
            )) is Ok,
    decreases moves.len() - next,
{
    if next < moves.len() {
        let score = reply_score(eval, board, moves, next);
        if score > best_score {
            lemma_greedy_success_means_replies_evaluated(
                eval,
                board,
                moves,
                next + 1,
                Some(moves[next]),
                score,
            );
        } else {
            lemma_greedy_success_means_replies_evaluated(
                eval,
                board,
                moves,
                next + 1,
                best,
                best_score,
            );
        }
    }
}

/// A fold that succeeds gives the highest of the best score so far and the
/// scores of the remaining moves, or the evaluation where there is neither.
pub proof fn lemma_scorer_fold_maximum<E: Evaluator>(
    eval: E,
    board: chess::Board,
    moves: Seq<chess::ChessMove>,
    next: int,
    depth: i32,
    best: Option<i32>,
)
    requires
        depth >= SCORER_HORIZON,
        0 <= next <= moves.len(),
        scorer_fold(eval, board, moves, next, depth, best) is Ok,
    ensures
        ({
            let score = scorer_fold(eval, board, moves, next, depth, best)->Ok_0;
            &&& best is None && next == moves.len() ==> eval.evaluation(board) == Ok::<
                i32,
                EvalError,
            >(score)
            &&& best matches Some(b) ==> b <= score
            &&& forall|j: int|
                next <= j < moves.len() ==> #[trigger] scorer_reply(eval, board, moves, j, depth)
                    <= score
            &&& best is Some || next < moves.len() ==> best == Some(score) || exists|k: int|
                next <= k < moves.len() && #[trigger] scorer_reply(eval, board, moves, k, depth)
                    == score
        }),
    decreases moves.len() - next,
{
    if next < moves.len() {
        let reply = scorer_reply(eval, board, moves, next, depth);
        lemma_scorer_fold_maximum(
            eval,
            board,
            moves,
            next + 1,
            depth,
            Some(higher(best, reply)),
        );
    }
}

} // verus!
