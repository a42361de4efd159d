//! One-ply search, and a recursive scorer with a fixed capture extension.

use super::greedy_laws::{
    lemma_greedy_scan_maximum, lemma_greedy_success_means_replies_evaluated,
    lemma_scorer_fold_maximum,
};
use super::{examined_moves, is_first_highest_from, moves_to_examine, negated};
use crate::evaluator::{in_score_range, EvalError, Evaluator};
use crate::rules::{
    board_after, generate_moves, is_generated, is_searchable, legal_moves, play, searchable,
};
use vstd::prelude::*;

verus! {

/// A move with its score, relative to the side that makes it.
#[derive(Clone, Copy, Debug)]
pub struct Move {
    /// The move.
    pub chessmove: chess::ChessMove,
    /// Its score.
    pub score: i32,
}

/// The score that a move has to exceed for [`move_search`] to choose it.
pub const SCORE_FLOOR: i32 = -100000;

/// The remaining depth below which [`scorer`] examines no move.
pub const SCORER_HORIZON: i32 = -4;

/// The score that the one-ply search gives the move at `index`: the negated
/// evaluation of the position it leads to. Meaningful where that position is
/// evaluated without error.
pub open spec fn reply_score<E: Evaluator>(
    eval: E,
    board: chess::Board,
    moves: Seq<chess::ChessMove>,
    index: int,
) -> i32 {
    negated(eval.evaluation(board_after(board, moves[index]))->Ok_0)
}

/// What examining the moves from index `next` on gives, with `best` the best
/// move so far: the first error of the evaluator, or the best move in the end.
/// A move replaces the best one so far only if it scores strictly higher.
pub open spec fn greedy_scan<E: Evaluator>(
    eval: E,
    board: chess::Board,
    moves: Seq<chess::ChessMove>,
    next: int,
    best: Option<chess::ChessMove>,
    best_score: i32,
) -> Result<Option<Move>, EvalError>
    decreases moves.len() - next,
{
    if next < 0 || next >= moves.len() {
        Ok(
            match best {
                Some(chessmove) => Some(Move { chessmove, score: best_score }),
                None => None,
            },
        )
    } else {
        match eval.evaluation(board_after(board, moves[next])) {
            Err(e) => Err(e),
            Ok(_) => if reply_score(eval, board, moves, next) > best_score {
                greedy_scan(
                    eval,
                    board,
                    moves,
                    next + 1,
                    Some(moves[next]),
                    reply_score(eval, board, moves, next),
                )
            } else {
                greedy_scan(eval, board, moves, next + 1, best, best_score)
            },
        }
    }
}

/// The choice of the one-ply search: none for a position that cannot be
/// searched, for which no moves are generated.
pub open spec fn greedy_choice<E: Evaluator>(eval: E, board: chess::Board) -> Result<
    Option<Move>,
    EvalError,
> {
    if searchable(board) {
        greedy_scan(eval, board, legal_moves(board), 0, None, SCORE_FLOOR)
    } else {
        Ok(None)
    }
}

/// The scores that the one-ply search gives the moves, in order.
pub open spec fn reply_scores<E: Evaluator>(
    eval: E,
    board: chess::Board,
    moves: Seq<chess::ChessMove>,
) -> Seq<i32> {
    Seq::new(moves.len(), |j: int| reply_score(eval, board, moves, j))
}

/// Whether `found` is the first of the legal moves with the highest score,
/// and that score exceeds [`SCORE_FLOOR`].
pub open spec fn is_best_reply<E: Evaluator>(eval: E, board: chess::Board, found: Move) -> bool {
    let scores = reply_scores(eval, board, legal_moves(board));
    &&& found.score > SCORE_FLOOR
    &&& exists|k: int|
        {
            &&& #[trigger] is_first_highest_from(scores, 0, k)
            &&& found.chessmove == legal_moves(board)[k]
            &&& found.score == scores[k]
        }
}

/// Chooses the move after which the evaluator finds the position worst for
/// the opponent: of the legal moves whose score, the negated evaluation of the
/// position they lead to, exceeds [`SCORE_FLOOR`], the first with the highest
/// score. `None` where no legal move has such a score, and for a position
/// that cannot be searched. `depth` has no effect.
pub fn move_search<E: Evaluator>(board: &chess::Board, depth: i32, eval: &E) -> (r: Result<
    Option<Move>,
    EvalError,
>)
    ensures
        r == greedy_choice(*eval, *board),
        r matches Ok(Some(found)) ==> in_score_range(found.score) && is_best_reply(
            *eval,
            *board,
            found,
        ),
        searchable(*board) ==> (r matches Ok(None) ==> forall|j: int|
            0 <= j < legal_moves(*board).len() ==> #[trigger] reply_scores(
                *eval,
                *board,
                legal_moves(*board),
            )[j] <= SCORE_FLOOR),
        !searchable(*board) || legal_moves(*board).len() == 0 ==> r == Ok::<
            Option<Move>,
            EvalError,
        >(None),
{
    if !is_searchable(board) {
        return Ok(None);
    }
    proof {
        if greedy_choice(*eval, *board) is Ok {
            lemma_greedy_success_means_replies_evaluated(
                *eval,
                *board,
                legal_moves(*board),
                0,
                None,
                SCORE_FLOOR,
            );
            lemma_greedy_scan_maximum(*eval, *board, legal_moves(*board), 0, None, SCORE_FLOOR);
        }
    }
    let mut best_score: i32 = SCORE_FLOOR;
    let mut best: Option<chess::ChessMove> = None;

    let moves = generate_moves(board);
    let mut i: usize = 0;
    while i < moves.len()
        invariant
            searchable(*board),
            i <= moves.len(),
            moves@ == legal_moves(*board),
            in_score_range(best_score),
            greedy_scan(*eval, *board, moves@, i as int, best, best_score) == greedy_choice(
                *eval,
                *board,
            ),
        decreases moves.len() - i,
    {
        let maybe_move = moves[i];
        let b = play(board, maybe_move);
        let score = -eval.evaluate(&b)?;

        if score > best_score {
            best = Some(maybe_move);
            best_score = score;
        }
        i += 1;
    }

    match best {
        Some(chessmove) => { return Ok(Some(Move { chessmove, score: best_score })) },
        None => return Ok(None),
    };
}

/// The score of a position with `depth` plies left: below
/// [`SCORER_HORIZON`], and for a position that cannot be searched, the
/// evaluator's; else the highest negated score of the positions that the
/// examined moves lead to, or the evaluator's where no move is examined.
pub open spec fn scorer_value<E: Evaluator>(eval: E, board: chess::Board, depth: i32) -> Result<
    i32,
    EvalError,
>
    decreases depth - SCORER_HORIZON + 1, 1int, 0int,
{
    if depth < SCORER_HORIZON || !searchable(board) {
        eval.evaluation(board)
    } else {
        scorer_fold(eval, board, examined_moves(board, depth), 0, depth, None)
    }
}

/// What scoring the moves from index `next` on gives, with `best` the highest
/// score so far: the first error, or the highest score in the end, or the
/// evaluator's score of the position where no move was scored.
pub open spec fn scorer_fold<E: Evaluator>(
    eval: E,
    board: chess::Board,
    moves: Seq<chess::ChessMove>,
    next: int,
    depth: i32,
    best: Option<i32>,
) -> Result<i32, EvalError>
    decreases depth - SCORER_HORIZON + 1, 0int, moves.len() - next,
{
    if depth < SCORER_HORIZON || next < 0 || next >= moves.len() {
        match best {
            Some(score) => Ok(score),
            None => eval.evaluation(board),
        }
    } else {
        match scorer_value(eval, board_after(board, moves[next]), (depth - 1) as i32) {
            Err(e) => Err(e),
            Ok(child_score) => scorer_fold(
                eval,
                board,
                moves,
                next + 1,
                depth,
                Some(higher(best, negated(child_score))),
            ),
        }
    }
}

/// The higher of the highest score so far and a new one.
pub open spec fn higher(best: Option<i32>, score: i32) -> i32 {
    match best {
        Some(b) => if b >= score {
            b
        } else {
            score
        },
        None => score,
    }
}

/// The score that [`scorer`] gives the move at `index`: the negated score of
/// the position it leads to, with one ply less. Meaningful where that position
/// is scored without error.
pub open spec fn scorer_reply<E: Evaluator>(
    eval: E,
    board: chess::Board,
    moves: Seq<chess::ChessMove>,
    index: int,
    depth: i32,
) -> i32 {
    negated(scorer_value(eval, board_after(board, moves[index]), (depth - 1) as i32)->Ok_0)
}

/// Whether `score` is the highest of the scores of the moves.
pub open spec fn is_highest_reply<E: Evaluator>(
    eval: E,
    board: chess::Board,
    moves: Seq<chess::ChessMove>,
    depth: i32,
    score: i32,
) -> bool {
    &&& exists|k: int|
        0 <= k < moves.len() && #[trigger] scorer_reply(eval, board, moves, k, depth) == score
    &&& forall|j: int|
        0 <= j < moves.len() ==> #[trigger] scorer_reply(eval, board, moves, j, depth) <= score
}

/// Scores a position by full-width negamax down to depth 0 and by captures
/// only from there to [`SCORER_HORIZON`]: the score is the highest of the
/// negated scores of the positions that the examined moves lead to, and the
/// evaluator's where no move is examined or the position cannot be searched.
pub fn scorer<E: Evaluator>(board: &chess::Board, depth: i32, eval: &E) -> (r: Result<
    i32,
    EvalError,
>)
    ensures
        r == scorer_value(*eval, *board, depth),
        r matches Ok(score) ==> in_score_range(score),
        depth >= SCORER_HORIZON && searchable(*board) && examined_moves(*board, depth).len() > 0
            ==> (r matches Ok(score) ==> is_highest_reply(
            *eval,
            *board,
            examined_moves(*board, depth),
            depth,
            score,
        )),
        depth < SCORER_HORIZON || !searchable(*board) || examined_moves(*board, depth).len() == 0
            ==> r == eval.evaluation(*board),
    decreases depth - SCORER_HORIZON + 1,
{
    proof {
        if depth >= SCORER_HORIZON && searchable(*board) && scorer_value(*eval, *board, depth)
            is Ok {
            lemma_scorer_fold_maximum(
                *eval,
                *board,
                examined_moves(*board, depth),
                0,
                depth,
                None,
            );
        }
    }
    if depth < SCORER_HORIZON {
        return Ok(eval.evaluate(board)?);
    }
    if !is_searchable(board) {
        // A move may lead to a position that is not sane. No moves are
        // generated for it: it is scored as it stands.
        return Ok(eval.evaluate(board)?);
    }
    // At depth 0 and below only captures are examined.
    let moves = moves_to_examine(board, depth);

    let mut scores: Option<i32> = None;
    let mut i: usize = 0;
    while i < moves.len()
        invariant
            searchable(*board),
            depth >= SCORER_HORIZON,
            i <= moves.len(),
            forall|j: int| 0 <= j < moves@.len() ==> is_generated(*board, #[trigger] moves@[j]),
            scores matches Some(score) ==> in_score_range(score),
            scorer_fold(*eval, *board, moves@, i as int, depth, scores) == scorer_value(
                *eval,
                *board,
                depth,
            ),
        decreases moves.len() - i,
    {
        let chessmove = moves[i];
        let b = play(board, chessmove);
        let score = -scorer(&b, depth - 1, eval)?;
        scores = match scores {
            Some(a) => Some(
                if a >= score {
                    a
                } else {
                    score
                },
            ),
            None => Some(score),
        };
        i += 1;
    }

    match scores {
        Some(score) => return Ok(score),
        None => { return Ok(eval.evaluate(board)?); },
    };
}

} // verus!
