//! What holds of the full-width search, proved of its definition.

use super::simpleminmax::{
    is_first_maximum, minimax_best, minimax_scan, minimax_score, move_scores, replies_scored,
    SimpleMinMax,
};
use super::{better, examined_moves, is_first_highest_from, negated, MoveSearch, ScoredMove};
use crate::evaluator::{agree, never_fails, Evaluator};
use crate::rules::{board_after, searchable};
use vstd::prelude::*;

verus! {

/// A scan returns no move only if it had none so far and none to examine.
pub proof fn lemma_minimax_scan_finds_move<E: Evaluator>(
    max_capture_depth: i32,
    eval: E,
    board: chess::Board,
    moves: Seq<chess::ChessMove>,
    next: int,
    depth: i32,
    best: Option<ScoredMove>,
)
    requires
        0 <= next,
        depth > -max_capture_depth,
    ensures
        minimax_scan(max_capture_depth, eval, board, moves, next, depth, best) matches Ok(None)
            <==> best is None && next >= moves.len(),
    decreases moves.len() - next,
{
    if next < moves.len() {
        let m = moves[next];
        let child = minimax_score(
            max_capture_depth,
            eval,
            board_after(board, m),
            (depth - 1) as i32,
        );
        if let Ok(child_score) = child {
            lemma_minimax_scan_finds_move(
                max_capture_depth,
                eval,
                board,
                moves,
                next + 1,
                depth,
                better(best, m, negated(child_score)),
            );
        }
    }
}

/// A node has no best move exactly where the capture extension is used up,
/// the position cannot be searched or the node has no move to examine. Else
/// the result is a move or the evaluator's error.
pub proof fn lemma_minimax_none_iff_no_move<E: Evaluator>(
    max_capture_depth: i32,
    eval: E,
    board: chess::Board,
    depth: i32,
)
    ensures
        minimax_best(max_capture_depth, eval, board, depth) matches Ok(None) <==> depth
            <= -max_capture_depth || !searchable(board) || examined_moves(board, depth).len() == 0,
{
    if depth > -max_capture_depth {
        lemma_minimax_scan_finds_move(
            max_capture_depth,
            eval,
            board,
            examined_moves(board, depth),
            0,
            depth,
            None,
        );
    }
}

/// With an evaluator that scores every position, scoring a node succeeds.
pub proof fn lemma_minimax_score_succeeds<E: Evaluator>(
    max_capture_depth: i32,
    eval: E,
    board: chess::Board,
    depth: i32,
)
    requires
        never_fails(eval),
    ensures
        minimax_score(max_capture_depth, eval, board, depth) is Ok,
    decreases depth + max_capture_depth, 2int, 0int,
{
    lemma_minimax_best_succeeds(max_capture_depth, eval, board, depth);
}

/// With an evaluator that scores every position, finding the best move of a
/// node succeeds.
pub proof fn lemma_minimax_best_succeeds<E: Evaluator>(
    max_capture_depth: i32,
    eval: E,
    board: chess::Board,
    depth: i32,
)
    requires
        never_fails(eval),
    ensures
        minimax_best(max_capture_depth, eval, board, depth) is Ok,
    decreases depth + max_capture_depth, 1int, 0int,
{
    if depth > -max_capture_depth {
        lemma_minimax_scan_succeeds(
            max_capture_depth,
            eval,
            board,
            examined_moves(board, depth),
            0,
            depth,
            None,
        );
    }
}

/// With an evaluator that scores every position, a scan succeeds.
pub proof fn lemma_minimax_scan_succeeds<E: Evaluator>(
    max_capture_depth: i32,
    eval: E,
    board: chess::Board,
    moves: Seq<chess::ChessMove>,
    next: int,
    depth: i32,
    best: Option<ScoredMove>,
)
    requires
        never_fails(eval),
    ensures
        minimax_scan(max_capture_depth, eval, board, moves, next, depth, best) is Ok,
    decreases depth + max_capture_depth, 0int, moves.len() - next,
{
    if depth > -max_capture_depth && 0 <= next < moves.len() {
        let m = moves[next];
        lemma_minimax_score_succeeds(
            max_capture_depth,
            eval,
            board_after(board, m),
            (depth - 1) as i32,
        );
        let child = minimax_score(
            max_capture_depth,
            eval,
            board_after(board, m),
            (depth - 1) as i32,
        );
        lemma_minimax_scan_succeeds(
            max_capture_depth,
            eval,
            board,
            moves,
            next + 1,
            depth,
            better(best, m, negated(child->Ok_0)),
        );
    }
}

/// The score of a node depends on the evaluator only through what it returns
/// for each position.
pub proof fn lemma_minimax_score_same<E1: Evaluator, E2: Evaluator>(
    max_capture_depth: i32,
    first: E1,
    second: E2,
    board: chess::Board,
    depth: i32,
)
    requires
        agree(first, second),
    ensures
        minimax_score(max_capture_depth, first, board, depth) == minimax_score(
            max_capture_depth,
            second,
            board,
            depth,
        ),
    decreases depth + max_capture_depth, 2int, 0int,
{
    lemma_minimax_best_same(max_capture_depth, first, second, board, depth);
}

/// The best move of a node depends on the evaluator only through what it
/// returns for each position.
pub proof fn lemma_minimax_best_same<E1: Evaluator, E2: Evaluator>(
    max_capture_depth: i32,
    first: E1,
    second: E2,
    board: chess::Board,
    depth: i32,
)
    requires
        agree(first, second),
    ensures
        minimax_best(max_capture_depth, first, board, depth) == minimax_best(
            max_capture_depth,
            second,
            board,
            depth,
        ),
    decreases depth + max_capture_depth, 1int, 0int,
{
    if depth > -max_capture_depth {
        lemma_minimax_scan_same(
            max_capture_depth,
            first,
            second,
            board,
            examined_moves(board, depth),
            0,
            depth,
            None,
        );
    }
}

/// What a scan gives depends on the evaluator only through what it returns
/// for each position.
pub proof fn lemma_minimax_scan_same<E1: Evaluator, E2: Evaluator>(
    max_capture_depth: i32,
    first: E1,
    second: E2,
    board: chess::Board,
    moves: Seq<chess::ChessMove>,
    next: int,
    depth: i32,
    best: Option<ScoredMove>,
)
    requires
        agree(first, second),
    ensures
        minimax_scan(max_capture_depth, first, board, moves, next, depth, best) == minimax_scan(
            max_capture_depth,
            second,
            board,
            moves,
            next,
            depth,
            best,
        ),
    decreases depth + max_capture_depth, 0int, moves.len() - next,
{
    if depth > -max_capture_depth && 0 <= next < moves.len() {
        let m = moves[next];
        lemma_minimax_score_same(
            max_capture_depth,
            first,
            second,
            board_after(board, m),
            (depth - 1) as i32,
        );
        let child = minimax_score(
            max_capture_depth,
            first,
            board_after(board, m),
            (depth - 1) as i32,
        );
        if let Ok(child_score) = child {
            lemma_minimax_scan_same(
                max_capture_depth,
                first,
                second,
                board,
                moves,
                next + 1,
                depth,
                better(best, m, negated(child_score)),
            );
        }
    }
}

/// Where no position is scored with an error, a scan keeps the best move so
/// far unless a later move scores strictly higher, and then gives the first of
/// the later moves with the highest score.
pub proof fn lemma_minimax_scan_maximum<E: Evaluator>(
    max_capture_depth: i32,
    eval: E,
    board: chess::Board,
    moves: Seq<chess::ChessMove>,
    next: int,
    depth: i32,
    best: Option<ScoredMove>,
)
    requires
        depth > -max_capture_depth,
        0 <= next <= moves.len(),
        replies_scored(max_capture_depth, eval, board, moves, next, depth),
    ensures
        ({
            let scores = move_scores(max_capture_depth, eval, board, moves, depth);
            match minimax_scan(max_capture_depth, eval, board, moves, next, depth, best) {
                Err(_) => false,
                Ok(None) => best is None && next == moves.len(),
                Ok(Some(found)) => {
                    ||| {
                        &&& best == Some(found)
                        &&& forall|j: int|
                            next <= j < moves.len() ==> #[trigger] scores[j] <= found.score
                    }
                    ||| {
                        &&& best matches Some(b) ==> b.score < found.score
                        &&& is_first_maximum(
                            max_capture_depth,
                            eval,
                            board,
                            moves,
                            next,
                            depth,
                            found,
                        )
                    }
                },
            }
        }),
    decreases moves.len() - next,
{
    if next < moves.len() {
        let scores = move_scores(max_capture_depth, eval, board, moves, depth);
        let score = scores[next];
        let kept = better(best, moves[next], score);
        lemma_minimax_scan_maximum(max_capture_depth, eval, board, moves, next + 1, depth, kept);
        let later = minimax_scan(max_capture_depth, eval, board, moves, next + 1, depth, kept);
        let found = later->Ok_0->Some_0;
        if kept == Some(found) && (forall|j: int|
            next + 1 <= j < moves.len() ==> #[trigger] scores[j] <= found.score) {
            if best != Some(found) {
                assert(is_first_highest_from(scores, next, next));
            }
        } else {
            let k = choose|k: int|
                {
                    &&& #[trigger] is_first_highest_from(scores, next + 1, k)
                    &&& found.chessmove == moves[k]
                    &&& found.score == scores[k]
                };
            assert(is_first_highest_from(scores, next, k));
        }
    }
}

/// A scan succeeds only if every position that its moves lead to is scored
/// without error.
pub proof fn lemma_minimax_success_means_replies_scored<E: Evaluator>(
    max_capture_depth: i32,
    eval: E,
    board: chess::Board,
    moves: Seq<chess::ChessMove>,
    next: int,
    depth: i32,
    best: Option<ScoredMove>,
)
    requires
        depth > -max_capture_depth,
        0 <= next <= moves.len(),
        minimax_scan(max_capture_depth, eval, board, moves, next, depth, best) is Ok,
    ensures
        replies_scored(max_capture_depth, eval, board, moves, next, depth),
    decreases moves.len() - next,
{
    if next < moves.len() {
        let m = moves[next];
        let child = minimax_score(
            max_capture_depth,
            eval,
            board_after(board, m),
            (depth - 1) as i32,
        );
        lemma_minimax_success_means_replies_scored(
            max_capture_depth,
            eval,
            board,
            moves,
            next + 1,
            depth,
            better(best, m, negated(child->Ok_0)),
        );
    }
}

/// Above the end of the capture extension, for a position that can be
/// searched, and where no position is scored with an error, the best move of a
/// node with a move to examine is the first of its moves with the highest
/// score; a node with none has no best move.
pub proof fn lemma_minimax_best_is_first_maximum<E: Evaluator>(
    max_capture_depth: i32,
    eval: E,
    board: chess::Board,
    depth: i32,
)
    requires
        depth > -max_capture_depth,
        searchable(board),
        replies_scored(max_capture_depth, eval, board, examined_moves(board, depth), 0, depth),
    ensures
        match minimax_best(max_capture_depth, eval, board, depth) {
            Err(_) => false,
            Ok(None) => examined_moves(board, depth).len() == 0,
            Ok(Some(found)) => is_first_maximum(
                max_capture_depth,
                eval,
                board,
                examined_moves(board, depth),
                0,
                depth,
                found,
            ),
        },
{
    lemma_minimax_scan_maximum(
        max_capture_depth,
        eval,
        board,
        examined_moves(board, depth),
        0,
        depth,
        None,
    );
}

/// Two searchers with the same limits and evaluators that return the same for
/// every position choose the same move with the same score for a position.
pub proof fn lemma_minimax_deterministic<E1: Evaluator, E2: Evaluator>(
    first: SimpleMinMax<E1>,
    second: SimpleMinMax<E2>,
    board: chess::Board,
)
    requires
        first.max_depth == second.max_depth,
        first.max_capture_depth == second.max_capture_depth,
        agree(first.eval, second.eval),
    ensures
        first.choice(board) == second.choice(board),
{
    lemma_minimax_best_same(
        first.max_capture_depth,
        first.eval,
        second.eval,
        board,
        first.max_depth,
    );
}

} // verus!
