//! What holds of the alpha-beta search, proved of its definition.

use super::alphabeta::{
    bound_of, cached_score, candidates, examined_scores, expand_outcome, is_best_at_root,
    narrowed_alpha, narrowed_beta, scan_outcome, score_outcome, AlphaBeta,
};
use super::{better, is_first_highest_from, negated, MoveSearch, ScoredMove};
use crate::evaluator::{agree, never_fails, Evaluator, SCORE_MAX, SCORE_MIN};
use crate::rules::{board_after, board_hash, searchable};
use crate::table::{lemma_slot_index_in_range, slot_index, Bound, TranspositionEntry};
use vstd::prelude::*;

verus! {

/// A scan that succeeds keeps the best move so far unless an examined move
/// scores strictly higher, and then gives the first of the examined moves with
/// the highest score.
pub proof fn lemma_scan_best_is_first_highest<E: Evaluator>(
    max_capture_depth: i32,
    eval: E,
    board: chess::Board,
    moves: Seq<chess::ChessMove>,
    next: int,
    depth: i32,
    alpha: i32,
    beta: i32,
    best: Option<ScoredMove>,
    table: Seq<Option<TranspositionEntry>>,
)
    requires
        depth > -max_capture_depth,
        0 <= next <= moves.len(),
    ensures
        ({
            let scores = examined_scores(
                max_capture_depth,
                eval,
                board,
                moves,
                next,
                depth,
                alpha,
                beta,
                table,
            );
            &&& next + scores.len() <= moves.len()
            &&& match scan_outcome(
                max_capture_depth,
                eval,
                board,
                moves,
                next,
                depth,
                alpha,
                beta,
                best,
                table,
            ).result {
                Err(_) => true,
                Ok(None) => best is None && scores.len() == 0,
                Ok(Some(found)) => {
                    ||| {
                        &&& best == Some(found)
                        &&& forall|j: int|
                            0 <= j < scores.len() ==> #[trigger] scores[j] <= found.score
                    }
                    ||| exists|k: int|
                        {
                            &&& #[trigger] is_first_highest_from(scores, 0, k)
                            &&& found.chessmove == moves[next + k]
                            &&& found.score == scores[k]
                            &&& best matches Some(b) ==> b.score < found.score
                        }
                },
            }
        }),
    decreases moves.len() - next,
{
    let scores = examined_scores(
        max_capture_depth,
        eval,
        board,
        moves,
        next,
        depth,
        alpha,
        beta,
        table,
    );
    if next < moves.len() {
        let m = moves[next];
        let child = score_outcome(
            max_capture_depth,
            eval,
            board_after(board, m),
            (depth - 1) as i32,
            negated(beta),
            negated(alpha),
            table,
        );
        if let Ok(child_score) = child.result {
            let score = negated(child_score);
            let kept = better(best, m, score);
            let raised = if score > alpha {
                score
            } else {
                alpha
            };
            if raised > beta {
                // The scan ends with this move.
                if best != kept {
                    assert(is_first_highest_from(scores, 0, 0));
                }
            } else {
                // The scores are this move's, then those of the moves after it.
                let rest = examined_scores(
                    max_capture_depth,
                    eval,
                    board,
                    moves,
                    next + 1,
                    depth,
                    raised,
                    beta,
                    child.table,
                );
                assert forall|j: int| 0 <= j < rest.len() implies #[trigger] rest[j] == scores[j
                    + 1] by {}
                lemma_scan_best_is_first_highest(
                    max_capture_depth,
                    eval,
                    board,
                    moves,
                    next + 1,
                    depth,
                    raised,
                    beta,
                    kept,
                    child.table,
                );
                let outcome = scan_outcome(
                    max_capture_depth,
                    eval,
                    board,
                    moves,
                    next + 1,
                    depth,
                    raised,
                    beta,
                    kept,
                    child.table,
                );
                if let Ok(Some(found)) = outcome.result {
                    if kept == Some(found) && (forall|j: int|
                        0 <= j < rest.len() ==> #[trigger] rest[j] <= found.score) {
                        // No later move beats the best after this move.
                        if best != kept {
                            assert(is_first_highest_from(scores, 0, 0));
                        }
                    } else {
                        // A later move does, and it beats this move too.
                        let k = choose|k: int|
                            {
                                &&& #[trigger] is_first_highest_from(rest, 0, k)
                                &&& found.chessmove == moves[next + 1 + k]
                                &&& found.score == rest[k]
                                &&& kept matches Some(b) ==> b.score < found.score
                            };
                        assert(is_first_highest_from(scores, 0, k + 1));
                    }
                }
            }
        }
    }
}

/// With the widest upper end of the window no move raises the lower end above
/// it, so a scan that succeeds examines every move.
pub proof fn lemma_widest_window_examines_all<E: Evaluator>(
    max_capture_depth: i32,
    eval: E,
    board: chess::Board,
    moves: Seq<chess::ChessMove>,
    next: int,
    depth: i32,
    alpha: i32,
    best: Option<ScoredMove>,
    table: Seq<Option<TranspositionEntry>>,
)
    requires
        depth > -max_capture_depth,
        0 <= next <= moves.len(),
        scan_outcome(
            max_capture_depth,
            eval,
            board,
            moves,
            next,
            depth,
            alpha,
            SCORE_MAX,
            best,
            table,
        ).result is Ok,
    ensures
        examined_scores(
            max_capture_depth,
            eval,
            board,
            moves,
            next,
            depth,
            alpha,
            SCORE_MAX,
            table,
        ).len() == moves.len() - next,
    decreases moves.len() - next,
{
    if next < moves.len() {
        let m = moves[next];
        let child = score_outcome(
            max_capture_depth,
            eval,
            board_after(board, m),
            (depth - 1) as i32,
            negated(SCORE_MAX),
            negated(alpha),
            table,
        );
        let score = negated(child.result->Ok_0);
        let raised = if score > alpha {
            score
        } else {
            alpha
        };
        lemma_widest_window_examines_all(
            max_capture_depth,
            eval,
            board,
            moves,
            next + 1,
            depth,
            raised,
            better(best, m, score),
            child.table,
        );
    }
}

/// The move that a search from the root returns is the first of the root's
/// candidates with the highest score.
pub proof fn lemma_root_choice_is_first_highest<E: Evaluator>(
    max_capture_depth: i32,
    eval: E,
    board: chess::Board,
    depth: i32,
    table: Seq<Option<TranspositionEntry>>,
)
    ensures
        expand_outcome(
            max_capture_depth,
            eval,
            board,
            depth,
            SCORE_MIN,
            SCORE_MAX,
            table,
        ).result matches Ok(Some(found)) ==> is_best_at_root(
            max_capture_depth,
            eval,
            board,
            depth,
            table,
            found,
        ),
{
    let outcome = expand_outcome(
        max_capture_depth,
        eval,
        board,
        depth,
        SCORE_MIN,
        SCORE_MAX,
        table,
    );
    if depth > -max_capture_depth && searchable(board) {
        assert(outcome == scan_outcome(
            max_capture_depth,
            eval,
            board,
            candidates(board, depth),
            0,
            depth,
            SCORE_MIN,
            SCORE_MAX,
            None,
            table,
        ));
        if outcome.result is Ok {
            lemma_widest_window_examines_all(
                max_capture_depth,
                eval,
                board,
                candidates(board, depth),
                0,
                depth,
                SCORE_MIN,
                None,
                table,
            );
            lemma_scan_best_is_first_highest(
                max_capture_depth,
                eval,
                board,
                candidates(board, depth),
                0,
                depth,
                SCORE_MIN,
                SCORE_MAX,
                None,
                table,
            );
        }
    }
}

/// A scan returns no move only if it had none so far and none to examine.
pub proof fn lemma_scan_finds_move<E: Evaluator>(
    max_capture_depth: i32,
    eval: E,
    board: chess::Board,
    moves: Seq<chess::ChessMove>,
    next: int,
    depth: i32,
    alpha: i32,
    beta: i32,
    best: Option<ScoredMove>,
    table: Seq<Option<TranspositionEntry>>,
)
    requires
        0 <= next,
        depth > -max_capture_depth,
    ensures
        scan_outcome(
            max_capture_depth,
            eval,
            board,
            moves,
            next,
            depth,
            alpha,
            beta,
            best,
            table,
        ).result matches Ok(None) <==> best is None && next >= moves.len(),
    decreases moves.len() - next,
{
    if next < moves.len() {
        let m = moves[next];
        let child = score_outcome(
            max_capture_depth,
            eval,
            board_after(board, m),
            (depth - 1) as i32,
            negated(beta),
            negated(alpha),
            table,
        );
        if let Ok(child_score) = child.result {
            let score = negated(child_score);
            let raised = if score > alpha {
                score
            } else {
                alpha
            };
            if raised <= beta {
                lemma_scan_finds_move(
                    max_capture_depth,
                    eval,
                    board,
                    moves,
                    next + 1,
                    depth,
                    raised,
                    beta,
                    better(best, m, score),
                    child.table,
                );
            }
        }
    }
}

/// Expanding a node gives no move exactly where the capture extension is used
/// up, the position cannot be searched or the node has no candidate. Else the
/// result is a move or the evaluator's error.
pub proof fn lemma_expand_none_iff_no_candidate<E: Evaluator>(
    max_capture_depth: i32,
    eval: E,
    board: chess::Board,
    depth: i32,
    alpha: i32,
    beta: i32,
    table: Seq<Option<TranspositionEntry>>,
)
    ensures
        expand_outcome(max_capture_depth, eval, board, depth, alpha, beta, table).result matches Ok(
            None,
        ) <==> depth <= -max_capture_depth || !searchable(board) || candidates(
            board,
            depth,
        ).len() == 0,
{
    if depth > -max_capture_depth {
        lemma_scan_finds_move(
            max_capture_depth,
            eval,
            board,
            candidates(board, depth),
            0,
            depth,
            alpha,
            beta,
            None,
            table,
        );
    }
}

/// Scoring a node keeps the number of slots of the table.
pub proof fn lemma_score_keeps_capacity<E: Evaluator>(
    max_capture_depth: i32,
    eval: E,
    board: chess::Board,
    depth: i32,
    alpha: i32,
    beta: i32,
    table: Seq<Option<TranspositionEntry>>,
)
    requires
        0 < table.len() <= u64::MAX,
    ensures
        score_outcome(max_capture_depth, eval, board, depth, alpha, beta, table).table.len()
            == table.len(),
    decreases depth + max_capture_depth, 2int, 0int,
{
    let entry = table[slot_index(board_hash(board), table.len())];
    lemma_slot_index_in_range(board_hash(board), table.len());
    lemma_expand_keeps_capacity(
        max_capture_depth,
        eval,
        board,
        depth,
        narrowed_alpha(entry, depth, alpha),
        narrowed_beta(entry, depth, beta),
        table,
    );
}

/// Expanding a node keeps the number of slots of the table.
pub proof fn lemma_expand_keeps_capacity<E: Evaluator>(
    max_capture_depth: i32,
    eval: E,
    board: chess::Board,
    depth: i32,
    alpha: i32,
    beta: i32,
    table: Seq<Option<TranspositionEntry>>,
)
    requires
        0 < table.len() <= u64::MAX,
    ensures
        expand_outcome(max_capture_depth, eval, board, depth, alpha, beta, table).table.len()
            == table.len(),
    decreases depth + max_capture_depth, 1int, 0int,
{
    if depth > -max_capture_depth {
        lemma_scan_keeps_capacity(
            max_capture_depth,
            eval,
            board,
            candidates(board, depth),
            0,
            depth,
            alpha,
            beta,
            None,
            table,
        );
    }
}

/// A scan keeps the number of slots of the table.
pub proof fn lemma_scan_keeps_capacity<E: Evaluator>(
    max_capture_depth: i32,
    eval: E,
    board: chess::Board,
    moves: Seq<chess::ChessMove>,
    next: int,
    depth: i32,
    alpha: i32,
    beta: i32,
    best: Option<ScoredMove>,
    table: Seq<Option<TranspositionEntry>>,
)
    requires
        0 < table.len() <= u64::MAX,
    ensures
        scan_outcome(
            max_capture_depth,
            eval,
            board,
            moves,
            next,
            depth,
            alpha,
            beta,
            best,
            table,
        ).table.len() == table.len(),
    decreases depth + max_capture_depth, 0int, moves.len() - next,
{
    if depth > -max_capture_depth && 0 <= next < moves.len() {
        let m = moves[next];
        lemma_score_keeps_capacity(
            max_capture_depth,
            eval,
            board_after(board, m),
            (depth - 1) as i32,
            negated(beta),
            negated(alpha),
            table,
        );
        let child = score_outcome(
            max_capture_depth,
            eval,
            board_after(board, m),
            (depth - 1) as i32,
            negated(beta),
            negated(alpha),
            table,
        );
        if let Ok(child_score) = child.result {
            let score = negated(child_score);
            let raised = if score > alpha {
                score
            } else {
                alpha
            };
            if raised <= beta {
                lemma_scan_keeps_capacity(
                    max_capture_depth,
                    eval,
                    board,
                    moves,
                    next + 1,
                    depth,
                    raised,
                    beta,
                    better(best, m, score),
                    child.table,
                );
            }
        }
    }
}

/// A node that is scored by searching leaves its score in the slot of its
/// hash, with its depth and with the bound that the narrowed window gives.
pub proof fn lemma_score_is_stored<E: Evaluator>(
    max_capture_depth: i32,
    eval: E,
    board: chess::Board,
    depth: i32,
    alpha: i32,
    beta: i32,
    table: Seq<Option<TranspositionEntry>>,
)
    requires
        0 < table.len() <= u64::MAX,
        cached_score(table[slot_index(board_hash(board), table.len())], depth, alpha, beta) is None,
        score_outcome(max_capture_depth, eval, board, depth, alpha, beta, table).result is Ok,
    ensures
        ({
            let slot = slot_index(board_hash(board), table.len());
            let outcome = score_outcome(max_capture_depth, eval, board, depth, alpha, beta, table);
            let score = outcome.result->Ok_0;
            outcome.table[slot] == Some(
                TranspositionEntry {
                    depth,
                    score,
                    bound: bound_of(
                        score,
                        narrowed_alpha(table[slot], depth, alpha),
                        narrowed_beta(table[slot], depth, beta),
                    ),
                },
            )
        }),
{
    let slot = slot_index(board_hash(board), table.len());
    lemma_slot_index_in_range(board_hash(board), table.len());
    lemma_expand_keeps_capacity(
        max_capture_depth,
        eval,
        board,
        depth,
        narrowed_alpha(table[slot], depth, alpha),
        narrowed_beta(table[slot], depth, beta),
        table,
    );
}

/// No false optimism: where the slot of a node holds an upper bound that was
/// computed with at least the node's depth, and scoring the node leaves an
/// exact score in the slot, that score lies below the bound.
pub proof fn lemma_exact_score_below_upper_bound<E: Evaluator>(
    max_capture_depth: i32,
    eval: E,
    board: chess::Board,
    depth: i32,
    alpha: i32,
    beta: i32,
    table: Seq<Option<TranspositionEntry>>,
)
    requires
        0 < table.len() <= u64::MAX,
        table[slot_index(board_hash(board), table.len())] matches Some(known) && known.depth
            >= depth && known.bound == Bound::UpperBound,
        score_outcome(max_capture_depth, eval, board, depth, alpha, beta, table).result is Ok,
        score_outcome(max_capture_depth, eval, board, depth, alpha, beta, table).table[slot_index(
            board_hash(board),
            table.len(),
        )] matches Some(found) && found.bound == Bound::Exact,
    ensures
        score_outcome(max_capture_depth, eval, board, depth, alpha, beta, table).table[slot_index(
            board_hash(board),
            table.len(),
        )]->Some_0.score < table[slot_index(board_hash(board), table.len())]->Some_0.score,
{
    let slot = slot_index(board_hash(board), table.len());
    if cached_score(table[slot], depth, alpha, beta) is None {
        lemma_score_is_stored(max_capture_depth, eval, board, depth, alpha, beta, table);
    }
}

/// With an evaluator that scores every position, scoring a node succeeds.
pub proof fn lemma_score_succeeds<E: Evaluator>(
    max_capture_depth: i32,
    eval: E,
    board: chess::Board,
    depth: i32,
    alpha: i32,
    beta: i32,
    table: Seq<Option<TranspositionEntry>>,
)
    requires
        never_fails(eval),
    ensures
        score_outcome(max_capture_depth, eval, board, depth, alpha, beta, table).result is Ok,
    decreases depth + max_capture_depth, 2int, 0int,
{
    let entry = table[slot_index(board_hash(board), table.len())];
    lemma_expand_succeeds(
        max_capture_depth,
        eval,
        board,
        depth,
        narrowed_alpha(entry, depth, alpha),
        narrowed_beta(entry, depth, beta),
        table,
    );
}

/// With an evaluator that scores every position, expanding a node succeeds.
pub proof fn lemma_expand_succeeds<E: Evaluator>(
    max_capture_depth: i32,
    eval: E,
    board: chess::Board,
    depth: i32,
    alpha: i32,
    beta: i32,
    table: Seq<Option<TranspositionEntry>>,
)
    requires
        never_fails(eval),
    ensures
        expand_outcome(max_capture_depth, eval, board, depth, alpha, beta, table).result is Ok,
    decreases depth + max_capture_depth, 1int, 0int,
{
    if depth > -max_capture_depth {
        lemma_scan_succeeds(
            max_capture_depth,
            eval,
            board,
            candidates(board, depth),
            0,
            depth,
            alpha,
            beta,
            None,
            table,
        );
    }
}

/// With an evaluator that scores every position, a scan succeeds.
pub proof fn lemma_scan_succeeds<E: Evaluator>(
    max_capture_depth: i32,
    eval: E,
    board: chess::Board,
    moves: Seq<chess::ChessMove>,
    next: int,
    depth: i32,
    alpha: i32,
    beta: i32,
    best: Option<ScoredMove>,
    table: Seq<Option<TranspositionEntry>>,
)
    requires
        never_fails(eval),
    ensures
        scan_outcome(
            max_capture_depth,
            eval,
            board,
            moves,
            next,
            depth,
            alpha,
            beta,
            best,
            table,
        ).result is Ok,
    decreases depth + max_capture_depth, 0int, moves.len() - next,
{
    if depth > -max_capture_depth && 0 <= next < moves.len() {
        let m = moves[next];
        lemma_score_succeeds(
            max_capture_depth,
            eval,
            board_after(board, m),
            (depth - 1) as i32,
            negated(beta),
            negated(alpha),
            table,
        );
        let child = score_outcome(
            max_capture_depth,
            eval,
            board_after(board, m),
            (depth - 1) as i32,
            negated(beta),
            negated(alpha),
            table,
        );
        let score = negated(child.result->Ok_0);
        let raised = if score > alpha {
            score
        } else {
            alpha
        };
        if raised <= beta {
            lemma_scan_succeeds(
                max_capture_depth,
                eval,
                board,
                moves,
                next + 1,
                depth,
                raised,
                beta,
                better(best, m, score),
                child.table,
            );
        }
    }
}

/// The score of a node and the table it leaves depend on the evaluator only
/// through what it returns for each position.
pub proof fn lemma_score_same<E1: Evaluator, E2: Evaluator>(
    max_capture_depth: i32,
    first: E1,
    second: E2,
    board: chess::Board,
    depth: i32,
    alpha: i32,
    beta: i32,
    table: Seq<Option<TranspositionEntry>>,
)
    requires
        agree(first, second),
    ensures
        score_outcome(max_capture_depth, first, board, depth, alpha, beta, table) == score_outcome(
            max_capture_depth,
            second,
            board,
            depth,
            alpha,
            beta,
            table,
        ),
    decreases depth + max_capture_depth, 2int, 0int,
{
    let entry = table[slot_index(board_hash(board), table.len())];
    lemma_expand_same(
        max_capture_depth,
        first,
        second,
        board,
        depth,
        narrowed_alpha(entry, depth, alpha),
        narrowed_beta(entry, depth, beta),
        table,
    );
}

/// The best move of a node and the table it leaves depend on the evaluator
/// only through what it returns for each position.
pub proof fn lemma_expand_same<E1: Evaluator, E2: Evaluator>(
    max_capture_depth: i32,
    first: E1,
    second: E2,
    board: chess::Board,
    depth: i32,
    alpha: i32,
    beta: i32,
    table: Seq<Option<TranspositionEntry>>,
)
    requires
        agree(first, second),
    ensures
        expand_outcome(max_capture_depth, first, board, depth, alpha, beta, table)
            == expand_outcome(max_capture_depth, second, board, depth, alpha, beta, table),
    decreases depth + max_capture_depth, 1int, 0int,
{
    if depth > -max_capture_depth {
        lemma_scan_same(
            max_capture_depth,
            first,
            second,
            board,
            candidates(board, depth),
            0,
            depth,
            alpha,
            beta,
            None,
            table,
        );
    }
}

/// What a scan gives depends on the evaluator only through what it returns
/// for each position.
pub proof fn lemma_scan_same<E1: Evaluator, E2: Evaluator>(
    max_capture_depth: i32,
    first: E1,
    second: E2,
    board: chess::Board,
    moves: Seq<chess::ChessMove>,
    next: int,
    depth: i32,
    alpha: i32,
    beta: i32,
    best: Option<ScoredMove>,
    table: Seq<Option<TranspositionEntry>>,
)
    requires
        agree(first, second),
    ensures
        scan_outcome(
            max_capture_depth,
            first,
            board,
            moves,
            next,
            depth,
            alpha,
            beta,
            best,
            table,
        ) == scan_outcome(
            max_capture_depth,
            second,
            board,
            moves,
            next,
            depth,
            alpha,
            beta,
            best,
            table,
        ),
    decreases depth + max_capture_depth, 0int, moves.len() - next,
{
    if depth > -max_capture_depth && 0 <= next < moves.len() {
        let m = moves[next];
        lemma_score_same(
            max_capture_depth,
            first,
            second,
            board_after(board, m),
            (depth - 1) as i32,
            negated(beta),
            negated(alpha),
            table,
        );
        let child = score_outcome(
            max_capture_depth,
            first,
            board_after(board, m),
            (depth - 1) as i32,
            negated(beta),
            negated(alpha),
            table,
        );
        if let Ok(child_score) = child.result {
            let score = negated(child_score);
            let raised = if score > alpha {
                score
            } else {
                alpha
            };
            if raised <= beta {
                lemma_scan_same(
                    max_capture_depth,
                    first,
                    second,
                    board,
                    moves,
                    next + 1,
                    depth,
                    raised,
                    beta,
                    better(best, m, score),
                    child.table,
                );
            }
        }
    }
}

/// Two searchers with the same limits, the same table and evaluators that
/// return the same for every position choose the same move with the same
/// score for a position, and leave the same table.
pub proof fn lemma_search_deterministic<E1: Evaluator, E2: Evaluator>(
    first: AlphaBeta<E1>,
    second: AlphaBeta<E2>,
    board: chess::Board,
)
    requires
        first.depth_limit() == second.depth_limit(),
        first.capture_limit() == second.capture_limit(),
        first.table() == second.table(),
        agree(first.evaluator(), second.evaluator()),
    ensures
        first.choice(board) == second.choice(board),
        expand_outcome(
            first.capture_limit(),
            first.evaluator(),
            board,
            first.depth_limit(),
            SCORE_MIN,
            SCORE_MAX,
            first.table(),
        ) == expand_outcome(
            second.capture_limit(),
            second.evaluator(),
            board,
            second.depth_limit(),
            SCORE_MIN,
            SCORE_MAX,
            second.table(),
        ),
{
    lemma_expand_same(
        first.capture_limit(),
        first.evaluator(),
        second.evaluator(),
        board,
        first.depth_limit(),
        SCORE_MIN,
        SCORE_MAX,
        first.table(),
    );
}

} // verus!
