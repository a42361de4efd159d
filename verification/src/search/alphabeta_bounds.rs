//! How the score of the alpha-beta search stands to the full-width value of a
//! position where the table never answers: it bounds the value as the window
//! says, and at the root it is the value.
//!
//! The table answers where two nodes of the tree share a slot or a position
//! comes up twice, so these laws speak of the searches on which that does not
//! happen.
//!
//! The laws that compare with the full-width searcher ask that both searches
//! examine the same moves at every node of the tree, which
//! [`moves_agree_below`] tests: the two ask the rules crate for the moves in
//! different ways, and these differ on a capture in passing onto a piece.

use super::alphabeta::{
    candidate_moves, candidates, expand_outcome, scan_outcome, score_outcome, AlphaBeta,
};
use super::alphabeta_laws::lemma_expand_none_iff_no_candidate;
use super::simpleminmax::{minimax_best, minimax_score, move_scores, SimpleMinMax};
use super::simpleminmax_laws::{
    lemma_minimax_best_is_first_maximum, lemma_minimax_none_iff_no_move,
};
use super::{
    better, examined_moves, is_first_highest_from, moves_to_examine, negated, MoveSearch,
    ScoredMove,
};
use crate::evaluator::{in_score_range, Evaluator, SCORE_MAX, SCORE_MIN};
use crate::rules::{
    board_after, board_hash, is_generated, is_searchable, play, same_move, searchable,
};
use crate::table::{slot_index, TranspositionEntry};
use vstd::prelude::*;

verus! {

/// Whether an evaluator scores every position, with a score of the symmetric
/// range.
pub open spec fn scores_every_position<E: Evaluator>(eval: E) -> bool {
    forall|board: chess::Board|
        (#[trigger] eval.evaluation(board)) matches Ok(score) && in_score_range(score)
}

/// The full-width value of a position with `depth` plies left: the highest
/// negated value of the positions that its candidates lead to, and the
/// evaluator's score where the capture extension is used up, the position
/// cannot be searched or there is no candidate. No window, no table.
pub open spec fn full_value<E: Evaluator>(
    max_capture_depth: i32,
    eval: E,
    board: chess::Board,
    depth: i32,
) -> int
    decreases depth + max_capture_depth, 1int, 0int,
{
    if depth <= -max_capture_depth || !searchable(board) || candidates(board, depth).len() == 0 {
        eval.evaluation(board)->Ok_0 as int
    } else {
        highest_reply(
            max_capture_depth,
            eval,
            board,
            candidates(board, depth),
            candidates(board, depth).len() as int,
            depth,
        )
    }
}

/// The highest negated full-width value of the positions that the first
/// `count` moves lead to, with one ply less.
pub open spec fn highest_reply<E: Evaluator>(
    max_capture_depth: i32,
    eval: E,
    board: chess::Board,
    moves: Seq<chess::ChessMove>,
    count: int,
    depth: i32,
) -> int
    decreases depth + max_capture_depth, 0int, count,
{
    if depth <= -max_capture_depth || count <= 0 || count > moves.len() {
        0
    } else {
        let value = -full_value(
            max_capture_depth,
            eval,
            board_after(board, moves[count - 1]),
            (depth - 1) as i32,
        );
        if count == 1 {
            value
        } else {
            let rest = highest_reply(max_capture_depth, eval, board, moves, count - 1, depth);
            if value > rest {
                value
            } else {
                rest
            }
        }
    }
}

/// Whether the table does not answer while a node is scored: its slot holds
/// no entry that was computed with at least the node's depth, and the same
/// holds of every node that the expansion visits.
pub open spec fn score_misses<E: Evaluator>(
    max_capture_depth: i32,
    eval: E,
    board: chess::Board,
    depth: i32,
    alpha: i32,
    beta: i32,
    table: Seq<Option<TranspositionEntry>>,
) -> bool
    decreases depth + max_capture_depth, 2int, 0int,
{
    let entry = table[slot_index(board_hash(board), table.len())];
    &&& entry matches Some(e) ==> e.depth < depth
    &&& searchable(board) ==> scan_misses(
        max_capture_depth,
        eval,
        board,
        candidates(board, depth),
        0,
        depth,
        alpha,
        beta,
        table,
    )
}

/// Whether the table does not answer while the moves from index `next` on are
/// examined.
pub open spec fn scan_misses<E: Evaluator>(
    max_capture_depth: i32,
    eval: E,
    board: chess::Board,
    moves: Seq<chess::ChessMove>,
    next: int,
    depth: i32,
    alpha: i32,
    beta: i32,
    table: Seq<Option<TranspositionEntry>>,
) -> bool
    decreases depth + max_capture_depth, 0int, moves.len() - next,
{
    if depth <= -max_capture_depth || next < 0 || next >= moves.len() {
        true
    } else {
        let child = score_outcome(
            max_capture_depth,
            eval,
            board_after(board, moves[next]),
            (depth - 1) as i32,
            negated(beta),
            negated(alpha),
            table,
        );
        &&& score_misses(
            max_capture_depth,
            eval,
            board_after(board, moves[next]),
            (depth - 1) as i32,
            negated(beta),
            negated(alpha),
            table,
        )
        &&& match child.result {
            Err(_) => true,
            Ok(child_score) => {
                let score = negated(child_score);
                let raised = if score > alpha {
                    score
                } else {
                    alpha
                };
                raised > beta || scan_misses(
                    max_capture_depth,
                    eval,
                    board,
                    moves,
                    next + 1,
                    depth,
                    raised,
                    beta,
                    child.table,
                )
            },
        }
    }
}

/// How a score found with the window from `alpha` to `beta` stands to a
/// value: a score at or below the window bounds the value from above, one at
/// or above it bounds the value from below, and one inside it is the value.
pub open spec fn bounds(score: int, alpha: int, beta: int, value: int) -> bool {
    &&& score <= alpha ==> value <= score
    &&& score >= beta ==> value >= score
    &&& alpha < score < beta ==> value == score
}

/// The full-width value lies in the symmetric range.
pub proof fn lemma_full_value_in_range<E: Evaluator>(
    max_capture_depth: i32,
    eval: E,
    board: chess::Board,
    depth: i32,
)
    requires
        scores_every_position(eval),
    ensures
        SCORE_MIN <= full_value(max_capture_depth, eval, board, depth) <= SCORE_MAX,
    decreases depth + max_capture_depth, 1int, 0int,
{
    assert(eval.evaluation(board) is Ok);
    if depth > -max_capture_depth && searchable(board) && candidates(board, depth).len() > 0 {
        lemma_highest_reply_in_range(
            max_capture_depth,
            eval,
            board,
            candidates(board, depth),
            candidates(board, depth).len() as int,
            depth,
        );
    }
}

/// The highest reply lies in the symmetric range.
pub proof fn lemma_highest_reply_in_range<E: Evaluator>(
    max_capture_depth: i32,
    eval: E,
    board: chess::Board,
    moves: Seq<chess::ChessMove>,
    count: int,
    depth: i32,
)
    requires
        scores_every_position(eval),
        depth > -max_capture_depth,
        1 <= count <= moves.len(),
    ensures
        SCORE_MIN <= highest_reply(max_capture_depth, eval, board, moves, count, depth)
            <= SCORE_MAX,
    decreases depth + max_capture_depth, 0int, count,
{
    lemma_full_value_in_range(
        max_capture_depth,
        eval,
        board_after(board, moves[count - 1]),
        (depth - 1) as i32,
    );
    if count > 1 {
        lemma_highest_reply_in_range(max_capture_depth, eval, board, moves, count - 1, depth);
    }
}

/// The highest reply of the first `count` moves is at least the value of each
/// of them.
pub proof fn lemma_highest_reply_is_highest<E: Evaluator>(
    max_capture_depth: i32,
    eval: E,
    board: chess::Board,
    moves: Seq<chess::ChessMove>,
    index: int,
    count: int,
    depth: i32,
)
    requires
        depth > -max_capture_depth,
        0 <= index < count <= moves.len(),
    ensures
        highest_reply(max_capture_depth, eval, board, moves, count, depth) >= -full_value(
            max_capture_depth,
            eval,
            board_after(board, moves[index]),
            (depth - 1) as i32,
        ),
    decreases count,
{
    if index < count - 1 {
        lemma_highest_reply_is_highest(
            max_capture_depth,
            eval,
            board,
            moves,
            index,
            count - 1,
            depth,
        );
    }
}

/// Where the table never answers, the evaluator scores every position and
/// the window is not empty, the score of a node bounds its full-width value
/// as the window says: from above at or below the window, from below at or
/// above it, and exactly inside it.
pub proof fn lemma_score_bounds_full_value<E: Evaluator>(
    max_capture_depth: i32,
    eval: E,
    board: chess::Board,
    depth: i32,
    alpha: i32,
    beta: i32,
    table: Seq<Option<TranspositionEntry>>,
)
    requires
        scores_every_position(eval),
        in_score_range(alpha),
        in_score_range(beta),
        alpha <= beta,
        score_misses(max_capture_depth, eval, board, depth, alpha, beta, table),
    ensures
        score_outcome(max_capture_depth, eval, board, depth, alpha, beta, table).result matches Ok(
            score,
        ) && in_score_range(score) && bounds(
            score as int,
            alpha as int,
            beta as int,
            full_value(max_capture_depth, eval, board, depth),
        ),
    decreases depth + max_capture_depth, 2int, 0int,
{
    assert(eval.evaluation(board) is Ok);
    let moves = candidates(board, depth);
    if depth > -max_capture_depth && searchable(board) && moves.len() > 0 {
        lemma_scan_bounds_full_value(
            max_capture_depth,
            eval,
            board,
            moves,
            0,
            depth,
            alpha,
            alpha,
            beta,
            None,
            table,
        );
    }
}

/// The step of [`lemma_score_bounds_full_value`] over the moves of a node:
/// with the best score so far standing to the highest reply so far as the
/// window says, the best score in the end stands so to the highest reply of
/// all the moves.
pub proof fn lemma_scan_bounds_full_value<E: Evaluator>(
    max_capture_depth: i32,
    eval: E,
    board: chess::Board,
    moves: Seq<chess::ChessMove>,
    next: int,
    depth: i32,
    alpha_orig: i32,
    alpha: i32,
    beta: i32,
    best: Option<ScoredMove>,
    table: Seq<Option<TranspositionEntry>>,
)
    requires
        scores_every_position(eval),
        depth > -max_capture_depth,
        0 <= next <= moves.len(),
        moves.len() > 0,
        in_score_range(alpha_orig),
        in_score_range(beta),
        alpha_orig <= alpha <= beta,
        scan_misses(max_capture_depth, eval, board, moves, next, depth, alpha, beta, table),
        best is None <==> next == 0,
        best is None ==> alpha == alpha_orig,
        best matches Some(b) ==> {
            &&& in_score_range(b.score)
            &&& alpha == if b.score > alpha_orig {
                b.score
            } else {
                alpha_orig
            }
            &&& bounds(
                b.score as int,
                alpha_orig as int,
                beta as int,
                highest_reply(max_capture_depth, eval, board, moves, next, depth),
            )
        },
    ensures
        scan_outcome(
            max_capture_depth,
            eval,
            board,
            moves,
            next,
            depth,
            alpha,
            beta,
            best,
            table,
        ).result matches Ok(Some(found)) && in_score_range(found.score) && bounds(
            found.score as int,
            alpha_orig as int,
            beta as int,
            highest_reply(max_capture_depth, eval, board, moves, moves.len() as int, depth),
        ),
    decreases depth + max_capture_depth, 0int, moves.len() - next,
{
    if next < moves.len() {
        let m = moves[next];
        let child_board = board_after(board, m);
        lemma_score_bounds_full_value(
            max_capture_depth,
            eval,
            child_board,
            (depth - 1) as i32,
            negated(beta),
            negated(alpha),
            table,
        );
        let child = score_outcome(
            max_capture_depth,
            eval,
            child_board,
            (depth - 1) as i32,
            negated(beta),
            negated(alpha),
            table,
        );
        let child_score = child.result->Ok_0;
        let score = negated(child_score);
        let value = -full_value(max_capture_depth, eval, child_board, (depth - 1) as i32);
        // The move's score stands to its value as the window says.
        assert(bounds(score as int, alpha as int, beta as int, value));
        let found = better(best, m, score);
        let raised = if score > alpha {
            score
        } else {
            alpha
        };
        let so_far = highest_reply(max_capture_depth, eval, board, moves, next + 1, depth);
        assert(so_far == if next == 0 {
            value
        } else {
            let before = highest_reply(max_capture_depth, eval, board, moves, next, depth);
            if value > before {
                value
            } else {
                before
            }
        });
        if raised > beta {
            // The scan ends here with this move, whose value is among all.
            lemma_highest_reply_is_highest(
                max_capture_depth,
                eval,
                board,
                moves,
                next,
                moves.len() as int,
                depth,
            );
        } else {
            assert(bounds(found->Some_0.score as int, alpha_orig as int, beta as int, so_far));
            lemma_scan_bounds_full_value(
                max_capture_depth,
                eval,
                board,
                moves,
                next + 1,
                depth,
                alpha_orig,
                raised,
                beta,
                found,
                child.table,
            );
        }
    }
}

/// Whether the table does not answer while the root is expanded with the
/// widest window. The root itself is not looked up.
pub open spec fn root_misses<E: Evaluator>(
    max_capture_depth: i32,
    eval: E,
    board: chess::Board,
    depth: i32,
    table: Seq<Option<TranspositionEntry>>,
) -> bool {
    scan_misses(
        max_capture_depth,
        eval,
        board,
        candidates(board, depth),
        0,
        depth,
        SCORE_MIN,
        SCORE_MAX,
        table,
    )
}

/// Where the table never answers and the evaluator scores every position,
/// the score of the move that a search from the root returns is the
/// full-width value of the root.
pub proof fn lemma_root_score_is_full_value<E: Evaluator>(
    max_capture_depth: i32,
    eval: E,
    board: chess::Board,
    depth: i32,
    table: Seq<Option<TranspositionEntry>>,
)
    requires
        scores_every_position(eval),
        depth > -max_capture_depth,
        searchable(board),
        candidates(board, depth).len() > 0,
        root_misses(max_capture_depth, eval, board, depth, table),
    ensures
        expand_outcome(
            max_capture_depth,
            eval,
            board,
            depth,
            SCORE_MIN,
            SCORE_MAX,
            table,
        ).result matches Ok(Some(found)) && found.score == full_value(
            max_capture_depth,
            eval,
            board,
            depth,
        ),
{
    lemma_scan_bounds_full_value(
        max_capture_depth,
        eval,
        board,
        candidates(board, depth),
        0,
        depth,
        SCORE_MIN,
        SCORE_MIN,
        SCORE_MAX,
        None,
        table,
    );
    lemma_full_value_in_range(max_capture_depth, eval, board, depth);
}

/// The highest reply is the value of one of the moves.
pub proof fn lemma_highest_reply_is_attained<E: Evaluator>(
    max_capture_depth: i32,
    eval: E,
    board: chess::Board,
    moves: Seq<chess::ChessMove>,
    count: int,
    depth: i32,
) -> (index: int)
    requires
        depth > -max_capture_depth,
        1 <= count <= moves.len(),
    ensures
        0 <= index < count,
        highest_reply(max_capture_depth, eval, board, moves, count, depth) == -full_value(
            max_capture_depth,
            eval,
            board_after(board, moves[index]),
            (depth - 1) as i32,
        ),
    decreases count,
{
    let value = -full_value(
        max_capture_depth,
        eval,
        board_after(board, moves[count - 1]),
        (depth - 1) as i32,
    );
    if count == 1 || value > highest_reply(
        max_capture_depth,
        eval,
        board,
        moves,
        count - 1,
        depth,
    ) {
        count - 1
    } else {
        lemma_highest_reply_is_attained(max_capture_depth, eval, board, moves, count - 1, depth)
    }
}

/// Whether the pruned and the full-width search examine the same moves, in
/// whatever order, at a node with `depth` plies left and at every node below
/// it that is expanded. The two ask the rules crate for the moves in different
/// ways, and no contract of this library says how these compare.
pub open spec fn same_moves_below(max_capture_depth: i32, board: chess::Board, depth: i32) -> bool
    decreases depth + max_capture_depth,
{
    depth <= -max_capture_depth || !searchable(board) || {
        &&& forall|m: chess::ChessMove|
            #![trigger candidates(board, depth).contains(m)]
            #![trigger examined_moves(board, depth).contains(m)]
            candidates(board, depth).contains(m) <==> examined_moves(board, depth).contains(m)
        &&& forall|i: int|
            0 <= i < candidates(board, depth).len() ==> same_moves_below(
                max_capture_depth,
                board_after(board, #[trigger] candidates(board, depth)[i]),
                (depth - 1) as i32,
            )
    }
}

/// Whether a move is among the moves.
fn is_among(moves: &Vec<chess::ChessMove>, m: chess::ChessMove) -> (r: bool)
    ensures
        r == moves@.contains(m),
{
    let mut i: usize = 0;
    while i < moves.len()
        invariant
            i <= moves.len(),
            forall|j: int| 0 <= j < i ==> moves@[j] != m,
        decreases moves.len() - i,
    {
        if same_move(moves[i], m) {
            return true;
        }
        i += 1;
    }
    false
}

/// Whether every one of the first moves is among the second.
fn are_among(first: &Vec<chess::ChessMove>, second: &Vec<chess::ChessMove>) -> (r: bool)
    ensures
        r == forall|i: int| 0 <= i < first@.len() ==> second@.contains(#[trigger] first@[i]),
{
    let mut i: usize = 0;
    while i < first.len()
        invariant
            i <= first.len(),
            forall|j: int| 0 <= j < i ==> second@.contains(#[trigger] first@[j]),
        decreases first.len() - i,
    {
        if !is_among(second, first[i]) {
            return false;
        }
        i += 1;
    }
    true
}

/// Whether the pruned and the full-width search examine the same moves at a
/// node and at every node below it that is expanded: the test of
/// [`same_moves_below`], made by generating the moves of every such node in
/// both ways.
pub fn moves_agree_below(board: &chess::Board, depth: i32, max_capture_depth: i32) -> (r: bool)
    requires
        0 <= max_capture_depth,
    ensures
        r == same_moves_below(max_capture_depth, *board, depth),
    decreases depth + max_capture_depth,
{
    if depth <= -max_capture_depth || !is_searchable(board) {
        return true;
    }
    let pruned = candidate_moves(board, depth);
    let full = moves_to_examine(board, depth);
    if !are_among(&pruned, &full) {
        proof {
            let i = choose|i: int| 0 <= i < pruned@.len() && !full@.contains(pruned@[i]);
            assert(pruned@.contains(pruned@[i]));
        }
        return false;
    }
    if !are_among(&full, &pruned) {
        proof {
            let i = choose|i: int| 0 <= i < full@.len() && !pruned@.contains(full@[i]);
            assert(full@.contains(full@[i]));
        }
        return false;
    }
    let mut i: usize = 0;
    while i < pruned.len()
        invariant
            i <= pruned.len(),
            0 <= max_capture_depth,
            depth > -max_capture_depth,
            searchable(*board),
            pruned@ == candidates(*board, depth),
            forall|j: int| 0 <= j < pruned@.len() ==> is_generated(*board, #[trigger] pruned@[j]),
            forall|j: int|
                0 <= j < i ==> same_moves_below(
                    max_capture_depth,
                    board_after(*board, #[trigger] pruned@[j]),
                    (depth - 1) as i32,
                ),
        decreases pruned.len() - i,
    {
        let child = play(board, pruned[i]);
        if !moves_agree_below(&child, depth - 1, max_capture_depth) {
            return false;
        }
        i += 1;
    }
    proof {
        assert forall|m: chess::ChessMove|
            candidates(*board, depth).contains(m) <==> examined_moves(*board, depth).contains(
                m,
            ) by {
            if pruned@.contains(m) {
                let i = choose|i: int| 0 <= i < pruned@.len() && pruned@[i] == m;
                assert(full@.contains(pruned@[i]));
            }
            if full@.contains(m) {
                let i = choose|i: int| 0 <= i < full@.len() && full@[i] == m;
                assert(pruned@.contains(full@[i]));
            }
        }
    }
    true
}

/// Where the two searches examine the same moves at every node below this
/// one and the evaluator scores every position, the score of the full-width
/// search is the full-width value.
pub proof fn lemma_minimax_score_is_full_value<E: Evaluator>(
    max_capture_depth: i32,
    eval: E,
    board: chess::Board,
    depth: i32,
)
    requires
        scores_every_position(eval),
        same_moves_below(max_capture_depth, board, depth),
    ensures
        minimax_score(max_capture_depth, eval, board, depth) matches Ok(score) && score
            == full_value(max_capture_depth, eval, board, depth),
    decreases depth + max_capture_depth,
{
    assert(eval.evaluation(board) is Ok);
    let pruned = candidates(board, depth);
    let full = examined_moves(board, depth);
    if depth > -max_capture_depth && searchable(board) {
        if full.len() == 0 {
            if pruned.len() > 0 {
                assert(pruned.contains(pruned[0]));
                assert(full.contains(pruned[0]));
            }
        } else {
            assert(full.contains(full[0]));
            assert(pruned.contains(full[0]));
            let scores = move_scores(max_capture_depth, eval, board, full, depth);
            // Every move of the full-width search has its full-width value as its score.
            assert forall|j: int| 0 <= j < full.len() implies (#[trigger] minimax_score(
                max_capture_depth,
                eval,
                board_after(board, full[j]),
                (depth - 1) as i32,
            )) is Ok && scores[j] == -full_value(
                max_capture_depth,
                eval,
                board_after(board, full[j]),
                (depth - 1) as i32,
            ) by {
                // The move is one of the pruned search's too.
                assert(full.contains(full[j]));
                let i = choose|i: int| 0 <= i < pruned.len() && pruned[i] == full[j];
                assert(same_moves_below(
                    max_capture_depth,
                    board_after(board, pruned[i]),
                    (depth - 1) as i32,
                ));
                lemma_minimax_score_is_full_value(
                    max_capture_depth,
                    eval,
                    board_after(board, full[j]),
                    (depth - 1) as i32,
                );
                lemma_full_value_in_range(
                    max_capture_depth,
                    eval,
                    board_after(board, full[j]),
                    (depth - 1) as i32,
                );
            }
            lemma_minimax_best_is_first_maximum(max_capture_depth, eval, board, depth);
            let found = minimax_best(max_capture_depth, eval, board, depth)->Ok_0->Some_0;
            let k = choose|k: int|
                {
                    &&& #[trigger] is_first_highest_from(scores, 0, k)
                    &&& found.chessmove == full[k]
                    &&& found.score == scores[k]
                };
            let highest = highest_reply(
                max_capture_depth,
                eval,
                board,
                pruned,
                pruned.len() as int,
                depth,
            );
            // The best move of the full-width search is among the pruned search's moves.
            assert(full.contains(full[k]));
            let i = choose|i: int| 0 <= i < pruned.len() && pruned[i] == full[k];
            lemma_highest_reply_is_highest(
                max_capture_depth,
                eval,
                board,
                pruned,
                i,
                pruned.len() as int,
                depth,
            );
            assert(highest >= found.score);
            // The move with the highest value is among the full-width search's moves.
            let top = lemma_highest_reply_is_attained(
                max_capture_depth,
                eval,
                board,
                pruned,
                pruned.len() as int,
                depth,
            );
            assert(pruned.contains(pruned[top]));
            let j = choose|j: int| 0 <= j < full.len() && full[j] == pruned[top];
            assert(scores[j] <= scores[k]);
            assert(highest <= found.score);
        }
    }
}

/// Where the table never answers, the two searches examine the same moves at
/// every node and the evaluator scores every position, the pruned search and
/// the full-width search return a move with the same score for a root with a
/// move to examine.
pub proof fn lemma_pruned_and_full_width_scores_agree<E: Evaluator>(
    max_capture_depth: i32,
    eval: E,
    board: chess::Board,
    depth: i32,
    table: Seq<Option<TranspositionEntry>>,
)
    requires
        scores_every_position(eval),
        same_moves_below(max_capture_depth, board, depth),
        depth > -max_capture_depth,
        searchable(board),
        candidates(board, depth).len() > 0,
        root_misses(max_capture_depth, eval, board, depth, table),
    ensures
        expand_outcome(
            max_capture_depth,
            eval,
            board,
            depth,
            SCORE_MIN,
            SCORE_MAX,
            table,
        ).result matches Ok(Some(pruned)) && minimax_best(
            max_capture_depth,
            eval,
            board,
            depth,
        ) matches Ok(Some(full)) && pruned.score == full.score,
{
    lemma_root_score_is_full_value(max_capture_depth, eval, board, depth, table);
    lemma_minimax_score_is_full_value(max_capture_depth, eval, board, depth);
    let moves = candidates(board, depth);
    assert(moves.contains(moves[0]));
    assert(examined_moves(board, depth).contains(moves[0]));
    lemma_minimax_none_iff_no_move(max_capture_depth, eval, board, depth);
}

/// Where the table never answers, the two searches examine the same moves at
/// every node, the evaluator scores every position and the window is not
/// empty, the score of the pruned search bounds the score of the full-width
/// search as the window says.
pub proof fn lemma_score_bounds_full_width_score<E: Evaluator>(
    max_capture_depth: i32,
    eval: E,
    board: chess::Board,
    depth: i32,
    alpha: i32,
    beta: i32,
    table: Seq<Option<TranspositionEntry>>,
)
    requires
        scores_every_position(eval),
        same_moves_below(max_capture_depth, board, depth),
        in_score_range(alpha),
        in_score_range(beta),
        alpha <= beta,
        score_misses(max_capture_depth, eval, board, depth, alpha, beta, table),
    ensures
        score_outcome(max_capture_depth, eval, board, depth, alpha, beta, table).result matches Ok(
            score,
        ) && minimax_score(max_capture_depth, eval, board, depth) matches Ok(full) && bounds(
            score as int,
            alpha as int,
            beta as int,
            full as int,
        ),
{
    lemma_score_bounds_full_value(max_capture_depth, eval, board, depth, alpha, beta, table);
    lemma_minimax_score_is_full_value(max_capture_depth, eval, board, depth);
}

/// The step of [`lemma_root_move_is_best`] over the moves of the root.
pub proof fn lemma_root_scan_keeps_a_best_move<E: Evaluator>(
    max_capture_depth: i32,
    eval: E,
    board: chess::Board,
    moves: Seq<chess::ChessMove>,
    next: int,
    depth: i32,
    alpha: i32,
    best: Option<ScoredMove>,
    table: Seq<Option<TranspositionEntry>>,
)
    requires
        scores_every_position(eval),
        depth > -max_capture_depth,
        0 <= next <= moves.len(),
        in_score_range(alpha),
        scan_misses(max_capture_depth, eval, board, moves, next, depth, alpha, SCORE_MAX, table),
        best is None ==> alpha == SCORE_MIN,
        best matches Some(b) ==> {
            &&& alpha == b.score
            &&& b.score == -full_value(
                max_capture_depth,
                eval,
                board_after(board, b.chessmove),
                (depth - 1) as i32,
            )
        },
    ensures
        scan_outcome(
            max_capture_depth,
            eval,
            board,
            moves,
            next,
            depth,
            alpha,
            SCORE_MAX,
            best,
            table,
        ).result matches Ok(found) && (found matches Some(f) ==> f.score == -full_value(
            max_capture_depth,
            eval,
            board_after(board, f.chessmove),
            (depth - 1) as i32,
        )),
    decreases moves.len() - next,
{
    if next < moves.len() {
        let m = moves[next];
        let child_board = board_after(board, m);
        lemma_score_bounds_full_value(
            max_capture_depth,
            eval,
            child_board,
            (depth - 1) as i32,
            negated(SCORE_MAX),
            negated(alpha),
            table,
        );
        lemma_full_value_in_range(max_capture_depth, eval, child_board, (depth - 1) as i32);
        let child = score_outcome(
            max_capture_depth,
            eval,
            child_board,
            (depth - 1) as i32,
            negated(SCORE_MAX),
            negated(alpha),
            table,
        );
        let score = negated(child.result->Ok_0);
        let raised = if score > alpha {
            score
        } else {
            alpha
        };
        lemma_root_scan_keeps_a_best_move(
            max_capture_depth,
            eval,
            board,
            moves,
            next + 1,
            depth,
            raised,
            better(best, m, score),
            child.table,
        );
    }
}

/// Where the table never answers and the evaluator scores every position,
/// the move that a search from the root returns is a best one: its score is
/// the negated full-width value of the position it leads to, and the
/// full-width value of the root.
pub proof fn lemma_root_move_is_best<E: Evaluator>(
    max_capture_depth: i32,
    eval: E,
    board: chess::Board,
    depth: i32,
    table: Seq<Option<TranspositionEntry>>,
)
    requires
        scores_every_position(eval),
        depth > -max_capture_depth,
        searchable(board),
        candidates(board, depth).len() > 0,
        root_misses(max_capture_depth, eval, board, depth, table),
    ensures
        expand_outcome(
            max_capture_depth,
            eval,
            board,
            depth,
            SCORE_MIN,
            SCORE_MAX,
            table,
        ).result matches Ok(Some(found)) && found.score == full_value(
            max_capture_depth,
            eval,
            board,
            depth,
        ) && found.score == -full_value(
            max_capture_depth,
            eval,
            board_after(board, found.chessmove),
            (depth - 1) as i32,
        ),
{
    lemma_root_score_is_full_value(max_capture_depth, eval, board, depth, table);
    lemma_root_scan_keeps_a_best_move(
        max_capture_depth,
        eval,
        board,
        candidates(board, depth),
        0,
        depth,
        SCORE_MIN,
        None,
        table,
    );
}

/// Where the table never answers, the two searches examine the same moves at
/// every node and the evaluator scores every position, a pruned searcher and a
/// full-width searcher with the same limits and the same evaluator both choose
/// no move, or both choose a move, with the same score.
pub proof fn lemma_searchers_agree<E: Evaluator>(
    pruned: AlphaBeta<E>,
    full: SimpleMinMax<E>,
    board: chess::Board,
)
    requires
        pruned.depth_limit() == full.max_depth,
        pruned.capture_limit() == full.max_capture_depth,
        pruned.evaluator() == full.eval,
        scores_every_position(full.eval),
        same_moves_below(pruned.capture_limit(), board, pruned.depth_limit()),
        root_misses(
            pruned.capture_limit(),
            pruned.evaluator(),
            board,
            pruned.depth_limit(),
            pruned.table(),
        ),
    ensures
        match pruned.choice(board) {
            Ok(None) => full.choice(board) matches Ok(None),
            Ok(Some(found)) => full.choice(board) matches Ok(Some(other)) && found.score
                == other.score,
            Err(_) => false,
        },
{
    let depth = pruned.depth_limit();
    let limit = pruned.capture_limit();
    let moves = candidates(board, depth);
    lemma_expand_none_iff_no_candidate(
        limit,
        pruned.evaluator(),
        board,
        depth,
        SCORE_MIN,
        SCORE_MAX,
        pruned.table(),
    );
    lemma_minimax_none_iff_no_move(limit, full.eval, board, depth);
    if depth > -limit && searchable(board) {
        if moves.len() > 0 {
            lemma_pruned_and_full_width_scores_agree(
                limit,
                full.eval,
                board,
                depth,
                pruned.table(),
            );
        } else if examined_moves(board, depth).len() > 0 {
            assert(examined_moves(board, depth).contains(examined_moves(board, depth)[0]));
            assert(moves.contains(examined_moves(board, depth)[0]));
        }
    }
}

} // verus!
