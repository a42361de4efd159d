//! Negamax search with alpha-beta pruning, a transposition table and a
//! capture-only extension beyond the nominal depth.

use super::alphabeta_laws::{
    lemma_expand_none_iff_no_candidate, lemma_expand_succeeds, lemma_root_choice_is_first_highest,
};
use super::{better, is_first_highest_from, negated, MoveSearch, ScoredMove};
use crate::evaluator::{
    in_score_range, never_fails, EvalError, Evaluator, SCORE_MAX, SCORE_MIN,
};
use crate::rules::{
    board_after, board_hash, generate_moves_onto, has_square, hash_of, is_generated,
    is_searchable, legal_moves_onto, move_dest, mover, occupied_by, play, searchable,
    side_to_move, square_index, squares_of_side,
};
use crate::table::{
    is_power_of_two, lemma_slot_index_in_range, slot_index, Bound, TranspositionEntry,
    TranspositionTable,
};
use vstd::prelude::*;

verus! {

/// The number of slots of the table that [`AlphaBeta::new`] makes.
pub const DEFAULT_TABLE_CAPACITY: usize = 1048576;

/// The squares that hold a piece of the side that is not to move: where a move
/// captures.
pub open spec fn capture_targets(board: chess::Board) -> u64 {
    squares_of_side(board, side_to_move(board).opponent())
}

/// The legal moves onto a square that holds an opposing piece, in generator
/// order.
pub open spec fn capture_moves(board: chess::Board) -> Seq<chess::ChessMove> {
    legal_moves_onto(board, capture_targets(board))
}

/// The legal moves onto a square that holds no opposing piece, in generator
/// order.
pub open spec fn quiet_moves(board: chess::Board) -> Seq<chess::ChessMove> {
    legal_moves_onto(board, !capture_targets(board))
}

/// The legal moves of a position in the order in which the search examines
/// them: those onto an opposing piece first.
pub open spec fn ordered_moves(board: chess::Board) -> Seq<chess::ChessMove> {
    capture_moves(board) + quiet_moves(board)
}

/// The moves that a node with `depth` plies left examines, in order: above the
/// nominal horizon every legal move, captures first; at or below it captures
/// only.
pub open spec fn candidates(board: chess::Board, depth: i32) -> Seq<chess::ChessMove> {
    if depth <= 0 {
        capture_moves(board)
    } else {
        ordered_moves(board)
    }
}

/// The lower end of the window once the entry has been taken into account. An
/// entry is usable if it was computed with at least `depth` plies; a usable
/// lower bound raises the lower end.
pub open spec fn narrowed_alpha(entry: Option<TranspositionEntry>, depth: i32, alpha: i32) -> i32 {
    match entry {
        Some(e) => if e.depth >= depth && e.bound == Bound::LowerBound && e.score > alpha {
            e.score
        } else {
            alpha
        },
        None => alpha,
    }
}

/// The upper end of the window once the entry has been taken into account: a
/// usable upper bound lowers it.
pub open spec fn narrowed_beta(entry: Option<TranspositionEntry>, depth: i32, beta: i32) -> i32 {
    match entry {
        Some(e) => if e.depth >= depth && e.bound == Bound::UpperBound && e.score < beta {
            e.score
        } else {
            beta
        },
        None => beta,
    }
}

/// The score that a node takes from the table without searching, if any: that
/// of a usable exact entry, or that of a usable entry which closes the window.
pub open spec fn cached_score(
    entry: Option<TranspositionEntry>,
    depth: i32,
    alpha: i32,
    beta: i32,
) -> Option<i32> {
    match entry {
        Some(e) => if e.depth >= depth && (e.bound == Bound::Exact || narrowed_alpha(
            entry,
            depth,
            alpha,
        ) >= narrowed_beta(entry, depth, beta)) {
            Some(e.score)
        } else {
            None
        },
        None => None,
    }
}

/// How a score found with the window from `alpha` to `beta` bounds the value:
/// from above if no move improved on `alpha`, from below if it reached `beta`,
/// exactly otherwise.
pub open spec fn bound_of(score: i32, alpha: i32, beta: i32) -> Bound {
    if score <= alpha {
        Bound::UpperBound
    } else if score >= beta {
        Bound::LowerBound
    } else {
        Bound::Exact
    }
}

/// Every score in the table lies in the symmetric range.
pub open spec fn scores_in_range(table: Seq<Option<TranspositionEntry>>) -> bool {
    forall|i: int|
        0 <= i < table.len() ==> (#[trigger] table[i] matches Some(e) ==> in_score_range(e.score))
}

/// What scoring a node gives: the score or the evaluator's error, and the
/// table as the visit leaves it.
pub struct Scored {
    pub result: Result<i32, EvalError>,
    pub table: Seq<Option<TranspositionEntry>>,
}

/// What expanding a node gives: the best move, if any was examined, or the
/// evaluator's error, and the table as the visit leaves it.
pub struct Expanded {
    pub result: Result<Option<ScoredMove>, EvalError>,
    pub table: Seq<Option<TranspositionEntry>>,
}

/// The score of a node.
///
/// A table entry for the position's hash that was computed with at least
/// `depth` plies answers at once if it is exact or closes the window, and
/// narrows the window otherwise. Else the node is expanded; the score is that
/// of its best move, or the evaluator's where there is none. The score is
/// stored under the position's hash with `depth` and with the bound that the
/// narrowed window gives it.
pub open spec fn score_outcome<E: Evaluator>(
    max_capture_depth: i32,
    eval: E,
    board: chess::Board,
    depth: i32,
    alpha: i32,
    beta: i32,
    table: Seq<Option<TranspositionEntry>>,
) -> Scored
    decreases depth + max_capture_depth, 2int, 0int,
{
    let hash = board_hash(board);
    let entry = table[slot_index(hash, table.len())];
    match cached_score(entry, depth, alpha, beta) {
        Some(score) => Scored { result: Ok(score), table },
        None => {
            let a = narrowed_alpha(entry, depth, alpha);
            let b = narrowed_beta(entry, depth, beta);
            let expanded = expand_outcome(max_capture_depth, eval, board, depth, a, b, table);
            let leaf = match expanded.result {
                Err(e) => Err(e),
                Ok(Some(best)) => Ok(best.score),
                Ok(None) => eval.evaluation(board),
            };
            match leaf {
                Err(e) => Scored { result: Err(e), table: expanded.table },
                Ok(score) => Scored {
                    result: Ok(score),
                    table: expanded.table.update(
                        slot_index(hash, expanded.table.len()),
                        Some(TranspositionEntry { depth, score, bound: bound_of(score, a, b) }),
                    ),
                },
            }
        },
    }
}

/// The best move of a node: none once `depth` has fallen to the end of the
/// capture extension, and none for a position that cannot be searched, for
/// which no moves are generated; else what examining the candidates in order
/// gives.
pub open spec fn expand_outcome<E: Evaluator>(
    max_capture_depth: i32,
    eval: E,
    board: chess::Board,
    depth: i32,
    alpha: i32,
    beta: i32,
    table: Seq<Option<TranspositionEntry>>,
) -> Expanded
    decreases depth + max_capture_depth, 1int, 0int,
{
    if depth <= -max_capture_depth || !searchable(board) {
        Expanded { result: Ok(None), table }
    } else {
        scan_outcome(
            max_capture_depth,
            eval,
            board,
            candidates(board, depth),
            0,
            depth,
            alpha,
            beta,
            None,
            table,
        )
    }
}

/// What examining the moves from index `next` on gives, with `best` the best
/// move so far and `alpha` raised by the moves before.
///
/// Each move is played and the position it leads to is scored with one ply
/// less and the negated, swapped window; the negated score is the move's. The
/// scan stops at the first move that raises `alpha` above `beta`, and at an
/// evaluator's error.
pub open spec fn scan_outcome<E: Evaluator>(
    max_capture_depth: i32,
    eval: E,
    board: chess::Board,
    moves: Seq<chess::ChessMove>,
    next: int,
    depth: i32,
    alpha: i32,
    beta: i32,
    best: Option<ScoredMove>,
    table: Seq<Option<TranspositionEntry>>,
) -> Expanded
    decreases depth + max_capture_depth, 0int, moves.len() - next,
{
    if depth <= -max_capture_depth || next < 0 || next >= moves.len() {
        Expanded { result: Ok(best), table }
    } else {
        let m = moves[next];
        let child = score_outcome(
            max_capture_depth,
            eval,
            board_after(board, m),
            (depth - 1) as i32,
            negated(beta),
            negated(alpha),
            table,
        );
        match child.result {
            Err(e) => Expanded { result: Err(e), table: child.table },
            Ok(child_score) => {
                let score = negated(child_score);
                let found = better(best, m, score);
                let raised = if score > alpha {
                    score
                } else {
                    alpha
                };
                if raised > beta {
                    Expanded { result: Ok(found), table: child.table }
                } else {
                    scan_outcome(
                        max_capture_depth,
                        eval,
                        board,
                        moves,
                        next + 1,
                        depth,
                        raised,
                        beta,
                        found,
                        child.table,
                    )
                }
            },
        }
    }
}

/// The scores of the moves that a scan examines from index `next` on, in
/// order: the negated scores of the positions they lead to. The scan examines
/// no move after one that raises `alpha` above `beta`, nor after an
/// evaluator's error.
pub open spec fn examined_scores<E: Evaluator>(
    max_capture_depth: i32,
    eval: E,
    board: chess::Board,
    moves: Seq<chess::ChessMove>,
    next: int,
    depth: i32,
    alpha: i32,
    beta: i32,
    table: Seq<Option<TranspositionEntry>>,
) -> Seq<i32>
    decreases moves.len() - next,
{
    if depth <= -max_capture_depth || next < 0 || next >= moves.len() {
        Seq::empty()
    } else {
        let child = score_outcome(
            max_capture_depth,
            eval,
            board_after(board, moves[next]),
            (depth - 1) as i32,
            negated(beta),
            negated(alpha),
            table,
        );
        match child.result {
            Err(_) => Seq::empty(),
            Ok(child_score) => {
                let score = negated(child_score);
                let raised = if score > alpha {
                    score
                } else {
                    alpha
                };
                if raised > beta {
                    seq![score]
                } else {
                    seq![score] + examined_scores(
                        max_capture_depth,
                        eval,
                        board,
                        moves,
                        next + 1,
                        depth,
                        raised,
                        beta,
                        child.table,
                    )
                }
            },
        }
    }
}

/// The scores that the search gives the candidates of the root, in order.
pub open spec fn root_scores<E: Evaluator>(
    max_capture_depth: i32,
    eval: E,
    board: chess::Board,
    depth: i32,
    table: Seq<Option<TranspositionEntry>>,
) -> Seq<i32> {
    examined_scores(
        max_capture_depth,
        eval,
        board,
        candidates(board, depth),
        0,
        depth,
        SCORE_MIN,
        SCORE_MAX,
        table,
    )
}

/// Whether `found` is the first of the root's candidates with the highest
/// score, every candidate having been scored.
pub open spec fn is_best_at_root<E: Evaluator>(
    max_capture_depth: i32,
    eval: E,
    board: chess::Board,
    depth: i32,
    table: Seq<Option<TranspositionEntry>>,
    found: ScoredMove,
) -> bool {
    let scores = root_scores(max_capture_depth, eval, board, depth, table);
    &&& scores.len() == candidates(board, depth).len()
    &&& exists|k: int|
        {
            &&& #[trigger] is_first_highest_from(scores, 0, k)
            &&& found.chessmove == candidates(board, depth)[k]
            &&& found.score == scores[k]
        }
}

/// The moves that a node with `depth` plies left examines, in order.
///
/// At or below the nominal horizon every one of them lands on a square that
/// holds a piece of the side that is not to move.
pub fn candidate_moves(board: &chess::Board, depth: i32) -> (moves: Vec<chess::ChessMove>)
    requires
        searchable(*board),
    ensures
        moves@ == candidates(*board, depth),
        forall|i: int| 0 <= i < moves@.len() ==> is_generated(*board, #[trigger] moves@[i]),
        depth <= 0 ==> forall|i: int|
            0 <= i < moves@.len() ==> has_square(
                capture_targets(*board),
                square_index(move_dest(#[trigger] moves@[i])),
            ),
{
    let targets = occupied_by(board, mover(board).other());
    let mut moves = generate_moves_onto(board, targets);
    assert forall|i: int| 0 <= i < moves@.len() implies is_generated(
        *board,
        #[trigger] moves@[i],
    ) by {
        assert(legal_moves_onto(*board, targets).contains(moves@[i]));
    }
    if depth > 0 {
        let ghost captures = moves@;
        let mut quiets = generate_moves_onto(board, !targets);
        moves.append(&mut quiets);
        assert forall|i: int| 0 <= i < moves@.len() implies is_generated(
            *board,
            #[trigger] moves@[i],
        ) by {
            if i >= captures.len() {
                assert(legal_moves_onto(*board, !targets).contains(moves@[i]));
            }
        }
    }
    moves
}

/// The alpha-beta searcher.
pub struct AlphaBeta<E: Evaluator> {
    max_depth: i32,
    // The plies beyond `max_depth` in which captures are still examined.
    max_capture_depth: i32,
    eval: E,
    cache: TranspositionTable,
}

impl<E: Evaluator> AlphaBeta<E> {
    /// The searcher's invariant: both depths are non-negative, and the table
    /// is well formed and holds scores of the symmetric range only.
    pub closed spec fn wf(&self) -> bool {
        &&& 0 <= self.max_depth
        &&& 0 <= self.max_capture_depth
        &&& self.cache.wf()
        &&& scores_in_range(self.cache@)
    }

    /// The limits of a well-formed searcher are not negative.
    pub proof fn lemma_limits_are_not_negative(&self)
        requires
            self.wf(),
        ensures
            0 <= self.depth_limit(),
            0 <= self.capture_limit(),
    {
    }

    /// The nominal horizon, in plies.
    pub closed spec fn depth_limit(&self) -> i32 {
        self.max_depth
    }

    /// The plies beyond the nominal horizon in which captures are examined.
    pub closed spec fn capture_limit(&self) -> i32 {
        self.max_capture_depth
    }

    /// The evaluator that scores the leaves.
    pub closed spec fn evaluator(&self) -> E {
        self.eval
    }

    /// The slots of the transposition table.
    pub closed spec fn table(&self) -> Seq<Option<TranspositionEntry>> {
        self.cache@
    }

    /// A searcher with an empty table of [`DEFAULT_TABLE_CAPACITY`] slots.
    pub fn new(max_depth: i32, max_capture_depth: i32, eval: E) -> (r: AlphaBeta<E>)
        requires
            0 <= max_depth,
            0 <= max_capture_depth,
        ensures
            r.wf(),
            r.depth_limit() == max_depth,
            r.capture_limit() == max_capture_depth,
            r.evaluator() == eval,
            r.table() == Seq::new(
                DEFAULT_TABLE_CAPACITY as nat,
                |i: int| None::<TranspositionEntry>,
            ),
    {
        assert(1048576u64 & 1048575u64 == 0) by (bit_vector);
        AlphaBeta {
            max_depth,
            max_capture_depth,
            eval,
            cache: TranspositionTable::new(DEFAULT_TABLE_CAPACITY),
        }
    }

    /// A searcher with an empty table of `capacity` slots.
    pub fn with_capacity(max_depth: i32, max_capture_depth: i32, eval: E, capacity: usize) -> (r:
        AlphaBeta<E>)
        requires
            0 <= max_depth,
            0 <= max_capture_depth,
            is_power_of_two(capacity),
        ensures
            r.wf(),
            r.depth_limit() == max_depth,
            r.capture_limit() == max_capture_depth,
            r.evaluator() == eval,
            r.table() == Seq::new(capacity as nat, |i: int| None::<TranspositionEntry>),
    {
        AlphaBeta { max_depth, max_capture_depth, eval, cache: TranspositionTable::new(capacity) }
    }

    /// The transposition table as the searches so far have left it.
    pub fn cache(&self) -> (table: &TranspositionTable)
        requires
            self.wf(),
        ensures
            table.wf(),
            table@ == self.table(),
    {
        &self.cache
    }

    /// The score of a position with `depth` plies left and the window from
    /// `alpha` to `beta`, from the point of view of the side to move.
    ///
    /// The table answers where it can; else the position is expanded, or
    /// evaluated where it has no best move, and the score is stored.
    pub fn score(&mut self, board: &chess::Board, depth: i32, alpha: i32, beta: i32) -> (r: Result<
        i32,
        EvalError,
    >)
        requires
            old(self).wf(),
            in_score_range(alpha),
            in_score_range(beta),
        ensures
            final(self).wf(),
            final(self).depth_limit() == old(self).depth_limit(),
            final(self).capture_limit() == old(self).capture_limit(),
            final(self).evaluator() == old(self).evaluator(),
            r == score_outcome(
                old(self).capture_limit(),
                old(self).evaluator(),
                *board,
                depth,
                alpha,
                beta,
                old(self).table(),
            ).result,
            final(self).table() == score_outcome(
                old(self).capture_limit(),
                old(self).evaluator(),
                *board,
                depth,
                alpha,
                beta,
                old(self).table(),
            ).table,
            r matches Ok(score) ==> in_score_range(score),
        decreases depth + old(self).capture_limit(), 2int,
    {
        let mut alpha = alpha;
        let mut beta = beta;
        let hash = hash_of(board);
        proof {
            self.cache.lemma_capacity();
            lemma_slot_index_in_range(hash, self.cache@.len());
        }
        let entry = self.cache.get(hash);
        if let Some(entry) = entry {
            if entry.depth >= depth {
                match entry.bound {
                    Bound::Exact => {
                        return Ok(entry.score);
                    },
                    Bound::LowerBound => {
                        if entry.score > alpha {
                            alpha = entry.score;
                        }
                    },
                    Bound::UpperBound => {
                        if entry.score < beta {
                            beta = entry.score;
                        }
                    },
                }
                if alpha >= beta {
                    return Ok(entry.score);
                }
            }
        }
        let scored_move = self.expand(board, depth, alpha, beta)?;
        let score = match scored_move {
            Some(scored_move) => scored_move.score,
            // The evaluator scores the position where the capture extension is
            // used up, where no candidate is left, and at the end of the game.
            None => self.eval.evaluate(board)?,
        };
        let bound = if score <= alpha {
            Bound::UpperBound
        } else if score >= beta {
            Bound::LowerBound
        } else {
            Bound::Exact
        };
        proof {
            self.cache.lemma_capacity();
            lemma_slot_index_in_range(hash, self.cache@.len());
        }
        self.cache.put(hash, TranspositionEntry { depth, score, bound });
        Ok(score)
    }

    /// The best move of a position with `depth` plies left and the window
    /// from `alpha_orig` to `beta`: `None` where the capture extension is used
    /// up, the position cannot be searched or it has no candidate.
    ///
    /// The candidates are examined in order until one raises the lower end of
    /// the window above `beta`; of equally good moves the first is kept.
    pub fn expand(&mut self, board: &chess::Board, depth: i32, alpha_orig: i32, beta: i32) -> (r:
        Result<Option<ScoredMove>, EvalError>)
        requires
            old(self).wf(),
            in_score_range(alpha_orig),
            in_score_range(beta),
        ensures
            final(self).wf(),
            final(self).depth_limit() == old(self).depth_limit(),
            final(self).capture_limit() == old(self).capture_limit(),
            final(self).evaluator() == old(self).evaluator(),
            r == expand_outcome(
                old(self).capture_limit(),
                old(self).evaluator(),
                *board,
                depth,
                alpha_orig,
                beta,
                old(self).table(),
            ).result,
            final(self).table() == expand_outcome(
                old(self).capture_limit(),
                old(self).evaluator(),
                *board,
                depth,
                alpha_orig,
                beta,
                old(self).table(),
            ).table,
            r matches Ok(Some(best)) ==> in_score_range(best.score),
        decreases depth + old(self).capture_limit(), 1int,
    {
        if depth <= -self.max_capture_depth {
            // The nominal depth and the capture extension are used up.
            return Ok(None);
        }
        if !is_searchable(board) {
            // A move may lead to a position that is not sane. No moves are
            // generated for it: it is scored as it stands.
            return Ok(None);
        }
        let moves = candidate_moves(board, depth);
        let ghost goal = expand_outcome(
            old(self).capture_limit(),
            old(self).evaluator(),
            *board,
            depth,
            alpha_orig,
            beta,
            old(self).table(),
        );
        let mut alpha = alpha_orig;
        let mut best_move: Option<ScoredMove> = None;
        let mut i: usize = 0;
        while i < moves.len()
            invariant_except_break
                scan_outcome(
                    self.max_capture_depth,
                    self.eval,
                    *board,
                    moves@,
                    i as int,
                    depth,
                    alpha,
                    beta,
                    best_move,
                    self.cache@,
                ) == goal,
            invariant
                self.wf(),
                searchable(*board),
                self.max_depth == old(self).max_depth,
                self.max_capture_depth == old(self).max_capture_depth,
                self.eval == old(self).eval,
                depth > -self.max_capture_depth,
                i <= moves.len(),
                forall|j: int| 0 <= j < moves@.len() ==> is_generated(*board, #[trigger] moves@[j]),
                in_score_range(alpha),
                in_score_range(beta),
                best_move matches Some(best) ==> in_score_range(best.score),
                goal == expand_outcome(
                    old(self).capture_limit(),
                    old(self).evaluator(),
                    *board,
                    depth,
                    alpha_orig,
                    beta,
                    old(self).table(),
                ),
            ensures
                self.wf(),
                self.max_depth == old(self).max_depth,
                self.max_capture_depth == old(self).max_capture_depth,
                self.eval == old(self).eval,
                best_move matches Some(best) ==> in_score_range(best.score),
                goal == (Expanded { result: Ok(best_move), table: self.cache@ }),
            decreases moves.len() - i,
        {
            let m = moves[i];
            let child = play(board, m);
            // The score is negated: the position it comes from has the other
            // side to move.
            let score = -self.score(&child, depth - 1, -beta, -alpha)?;
            match &best_move {
                Some(best_move_val) => {
                    if score > best_move_val.score {
                        best_move = Some(ScoredMove { chessmove: m, score });
                    }
                },
                None => {
                    best_move = Some(ScoredMove { chessmove: m, score });
                },
            }
            if score > alpha {
                alpha = score;
            }
            if alpha > beta {
                break ;
            }
            i += 1;
        }
        Ok(best_move)
    }
}

impl<E: Evaluator> MoveSearch for AlphaBeta<E> {
    open spec fn ready(&self) -> bool {
        self.wf()
    }

    /// What expanding the position gives with the nominal depth and the widest
    /// window.
    open spec fn choice(&self, board: chess::Board) -> Result<Option<ScoredMove>, EvalError> {
        expand_outcome(
            self.capture_limit(),
            self.evaluator(),
            board,
            self.depth_limit(),
            SCORE_MIN,
            SCORE_MAX,
            self.table(),
        ).result
    }

    /// The move that maximises the negamax score at the nominal depth: the
    /// first of the root's candidates with the highest score, where the score
    /// of a candidate is the negated score of the position it leads to.
    ///
    /// The result is `None` exactly where both limits are zero, the position
    /// cannot be searched or the root has no candidate: for a position that
    /// can be searched and a nominal depth of at least one ply, exactly where
    /// the position has no legal move.
    /// With an evaluator that scores every position the search succeeds. The
    /// limits and the evaluator stay, and the table is left as the visit of
    /// the nodes fills it.
    fn search(&mut self, board: &chess::Board) -> (r: Result<Option<ScoredMove>, EvalError>)
        ensures
            final(self).depth_limit() == old(self).depth_limit(),
            final(self).capture_limit() == old(self).capture_limit(),
            final(self).evaluator() == old(self).evaluator(),
            final(self).table() == expand_outcome(
                old(self).capture_limit(),
                old(self).evaluator(),
                *board,
                old(self).depth_limit(),
                SCORE_MIN,
                SCORE_MAX,
                old(self).table(),
            ).table,
            r matches Ok(None) <==> old(self).depth_limit() <= -old(self).capture_limit()
                || !searchable(*board) || candidates(*board, old(self).depth_limit()).len() == 0,
            old(self).depth_limit() >= 1 && searchable(*board) ==> (r matches Ok(None)
                <==> ordered_moves(*board).len() == 0),
            never_fails(old(self).evaluator()) ==> r is Ok,
            r matches Ok(Some(best)) ==> in_score_range(best.score),
            r matches Ok(Some(best)) ==> is_best_at_root(
                old(self).capture_limit(),
                old(self).evaluator(),
                *board,
                old(self).depth_limit(),
                old(self).table(),
                best,
            ),
    {
        proof {
            lemma_root_choice_is_first_highest(
                self.max_capture_depth,
                self.eval,
                *board,
                self.max_depth,
                self.cache@,
            );
            lemma_expand_none_iff_no_candidate(
                self.max_capture_depth,
                self.eval,
                *board,
                self.max_depth,
                SCORE_MIN,
                SCORE_MAX,
                self.cache@,
            );
            if never_fails(self.eval) {
                lemma_expand_succeeds(
                    self.max_capture_depth,
                    self.eval,
                    *board,
                    self.max_depth,
                    SCORE_MIN,
                    SCORE_MAX,
                    self.cache@,
                );
            }
        }
        let depth = self.max_depth;
        self.expand(board, depth, SCORE_MIN, SCORE_MAX)
    }
}

} // verus!
