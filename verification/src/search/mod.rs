//! Move search: choosing a move for the side to play.

use crate::evaluator::EvalError;
use crate::rules::{
    dest_of, generate_moves, is_generated, is_searchable, legal_moves, move_dest, piece_at,
    piece_on, searchable,
};
use vstd::prelude::*;

pub mod alphabeta;
pub mod alphabeta_bounds;
pub mod alphabeta_laws;
pub mod greedy;
pub mod greedy_laws;
pub mod simpleminmax;
pub mod simpleminmax_laws;

verus! {

/// A move with its score. The score is relative to the side that is to move in
/// the position from which the move was generated: positive is better for that
/// side.
#[derive(Clone, Copy, Debug)]
pub struct ScoredMove {
    /// The move.
    pub chessmove: chess::ChessMove,
    /// Its score.
    pub score: i32,
}

/// A way of choosing a move.
///
/// `choice` says what `search` returns in a given state of the searcher, so a
/// search is a function of that state and of the position.
pub trait MoveSearch {
    /// The searcher's invariant. Constructors establish it and `search` keeps
    /// it.
    spec fn ready(&self) -> bool;

    /// What `search` returns for a position.
    spec fn choice(&self, board: chess::Board) -> Result<Option<ScoredMove>, EvalError>;

    /// The best move for the side to play with its score, `None` where the
    /// searcher finds no move to consider, or the evaluator's error.
    fn search(&mut self, board: &chess::Board) -> (r: Result<Option<ScoredMove>, EvalError>)
        requires
            old(self).ready(),
        ensures
            final(self).ready(),
            r == old(self).choice(*board),
    ;
}

/// A boxed searcher is a searcher: it searches as what it holds does. This
/// lets an engine hold a searcher that is chosen when the program runs.
impl<S: MoveSearch + ?Sized> MoveSearch for Box<S> {
    open spec fn ready(&self) -> bool {
        (**self).ready()
    }

    open spec fn choice(&self, board: chess::Board) -> Result<Option<ScoredMove>, EvalError> {
        (**self).choice(board)
    }

    fn search(&mut self, board: &chess::Board) -> (r: Result<Option<ScoredMove>, EvalError>) {
        (**self).search(board)
    }
}

/// Searches a position if it can be searched: the result is `None`, and the
/// searcher as it was, where the position is not sane or a side has more
/// pieces in it than the rules crate generates moves for.
pub fn search_if_searchable<S: MoveSearch>(searcher: &mut S, board: &chess::Board) -> (r:
    Option<Result<Option<ScoredMove>, EvalError>>)
    requires
        old(searcher).ready(),
    ensures
        final(searcher).ready(),
        searchable(*board) ==> r == Some(old(searcher).choice(*board)),
        !searchable(*board) ==> r is None && *final(searcher) == *old(searcher),
{
    if is_searchable(board) {
        Some(searcher.search(board))
    } else {
        None
    }
}

/// The negation of a score.
pub open spec fn negated(score: i32) -> i32 {
    (-score) as i32
}

/// The better of the best move so far and a newly scored one: the new one only
/// if it scores strictly higher, so that of equal moves the first stays.
pub open spec fn better(best: Option<ScoredMove>, m: chess::ChessMove, score: i32) -> Option<
    ScoredMove,
> {
    match best {
        Some(b) => if score > b.score {
            Some(ScoredMove { chessmove: m, score })
        } else {
            best
        },
        None => Some(ScoredMove { chessmove: m, score }),
    }
}

/// Whether the score at index `k` is the highest of the scores from index
/// `from` on, and no score from `from` to `k` is as high.
pub open spec fn is_first_highest_from(scores: Seq<i32>, from: int, k: int) -> bool {
    &&& from <= k < scores.len()
    &&& forall|j: int| from <= j < k ==> #[trigger] scores[j] < scores[k]
    &&& forall|j: int| k <= j < scores.len() ==> #[trigger] scores[j] <= scores[k]
}

/// Whether a move lands on a square that holds a piece.
pub open spec fn is_capture(board: chess::Board, m: chess::ChessMove) -> bool {
    piece_at(board, move_dest(m)) is Some
}

/// The legal moves that land on a square that holds a piece, in generator
/// order.
pub open spec fn captures(board: chess::Board) -> Seq<chess::ChessMove> {
    legal_moves(board).filter(|m: chess::ChessMove| is_capture(board, m))
}

/// The moves that a full-width search examines with `depth` plies left, in
/// order: above the nominal horizon every legal move, at or below it captures
/// only.
pub open spec fn examined_moves(board: chess::Board, depth: i32) -> Seq<chess::ChessMove> {
    if depth <= 0 {
        captures(board)
    } else {
        legal_moves(board)
    }
}

/// The moves that a full-width search examines with `depth` plies left.
///
/// At or below the nominal horizon every one of them lands on a square that
/// holds a piece.
pub fn moves_to_examine(board: &chess::Board, depth: i32) -> (moves: Vec<chess::ChessMove>)
    requires
        searchable(*board),
    ensures
        moves@ == examined_moves(*board, depth),
        forall|i: int| 0 <= i < moves@.len() ==> is_generated(*board, #[trigger] moves@[i]),
        depth <= 0 ==> forall|i: int|
            0 <= i < moves@.len() ==> is_capture(*board, #[trigger] moves@[i]),
{
    let all = generate_moves(board);
    if depth > 0 {
        return all;
    }
    let ghost landing = |m: chess::ChessMove| is_capture(*board, m);
    let mut moves: Vec<chess::ChessMove> = Vec::new();
    let mut i: usize = 0;
    proof {
        reveal(Seq::filter);
    }
    while i < all.len()
        invariant
            i <= all.len(),
            all@ == legal_moves(*board),
            landing == (|m: chess::ChessMove| is_capture(*board, m)),
            moves@ == all@.take(i as int).filter(landing),
            forall|j: int| 0 <= j < moves@.len() ==> is_generated(*board, #[trigger] moves@[j]),
            forall|j: int| 0 <= j < moves@.len() ==> is_capture(*board, #[trigger] moves@[j]),
        decreases all.len() - i,
    {
        let m = all[i];
        proof {
            reveal(Seq::filter);
            assert(all@.take(i + 1).drop_last() =~= all@.take(i as int));
        }
        if piece_on(board, dest_of(m)).is_some() {
            moves.push(m);
        }
        i += 1;
    }
    assert(all@.take(all@.len() as int) =~= all@);
    moves
}

} // verus!
