//! The evaluator that counts material.

use super::{EvalError, Evaluator};
use crate::rules::{
    count_squares, lemma_count_below_bound, mover, occupied_by, occupied_by_kind, side_to_move,
    square_count, squares_of_kind, squares_of_side, PieceKind, Side,
};
use vstd::prelude::*;

verus! {

/// What a piece of a kind is worth, in pawns.
pub open spec fn piece_value(kind: PieceKind) -> int {
    match kind {
        PieceKind::Pawn => 1,
        PieceKind::Knight => 3,
        PieceKind::Bishop => 3,
        PieceKind::Rook => 5,
        PieceKind::Queen => 9,
        PieceKind::King => 100,
    }
}

/// The number of pieces of a kind that a side has.
pub open spec fn piece_count(board: chess::Board, kind: PieceKind, side: Side) -> nat {
    square_count(squares_of_kind(board, kind) & squares_of_side(board, side))
}

/// The worth of the pieces of a side.
pub open spec fn material(board: chess::Board, side: Side) -> int {
    piece_value(PieceKind::Pawn) * piece_count(board, PieceKind::Pawn, side) + piece_value(
        PieceKind::Knight,
    ) * piece_count(board, PieceKind::Knight, side) + piece_value(PieceKind::Bishop)
        * piece_count(board, PieceKind::Bishop, side) + piece_value(PieceKind::Rook) * piece_count(
        board,
        PieceKind::Rook,
        side,
    ) + piece_value(PieceKind::Queen) * piece_count(board, PieceKind::Queen, side) + piece_value(
        PieceKind::King,
    ) * piece_count(board, PieceKind::King, side)
}

/// The material score of a position: the worth of the pieces of the side to
/// move less that of the other side's.
pub open spec fn material_score(board: chess::Board) -> int {
    material(board, side_to_move(board)) - material(board, side_to_move(board).opponent())
}

/// The material score stays far inside the range of scores: a side has at
/// most 64 pieces of a kind, so its material is at most 64 times the sum of the
/// six values.
pub proof fn lemma_material_score_bounded(board: chess::Board)
    ensures
        -7744 <= material_score(board) <= 7744,
{
    lemma_material_bounded(board, Side::White);
    lemma_material_bounded(board, Side::Black);
}

proof fn lemma_material_bounded(board: chess::Board, side: Side)
    ensures
        0 <= material(board, side) <= 7744,
{
    let own = squares_of_side(board, side);
    lemma_count_below_bound(squares_of_kind(board, PieceKind::Pawn) & own, 64);
    lemma_count_below_bound(squares_of_kind(board, PieceKind::Knight) & own, 64);
    lemma_count_below_bound(squares_of_kind(board, PieceKind::Bishop) & own, 64);
    lemma_count_below_bound(squares_of_kind(board, PieceKind::Rook) & own, 64);
    lemma_count_below_bound(squares_of_kind(board, PieceKind::Queen) & own, 64);
    lemma_count_below_bound(squares_of_kind(board, PieceKind::King) & own, 64);
}

/// Scores a position by its material.
pub struct PointsEval {}

impl PointsEval {
    /// The evaluator: it scores every position, with its material score.
    pub fn new() -> (r: PointsEval)
        ensures
            forall|board: chess::Board|
                (#[trigger] r.evaluation(board)) matches Ok(score) && score == material_score(
                    board,
                ),
    {
        assert forall|board: chess::Board|
            (#[trigger] (PointsEval {  }).evaluation(board)) matches Ok(score) && score
                == material_score(board) by {
            lemma_material_score_bounded(board);
        }
        PointsEval {  }
    }
}

/// The number of pieces of `kind` on the squares `own`, which are those of one
/// side.
fn count_pieces(board: &chess::Board, kind: PieceKind, own: u64) -> (count: i32)
    ensures
        count == square_count(squares_of_kind(*board, kind) & own),
        0 <= count <= 64,
{
    let squares = occupied_by_kind(board, kind) & own;
    proof {
        lemma_count_below_bound(squares, 64);
    }
    count_squares(squares) as i32
}

impl Evaluator for PointsEval {
    open spec fn evaluation(&self, board: chess::Board) -> Result<i32, EvalError> {
        Ok(material_score(board) as i32)
    }

    fn evaluate(&self, board: &chess::Board) -> (r: Result<i32, EvalError>) {
        let mut points: i32 = 0;
        let white = occupied_by(board, Side::White);
        let black = occupied_by(board, Side::Black);

        points += count_pieces(board, PieceKind::Pawn, white);
        points -= count_pieces(board, PieceKind::Pawn, black);
        points += count_pieces(board, PieceKind::Knight, white) * 3;
        points -= count_pieces(board, PieceKind::Knight, black) * 3;
        points += count_pieces(board, PieceKind::Bishop, white) * 3;
        points -= count_pieces(board, PieceKind::Bishop, black) * 3;
        points += count_pieces(board, PieceKind::Rook, white) * 5;
        points -= count_pieces(board, PieceKind::Rook, black) * 5;
        points += count_pieces(board, PieceKind::Queen, white) * 9;
        points -= count_pieces(board, PieceKind::Queen, black) * 9;
        points += count_pieces(board, PieceKind::King, white) * 100;
        points -= count_pieces(board, PieceKind::King, black) * 100;

        Ok(
            match mover(board) {
                Side::White => points,
                Side::Black => -points,
            },
        )
    }
}

/// Whether the second position has the pieces of the first with the colours
/// exchanged: of each kind, each side has as many as the other side had.
pub open spec fn colours_exchanged(first: chess::Board, second: chess::Board) -> bool {
    forall|kind: PieceKind, side: Side| #[trigger]
        piece_count(second, kind, side) == piece_count(first, kind, side.opponent())
}

/// Whether two positions have the same number of pieces of each kind and
/// side.
pub open spec fn same_pieces(first: chess::Board, second: chess::Board) -> bool {
    forall|kind: PieceKind, side: Side| #[trigger]
        piece_count(second, kind, side) == piece_count(first, kind, side)
}

/// Exchanging the colours of the pieces, with the same side to move, negates
/// the material score.
pub proof fn lemma_colour_exchange_negates(first: chess::Board, second: chess::Board)
    requires
        colours_exchanged(first, second),
        side_to_move(second) == side_to_move(first),
    ensures
        material_score(second) == -material_score(first),
{
    lemma_material_exchanged(first, second, Side::White);
    lemma_material_exchanged(first, second, Side::Black);
}

/// Giving the move to the other side, with the same pieces, negates the
/// material score.
pub proof fn lemma_side_change_negates(first: chess::Board, second: chess::Board)
    requires
        same_pieces(first, second),
        side_to_move(second) == side_to_move(first).opponent(),
    ensures
        material_score(second) == -material_score(first),
{
    lemma_material_same(first, second, Side::White);
    lemma_material_same(first, second, Side::Black);
}

/// Exchanging the colours of the pieces and giving the move to the other side
/// keeps the material score.
pub proof fn lemma_mirror_keeps_score(first: chess::Board, second: chess::Board)
    requires
        colours_exchanged(first, second),
        side_to_move(second) == side_to_move(first).opponent(),
    ensures
        material_score(second) == material_score(first),
{
    lemma_material_exchanged(first, second, Side::White);
    lemma_material_exchanged(first, second, Side::Black);
}

proof fn lemma_material_exchanged(first: chess::Board, second: chess::Board, side: Side)
    requires
        colours_exchanged(first, second),
    ensures
        material(second, side) == material(first, side.opponent()),
{
    assert forall|kind: PieceKind|
        piece_count(second, kind, side) == piece_count(first, kind, side.opponent()) by {}
}

proof fn lemma_material_same(first: chess::Board, second: chess::Board, side: Side)
    requires
        same_pieces(first, second),
    ensures
        material(second, side) == material(first, side),
{
    assert forall|kind: PieceKind|
        piece_count(second, kind, side) == piece_count(first, kind, side) by {}
}

} // verus!
