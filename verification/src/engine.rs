//! The operation that a host application uses: from the text of a position to
//! the text of the move to play.

use crate::evaluator::EvalError;
use crate::rules::{
    describe_error, describe_move, error_text, has_few_enough_pieces, has_sound_placement,
    move_text, parse_position, parsed_position, placement_is_sound, within_piece_limit,
};
use crate::search::MoveSearch;
use vstd::prelude::*;

verus! {

/// Why no move was selected.
#[derive(Debug)]
pub enum SelectError {
    /// The text describes no position that can be searched; the words say
    /// why. They are the rules crate's where it read the text and found none.
    BadPosition(String),
    /// The searcher found no move to consider.
    NoMove,
    /// The evaluator failed during the search.
    SearchFailed(EvalError),
}

impl SelectError {
    /// The text of the error, for the host.
    pub open spec fn text(&self) -> Seq<char> {
        match self {
            SelectError::BadPosition(reason) => "failed to load board (fen probably corrupt): "@
                + reason@,
            SelectError::NoMove => "No move found"@,
            SelectError::SearchFailed(error) => "failed to generate move: "@ + error.message@,
        }
    }

    /// The text of the error, for the host.
    pub fn message(&self) -> (r: String)
        ensures
            r@ == self.text(),
    {
        match self {
            SelectError::BadPosition(reason) => {
                let mut out = "failed to load board (fen probably corrupt): ".to_owned();
                out.append(reason.as_str());
                out
            },
            SelectError::NoMove => "No move found".to_owned(),
            SelectError::SearchFailed(error) => {
                let mut out = "failed to generate move: ".to_owned();
                out.append(error.message.as_str());
                out
            },
        }
    }
}

/// What [`ChessEngine::select_move`] says of a text whose first field is no
/// sound piece placement.
pub open spec fn unsound_placement_reason() -> Seq<char> {
    "the piece placement is not eight ranks of eight squares with both kings"@
}

/// What [`ChessEngine::select_move`] says of a position in which a side has
/// more pieces than the rules crate generates moves for.
pub open spec fn too_many_pieces_reason() -> Seq<char> {
    "a side has more than 16 pieces"@
}

/// What [`ChessEngine::select_move`] returns for a text and the searcher's
/// choice.
///
/// A text is refused, with the reason, where its piece placement is not
/// sound, where the rules crate finds no position in it, and where a side has
/// too many pieces. Else the result is the text of the chosen move, `NoMove`
/// where the searcher chooses none, or the evaluator's error.
pub open spec fn selection_matches(
    text: Seq<char>,
    choice: spec_fn(chess::Board) -> Result<Option<crate::search::ScoredMove>, EvalError>,
    r: Result<String, SelectError>,
) -> bool {
    if !placement_is_sound(text) {
        r matches Err(SelectError::BadPosition(reason)) && reason@ == unsound_placement_reason()
    } else {
        match parsed_position(text) {
            Err(error) => r matches Err(SelectError::BadPosition(reason)) && reason@
                == error_text(error),
            Ok(board) => if !within_piece_limit(board) {
                r matches Err(SelectError::BadPosition(reason)) && reason@
                    == too_many_pieces_reason()
            } else {
                match choice(board) {
                    Ok(Some(best)) => r matches Ok(text) && text@ == move_text(best.chessmove),
                    Ok(None) => r matches Err(SelectError::NoMove),
                    Err(error) => r matches Err(SelectError::SearchFailed(e)) && e == error,
                }
            },
        }
    }
}

/// Whether [`ChessEngine::select_move`] searches the position of a text: the
/// piece placement is sound, the rules crate finds a position in the text, and
/// no side has too many pieces.
pub open spec fn is_searched(text: Seq<char>) -> bool {
    &&& placement_is_sound(text)
    &&& parsed_position(text) matches Ok(board) && within_piece_limit(board)
}

/// A move chooser for a host application: a searcher behind an operation on
/// texts.
pub struct ChessEngine<S: MoveSearch> {
    searcher: S,
}

impl<S: MoveSearch> ChessEngine<S> {
    /// The searcher that chooses the moves.
    pub closed spec fn searcher(&self) -> S {
        self.searcher
    }

    /// An engine that chooses its moves with `searcher`.
    pub fn new(searcher: S) -> (r: ChessEngine<S>)
        ensures
            r.searcher() == searcher,
    {
        ChessEngine { searcher }
    }

    /// Reads a position in Forsyth-Edwards notation, searches it, and writes
    /// the chosen move in coordinate notation.
    ///
    /// A text that is refused gives `BadPosition` and leaves the searcher as
    /// it was; a position without a move to consider gives `NoMove`; an
    /// evaluator's error gives `SearchFailed`.
    pub fn select_move(&mut self, fen: &str) -> (r: Result<String, SelectError>)
        requires
            old(self).searcher().ready(),
        ensures
            final(self).searcher().ready(),
            selection_matches(fen@, |board: chess::Board| old(self).searcher().choice(board), r),
            !is_searched(fen@) ==> final(self).searcher() == old(self).searcher(),
    {
        if !has_sound_placement(fen) {
            return Err(
                SelectError::BadPosition(
                    "the piece placement is not eight ranks of eight squares with both kings"
                        .to_owned(),
                ),
            );
        }
        let board = match parse_position(fen) {
            Ok(board) => board,
            Err(err) => {
                return Err(SelectError::BadPosition(describe_error(&err)));
            },
        };
        if !has_few_enough_pieces(&board) {
            return Err(SelectError::BadPosition("a side has more than 16 pieces".to_owned()));
        }
        match self.searcher.search(&board) {
            Ok(Some(chessmove)) => { return Ok(describe_move(chessmove.chessmove)); },
            Ok(None) => return Err(SelectError::NoMove),
            Err(err) => return Err(SelectError::SearchFailed(err)),
        };
    }
}

} // verus!
