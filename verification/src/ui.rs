//! Rendering a position as text, one line for each rank.

use crate::rules::{
    color_on, make_square, piece_at, piece_on, piece_symbol, side_at, square_at, symbol_text, Side,
};
use vstd::prelude::*;

verus! {

/// The sequence that ends a stretch of coloured text on a terminal.
pub open spec fn reset_code() -> Seq<char> {
    "\u{1b}[0m"@
}

/// A text between the code for white and the reset sequence.
pub open spec fn in_white(text: Seq<char>) -> Seq<char> {
    "\u{1b}[37m"@ + text + reset_code()
}

/// A text between the code for red and the reset sequence.
pub open spec fn in_red(text: Seq<char>) -> Seq<char> {
    "\u{1b}[31m"@ + text + reset_code()
}

/// A text as it comes back painted in the colour of a side: white for White,
/// red for Black.
pub open spec fn in_colour_of(side: Side, text: Seq<char>) -> Seq<char> {
    match side {
        Side::White => in_white(text),
        Side::Black => in_red(text),
    }
}

/// Calls `colored::Colorize::white` and formats the result. Whether colours
/// are written depends on the terminal and on the environment: the text comes
/// back as it is, or between the code for white and the reset sequence. This
/// is said of texts too short to hold a reset sequence, which the crate would
/// rewrite.
#[verifier::external_body]
fn paint_white(symbol: &str) -> (painted: String)
    ensures
        symbol@.len() < 4 ==> painted@ == symbol@ || painted@ == in_white(symbol@),
{
    format!("{}", colored::Colorize::white(symbol))
}

/// Calls `colored::Colorize::red` and formats the result. Whether colours are
/// written depends on the terminal and on the environment: the text comes back
/// as it is, or between the code for red and the reset sequence. This is said
/// of texts too short to hold a reset sequence, which the crate would rewrite.
#[verifier::external_body]
fn paint_red(symbol: &str) -> (painted: String)
    ensures
        symbol@.len() < 4 ==> painted@ == symbol@ || painted@ == in_red(symbol@),
{
    format!("{}", colored::Colorize::red(symbol))
}

/// The owner of the piece on a square, White where the square is empty.
pub open spec fn cell_side(board: chess::Board, rank: usize, file: usize) -> Side {
    match side_at(board, square_at(rank, file)) {
        Some(side) => side,
        None => Side::White,
    }
}

/// The plain text of a square: the symbol of its piece, or a blank.
pub open spec fn cell_text(board: chess::Board, rank: usize, file: usize) -> Seq<char> {
    match piece_at(board, square_at(rank, file)) {
        Some(kind) => symbol_text(kind, cell_side(board, rank, file)),
        None => seq![' '],
    }
}

/// The plain texts of the 64 squares, rank by rank from the first, each rank
/// from file a to file h.
pub open spec fn plain_cells(board: chess::Board) -> Seq<Seq<char>> {
    Seq::new(64, |i: int| cell_text(board, (i / 8) as usize, (i % 8) as usize))
}

/// The texts of the 64 squares as they come back painted, each in the colour
/// of the owner of its piece, in the order of [`plain_cells`].
pub open spec fn painted_cells(board: chess::Board) -> Seq<Seq<char>> {
    Seq::new(
        64,
        |i: int|
            in_colour_of(
                cell_side(board, (i / 8) as usize, (i % 8) as usize),
                cell_text(board, (i / 8) as usize, (i % 8) as usize),
            ),
    )
}

/// Whether the cells are those of the board, each one plain or painted.
pub open spec fn shows_board(board: chess::Board, cells: Seq<Seq<char>>) -> bool {
    &&& cells.len() == 64
    &&& forall|i: int|
        0 <= i < 64 ==> #[trigger] cells[i] == plain_cells(board)[i] || cells[i] == painted_cells(
            board,
        )[i]
}

/// The first `count` cells one after the other, with a line break after every
/// eighth.
pub open spec fn laid_out(cells: Seq<Seq<char>>, count: int) -> Seq<char>
    decreases count,
{
    if count <= 0 {
        Seq::empty()
    } else {
        laid_out(cells, count - 1) + cells[count - 1] + if count % 8 == 0 {
            seq!['\n']
        } else {
            Seq::empty()
        }
    }
}

/// The texts of a vector of strings.
pub open spec fn texts(cells: Seq<String>) -> Seq<Seq<char>> {
    Seq::new(cells.len(), |i: int| cells[i]@)
}

/// Joins the cells of a board into lines of eight.
pub fn lay_out(cells: &Vec<String>) -> (out: String)
    ensures
        out@ == laid_out(texts(cells@), cells@.len() as int),
{
    let mut out = String::new();
    let mut i: usize = 0;
    while i < cells.len()
        invariant
            i <= cells.len(),
            out@ == laid_out(texts(cells@), i as int),
        decreases cells.len() - i,
    {
        out.append(cells[i].as_str());
        if (i + 1) % 8 == 0 {
            proof {
                reveal_strlit("\n");
            }
            out.append("\n");
        }
        i += 1;
    }
    out
}

/// The board as eight lines of eight symbols, the first rank first. Pieces
/// show as their letters, White's in capitals. With `ascii` the text is plain;
/// without it every symbol is painted, white for White's pieces and for empty
/// squares, red for Black's, and comes back plain or between colour codes as
/// the terminal allows.
pub fn display_board(board: &chess::Board, ascii: bool) -> (out: String)
    ensures
        ascii ==> out@ == laid_out(plain_cells(*board), 64),
        exists|cells: Seq<Seq<char>>| shows_board(*board, cells) && out@ == laid_out(cells, 64),
{
    let mut out: Vec<String> = Vec::new();
    let mut rank: usize = 0;
    while rank < 8
        invariant
            rank <= 8,
            out@.len() == rank * 8,
            forall|i: int|
                0 <= i < out@.len() ==> (#[trigger] out@[i])@ == plain_cells(*board)[i] || (!ascii
                    && out@[i]@ == painted_cells(*board)[i]),
        decreases 8 - rank,
    {
        let mut file: usize = 0;
        while file < 8
            invariant
                rank < 8,
                file <= 8,
                out@.len() == rank * 8 + file,
                forall|i: int|
                    0 <= i < out@.len() ==> (#[trigger] out@[i])@ == plain_cells(*board)[i] || (
                    !ascii && out@[i]@ == painted_cells(*board)[i]),
            decreases 8 - file,
        {
            let sq = make_square(rank, file);
            let piece = piece_on(board, sq);
            let color = match color_on(board, sq) {
                Some(side) => side,
                None => Side::White,
            };
            let symbol = match piece {
                Some(piece) => piece_symbol(piece, color),
                None => {
                    proof {
                        reveal_strlit(" ");
                    }
                    " ".to_owned()
                },
            };
            proof {
                let i = rank * 8 + file;
                assert(i / 8 == rank && i % 8 == file);
                assert(symbol@ == plain_cells(*board)[i as int]);
                assert(symbol@.len() == 1);
                assert(in_colour_of(color, symbol@) == painted_cells(*board)[i as int]);
            }
            if !ascii {
                match color {
                    Side::White => out.push(paint_white(symbol.as_str())),
                    Side::Black => out.push(paint_red(symbol.as_str())),
                }
            } else {
                out.push(symbol);
            }
            file += 1;
        }
        rank += 1;
    }
    let text = lay_out(&out);
    proof {
        assert(shows_board(*board, texts(out@)));
        if ascii {
            assert(texts(out@) =~= plain_cells(*board));
        }
    }
    text
}

} // verus!
