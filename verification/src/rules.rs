//! The interface to the `chess` rules crate.
//!
//! Positions, moves and squares are values of that crate and stay opaque here.
//! What the crate computes from them is named by a specification function
//! without a body, and each call into the crate is a small function whose
//! contract relates its result to that name. These contracts are taken on
//! trust; everything else in this library is proved from them.

use vstd::prelude::*;

verus! {

/// `chess::Board`: a chess position. Opaque.
#[verifier::external_type_specification]
#[verifier::external_body]
pub struct ExBoard(chess::Board);

/// `chess::ChessMove`: a move (source square, destination square, promotion).
/// Opaque.
#[verifier::external_type_specification]
#[verifier::external_body]
pub struct ExChessMove(chess::ChessMove);

/// `chess::Square`: one of the 64 squares. Opaque.
#[verifier::external_type_specification]
#[verifier::external_body]
pub struct ExSquare(chess::Square);

/// `chess::Error`: why the rules crate could not read a text. Opaque.
#[verifier::external_type_specification]
#[verifier::external_body]
pub struct ExError(chess::Error);

/// One of the two players.
#[derive(Clone, Copy, PartialEq, Eq, Debug)]
pub enum Side {
    White,
    Black,
}

/// The six kinds of chess piece.
#[derive(Clone, Copy, PartialEq, Eq, Debug)]
pub enum PieceKind {
    Pawn,
    Knight,
    Bishop,
    Rook,
    Queen,
    King,
}

/// Which ways a player may still castle.
#[derive(Clone, Copy, PartialEq, Eq, Debug)]
pub enum CastleRights {
    NoRights,
    KingSide,
    QueenSide,
    Both,
}

impl CastleRights {
    /// Whether castling on the king's side is still allowed.
    pub open spec fn kingside(self) -> bool {
        self is KingSide || self is Both
    }

    /// Whether castling on the queen's side is still allowed.
    pub open spec fn queenside(self) -> bool {
        self is QueenSide || self is Both
    }

    /// Whether castling on the king's side is still allowed.
    pub fn has_kingside(&self) -> (r: bool)
        ensures
            r == self.kingside(),
    {
        match self {
            CastleRights::KingSide => true,
            CastleRights::Both => true,
            _ => false,
        }
    }

    /// Whether castling on the queen's side is still allowed.
    pub fn has_queenside(&self) -> (r: bool)
        ensures
            r == self.queenside(),
    {
        match self {
            CastleRights::QueenSide => true,
            CastleRights::Both => true,
            _ => false,
        }
    }
}

impl Side {
    /// The other player.
    pub open spec fn opponent(self) -> Side {
        match self {
            Side::White => Side::Black,
            Side::Black => Side::White,
        }
    }

    /// The other player.
    pub fn other(self) -> (r: Side)
        ensures
            r == self.opponent(),
    {
        match self {
            Side::White => Side::Black,
            Side::Black => Side::White,
        }
    }
}

/// Whether bit `index` of a set of squares is set. Squares are numbered from 0
/// (a1) to 63 (h8), and a set of squares holds bit `i` for square `i`.
pub open spec fn has_square(squares: u64, index: u8) -> bool {
    index < 64 && (squares >> index) & 1 == 1
}

/// The number of squares with an index below `limit` in a set of squares.
pub open spec fn count_below(squares: u64, limit: nat) -> nat
    decreases limit,
{
    if limit == 0 {
        0
    } else {
        count_below(squares, (limit - 1) as nat) + if has_square(squares, (limit - 1) as u8) {
            1nat
        } else {
            0nat
        }
    }
}

/// The number of squares in a set of squares.
pub open spec fn square_count(squares: u64) -> nat {
    count_below(squares, 64)
}

/// There are at most `limit` squares below `limit`.
pub proof fn lemma_count_below_bound(squares: u64, limit: nat)
    ensures
        count_below(squares, limit) <= limit,
    decreases limit,
{
    if limit > 0 {
        lemma_count_below_bound(squares, (limit - 1) as nat);
    }
}

/// The most pieces that a side may have for the rules crate to generate its
/// moves: the generator keeps one entry for each piece that can move and up to
/// two more for captures in passing, in a list that holds eighteen.
pub const MAX_PIECES: u32 = 16;

/// The number of pieces that a side has.
pub open spec fn piece_total(board: chess::Board, side: Side) -> nat {
    square_count(squares_of_side(board, side))
}

/// Whether neither side has more than [`MAX_PIECES`] pieces. A move never
/// adds a piece.
pub open spec fn within_piece_limit(board: chess::Board) -> bool {
    &&& piece_total(board, Side::White) <= MAX_PIECES
    &&& piece_total(board, Side::Black) <= MAX_PIECES
}

/// What `chess::Board::is_sane` gives for a position: whether its parts agree
/// with each other and with the rules, with one king of each colour, the side
/// that is not to move out of check, and castling rights only where king and
/// rook stand unmoved.
pub uninterp spec fn is_sane(board: chess::Board) -> bool;

/// Whether a position can be searched: it is sane and no side has more than
/// [`MAX_PIECES`] pieces. Moves are generated for such positions only. A move
/// may lead from one of them to a position that is not sane, so a search tests
/// every position before it generates moves for it, and takes one that cannot
/// be searched for a leaf.
pub open spec fn searchable(board: chess::Board) -> bool {
    is_sane(board) && within_piece_limit(board)
}

/// Whether a character stands for a piece in a piece placement.
pub open spec fn is_piece_letter(c: char) -> bool {
    ||| c == 'p' || c == 'n' || c == 'b' || c == 'r' || c == 'q' || c == 'k'
    ||| c == 'P' || c == 'N' || c == 'B' || c == 'R' || c == 'Q' || c == 'K'
}

/// The number of empty squares that a character stands for in a piece
/// placement: the digits from 1 to 8 stand for as many, every other character
/// for none.
pub open spec fn empty_squares(c: char) -> int {
    if c == '1' {
        1
    } else if c == '2' {
        2
    } else if c == '3' {
        3
    } else if c == '4' {
        4
    } else if c == '5' {
        5
    } else if c == '6' {
        6
    } else if c == '7' {
        7
    } else if c == '8' {
        8
    } else {
        0
    }
}

/// Whether the rest of a piece placement, from index `at` to the first blank
/// or to the end of the text, completes a sound placement, where `ranks` ranks
/// are complete, `file` squares of the current rank are described, and
/// `white_king` and `black_king` say which kings have been named.
pub open spec fn placement_completes(
    text: Seq<char>,
    at: int,
    ranks: int,
    file: int,
    white_king: bool,
    black_king: bool,
) -> bool
    decreases text.len() - at,
{
    if at < 0 || at >= text.len() || text[at] == ' ' {
        ranks == 7 && file == 8 && white_king && black_king
    } else if text[at] == '/' {
        file == 8 && ranks < 7 && placement_completes(
            text,
            at + 1,
            ranks + 1,
            0,
            white_king,
            black_king,
        )
    } else if empty_squares(text[at]) > 0 {
        file + empty_squares(text[at]) <= 8 && placement_completes(
            text,
            at + 1,
            ranks,
            file + empty_squares(text[at]),
            white_king,
            black_king,
        )
    } else if is_piece_letter(text[at]) {
        file < 8 && placement_completes(
            text,
            at + 1,
            ranks,
            file + 1,
            white_king || text[at] == 'K',
            black_king || text[at] == 'k',
        )
    } else {
        false
    }
}

/// Whether the first field of a text, which ends at the first blank, is a
/// sound piece placement: eight ranks with a stroke between them, each of
/// piece letters and digits that describe exactly eight squares, with a king
/// of each colour among the letters.
///
/// The rules crate reads a placement leniently and looks for the king of the
/// side to move before it checks the position, so only such texts are handed
/// to it: on them every letter names a square of its own, and both kings
/// stand on the board.
pub open spec fn placement_is_sound(text: Seq<char>) -> bool {
    placement_completes(text, 0, 0, 0, false, false)
}

/// The number from 0 to 63 that `chess::Square::to_int` gives for a square.
pub uninterp spec fn square_index(square: chess::Square) -> u8;

/// The hash that `chess::Board::get_hash` gives for a position.
pub uninterp spec fn board_hash(board: chess::Board) -> u64;

/// The player whom `chess::Board::side_to_move` names for a position.
pub uninterp spec fn side_to_move(board: chess::Board) -> Side;

/// The set of squares that `chess::Board::color_combined` gives: those that
/// hold a piece of `side`.
pub uninterp spec fn squares_of_side(board: chess::Board, side: Side) -> u64;

/// The set of squares that `chess::Board::pieces` gives: those that hold a
/// piece of `kind`, of either player.
pub uninterp spec fn squares_of_kind(board: chess::Board, kind: PieceKind) -> u64;

/// What `chess::Board::piece_on` gives: the kind of piece on a square, if any.
pub uninterp spec fn piece_at(board: chess::Board, square: chess::Square) -> Option<PieceKind>;

/// What `chess::Board::color_on` gives: the owner of the piece on a square, if
/// any.
pub uninterp spec fn side_at(board: chess::Board, square: chess::Square) -> Option<Side>;

/// What `chess::Board::castle_rights` gives for a player.
pub uninterp spec fn castle_rights_of(board: chess::Board, side: Side) -> CastleRights;

/// The square that `chess::Square::make_square` gives for the rank and the
/// file that `from_index` makes of two numbers.
pub uninterp spec fn square_at(rank: usize, file: usize) -> chess::Square;

/// The letter of a kind of piece.
pub open spec fn piece_letter(kind: PieceKind) -> char {
    match kind {
        PieceKind::Pawn => 'p',
        PieceKind::Knight => 'n',
        PieceKind::Bishop => 'b',
        PieceKind::Rook => 'r',
        PieceKind::Queen => 'q',
        PieceKind::King => 'k',
    }
}

/// The capital letter of a kind of piece.
pub open spec fn piece_capital(kind: PieceKind) -> char {
    match kind {
        PieceKind::Pawn => 'P',
        PieceKind::Knight => 'N',
        PieceKind::Bishop => 'B',
        PieceKind::Rook => 'R',
        PieceKind::Queen => 'Q',
        PieceKind::King => 'K',
    }
}

/// The symbol of a piece: its letter, capital for White.
pub open spec fn symbol_text(kind: PieceKind, side: Side) -> Seq<char> {
    match side {
        Side::White => seq![piece_capital(kind)],
        Side::Black => seq![piece_letter(kind)],
    }
}

/// The destination square that `chess::ChessMove::get_dest` gives for a move.
pub uninterp spec fn move_dest(m: chess::ChessMove) -> chess::Square;

/// The moves that a fresh `chess::MoveGen::new_legal` yields for a position,
/// in the order in which it yields them: the legal moves.
pub uninterp spec fn legal_moves(board: chess::Board) -> Seq<chess::ChessMove>;

/// The moves that `chess::MoveGen::new_legal` yields for a position once
/// `set_iterator_mask` has restricted it to the destinations in `targets`, in
/// the order in which it yields them.
pub uninterp spec fn legal_moves_onto(board: chess::Board, targets: u64) -> Seq<chess::ChessMove>;

/// The position that `chess::Board::make_move_new` gives for a position and
/// a move.
pub uninterp spec fn board_after(board: chess::Board, m: chess::ChessMove) -> chess::Board;

/// What `chess::Board::from_str` gives for a text: the position that the text
/// describes in Forsyth-Edwards notation, or the reason why there is none.
pub uninterp spec fn parsed_position(text: Seq<char>) -> Result<chess::Board, chess::Error>;

/// The text that the `Display` impl of `chess::Error` writes for an error.
pub uninterp spec fn error_text(error: chess::Error) -> Seq<char>;

/// The text that the `Display` impl of `chess::ChessMove` writes for a move:
/// source square, destination square and promotion piece, if any.
pub uninterp spec fn move_text(m: chess::ChessMove) -> Seq<char>;

/// A move that the move generator yields for the position, under some
/// restriction of the destinations or under none.
pub open spec fn is_generated(board: chess::Board, m: chess::ChessMove) -> bool {
    ||| legal_moves(board).contains(m)
    ||| exists|targets: u64| #[trigger] legal_moves_onto(board, targets).contains(m)
}

/// Calls `chess::Square::to_int`. The contract names the result.
#[verifier::external_body]
pub(crate) fn index_of_square(square: chess::Square) -> (index: u8)
    ensures
        index == square_index(square),
{
    square.to_int()
}

/// Calls `chess::Board::get_hash`. The contract names the result: the crate
/// computes it from the position and from tables that are fixed when the crate
/// is built.
#[verifier::external_body]
pub(crate) fn hash_of(board: &chess::Board) -> (hash: u64)
    ensures
        hash == board_hash(*board),
{
    board.get_hash()
}

/// Calls `chess::Board::side_to_move`. The contract names the result.
#[verifier::external_body]
pub(crate) fn mover(board: &chess::Board) -> (side: Side)
    ensures
        side == side_to_move(*board),
{
    match board.side_to_move() {
        chess::Color::White => Side::White,
        chess::Color::Black => Side::Black,
    }
}

/// Calls `chess::Board::color_combined`. The contract names the result.
#[verifier::external_body]
pub(crate) fn occupied_by(board: &chess::Board, side: Side) -> (squares: u64)
    ensures
        squares == squares_of_side(*board, side),
{
    let color = match side {
        Side::White => chess::Color::White,
        Side::Black => chess::Color::Black,
    };
    board.color_combined(color).0
}

/// Calls `chess::Board::pieces`. The contract names the result.
#[verifier::external_body]
pub(crate) fn occupied_by_kind(board: &chess::Board, kind: PieceKind) -> (squares: u64)
    ensures
        squares == squares_of_kind(*board, kind),
{
    let piece = match kind {
        PieceKind::Pawn => chess::Piece::Pawn,
        PieceKind::Knight => chess::Piece::Knight,
        PieceKind::Bishop => chess::Piece::Bishop,
        PieceKind::Rook => chess::Piece::Rook,
        PieceKind::Queen => chess::Piece::Queen,
        PieceKind::King => chess::Piece::King,
    };
    board.pieces(piece).0
}

/// Calls `chess::BitBoard::popcnt`, which counts the bits that are set.
#[verifier::external_body]
pub(crate) fn count_squares(squares: u64) -> (count: u32)
    ensures
        count == square_count(squares),
{
    chess::BitBoard(squares).popcnt()
}

/// Calls `chess::Board::piece_on`. The contract names the result.
#[verifier::external_body]
pub(crate) fn piece_on(board: &chess::Board, square: chess::Square) -> (piece: Option<PieceKind>)
    ensures
        piece == piece_at(*board, square),
{
    match board.piece_on(square) {
        None => None,
        Some(chess::Piece::Pawn) => Some(PieceKind::Pawn),
        Some(chess::Piece::Knight) => Some(PieceKind::Knight),
        Some(chess::Piece::Bishop) => Some(PieceKind::Bishop),
        Some(chess::Piece::Rook) => Some(PieceKind::Rook),
        Some(chess::Piece::Queen) => Some(PieceKind::Queen),
        Some(chess::Piece::King) => Some(PieceKind::King),
    }
}

/// Calls `chess::ChessMove::get_dest`. The contract names the result.
#[verifier::external_body]
pub(crate) fn dest_of(m: chess::ChessMove) -> (square: chess::Square)
    ensures
        square == move_dest(m),
{
    m.get_dest()
}

/// Collects what a fresh `chess::MoveGen::new_legal` yields. The contract
/// names the result. The generator looks up the king of the side to move
/// without checking that there is one, so the position has to be sane; and its
/// list has room for the pieces of a side with at most [`MAX_PIECES`] of them,
/// and it does not check for more.
#[verifier::external_body]
pub(crate) fn generate_moves(board: &chess::Board) -> (moves: Vec<chess::ChessMove>)
    requires
        is_sane(*board),
        piece_total(*board, side_to_move(*board)) <= MAX_PIECES,
    ensures
        moves@ == legal_moves(*board),
{
    chess::MoveGen::new_legal(board).collect()
}

/// Collects what `chess::MoveGen::new_legal` yields after
/// `set_iterator_mask(targets)`. The contract names the result and says what
/// the iterator's code shows of each move: its destination is the lowest square
/// of a non-empty intersection with the mask, hence a square of `targets`. The
/// generator looks up the king of the side to move without checking that there
/// is one, so the position has to be sane; and its list has room for the
/// pieces of a side with at most [`MAX_PIECES`] of them, and it does not check
/// for more.
#[verifier::external_body]
pub(crate) fn generate_moves_onto(board: &chess::Board, targets: u64) -> (moves: Vec<
    chess::ChessMove,
>)
    requires
        is_sane(*board),
        piece_total(*board, side_to_move(*board)) <= MAX_PIECES,
    ensures
        moves@ == legal_moves_onto(*board, targets),
        forall|i: int|
            0 <= i < moves@.len() ==> has_square(
                targets,
                square_index(move_dest(#[trigger] moves@[i])),
            ),
{
    let mut generator = chess::MoveGen::new_legal(board);
    generator.set_iterator_mask(chess::BitBoard(targets));
    generator.collect()
}

/// Calls `chess::Board::make_move_new`. The contract names the result. The
/// crate plays a move without checking it and may panic on one that is not
/// legal in the position, so only moves that its generator yields for the
/// position are admitted, and only in a sane position. The move carries a
/// piece of the mover from one square to another and takes pieces off the
/// board, so no side has more pieces after it than before. Nothing is said of
/// whether the position after it is sane: the generator yields captures in
/// passing that leave the mover in check, or that land on a piece.
#[verifier::external_body]
pub(crate) fn play(board: &chess::Board, m: chess::ChessMove) -> (next: chess::Board)
    requires
        is_sane(*board),
        is_generated(*board, m),
    ensures
        next == board_after(*board, m),
        piece_total(next, Side::White) <= piece_total(*board, Side::White),
        piece_total(next, Side::Black) <= piece_total(*board, Side::Black),
{
    board.make_move_new(m)
}

/// Calls `chess::Board::from_str`. The contract names the result. The crate
/// builds the board and looks up the lines through the king of the side to
/// move before it checks that there is one, so only texts with a sound piece
/// placement are admitted. It returns a position only if `is_sane` holds of
/// it.
#[verifier::external_body]
pub(crate) fn parse_position(text: &str) -> (r: Result<chess::Board, chess::Error>)
    requires
        placement_is_sound(text@),
    ensures
        r == parsed_position(text@),
        r matches Ok(board) ==> is_sane(board),
{
    text.parse::<chess::Board>()
}

/// Formats a `chess::Error` with its `Display` impl. The contract names the
/// result.
#[verifier::external_body]
pub(crate) fn describe_error(error: &chess::Error) -> (text: String)
    ensures
        text@ == error_text(*error),
{
    format!("{}", error)
}

/// Formats a `chess::ChessMove` with its `Display` impl. The contract names
/// the result.
#[verifier::external_body]
pub(crate) fn describe_move(m: chess::ChessMove) -> (text: String)
    ensures
        text@ == move_text(m),
{
    format!("{}", m)
}

/// Calls `chess::Board::color_on`. The contract names the result.
#[verifier::external_body]
pub(crate) fn color_on(board: &chess::Board, square: chess::Square) -> (side: Option<Side>)
    ensures
        side == side_at(*board, square),
{
    match board.color_on(square) {
        None => None,
        Some(chess::Color::White) => Some(Side::White),
        Some(chess::Color::Black) => Some(Side::Black),
    }
}

/// Calls `chess::Board::castle_rights`. The contract names the result.
#[verifier::external_body]
pub(crate) fn castle_rights(board: &chess::Board, side: Side) -> (rights: CastleRights)
    ensures
        rights == castle_rights_of(*board, side),
{
    let color = match side {
        Side::White => chess::Color::White,
        Side::Black => chess::Color::Black,
    };
    match board.castle_rights(color) {
        chess::CastleRights::NoRights => CastleRights::NoRights,
        chess::CastleRights::KingSide => CastleRights::KingSide,
        chess::CastleRights::QueenSide => CastleRights::QueenSide,
        chess::CastleRights::Both => CastleRights::Both,
    }
}

/// Calls `chess::Square::make_square` on `chess::Rank::from_index` and
/// `chess::File::from_index`. The contract names the result; for a rank and a
/// file below 8 the square's number is eight times the rank plus the file.
#[verifier::external_body]
pub(crate) fn make_square(rank: usize, file: usize) -> (square: chess::Square)
    ensures
        square == square_at(rank, file),
        rank < 8 && file < 8 ==> square_index(square) == rank * 8 + file,
{
    chess::Square::make_square(chess::Rank::from_index(rank), chess::File::from_index(file))
}

/// Calls `chess::Piece::to_string`: the piece's letter, in upper case for
/// White.
#[verifier::external_body]
pub(crate) fn piece_symbol(kind: PieceKind, side: Side) -> (symbol: String)
    ensures
        symbol@ == symbol_text(kind, side),
{
    let piece = match kind {
        PieceKind::Pawn => chess::Piece::Pawn,
        PieceKind::Knight => chess::Piece::Knight,
        PieceKind::Bishop => chess::Piece::Bishop,
        PieceKind::Rook => chess::Piece::Rook,
        PieceKind::Queen => chess::Piece::Queen,
        PieceKind::King => chess::Piece::King,
    };
    match side {
        Side::White => piece.to_string(chess::Color::White),
        Side::Black => piece.to_string(chess::Color::Black),
    }
}

/// Compares two moves with the `==` that `chess::ChessMove` derives, which
/// compares source, destination and promotion: whether they are the same move.
#[verifier::external_body]
pub(crate) fn same_move(first: chess::ChessMove, second: chess::ChessMove) -> (same: bool)
    ensures
        same == (first == second),
{
    first == second
}

/// Calls `chess::Board::is_sane`. The contract names the result.
#[verifier::external_body]
pub(crate) fn check_sanity(board: &chess::Board) -> (sane: bool)
    ensures
        sane == is_sane(*board),
{
    board.is_sane()
}

/// Whether a position can be searched.
pub fn is_searchable(board: &chess::Board) -> (r: bool)
    ensures
        r == searchable(*board),
{
    check_sanity(board) && has_few_enough_pieces(board)
}

/// Whether neither side has more than [`MAX_PIECES`] pieces.
pub fn has_few_enough_pieces(board: &chess::Board) -> (r: bool)
    ensures
        r == within_piece_limit(*board),
{
    count_squares(occupied_by(board, Side::White)) <= MAX_PIECES && count_squares(
        occupied_by(board, Side::Black),
    ) <= MAX_PIECES
}

/// The number of empty squares that a character stands for in a piece
/// placement.
fn empty_squares_of(c: char) -> (n: usize)
    ensures
        n == empty_squares(c),
{
    if c == '1' {
        1
    } else if c == '2' {
        2
    } else if c == '3' {
        3
    } else if c == '4' {
        4
    } else if c == '5' {
        5
    } else if c == '6' {
        6
    } else if c == '7' {
        7
    } else if c == '8' {
        8
    } else {
        0
    }
}

/// Whether a character stands for a piece in a piece placement.
fn stands_for_piece(c: char) -> (r: bool)
    ensures
        r == is_piece_letter(c),
{
    c == 'p' || c == 'n' || c == 'b' || c == 'r' || c == 'q' || c == 'k' || c == 'P' || c == 'N'
        || c == 'B' || c == 'R' || c == 'Q' || c == 'K'
}

/// Whether the first field of a text is a sound piece placement.
pub fn has_sound_placement(text: &str) -> (r: bool)
    ensures
        r == placement_is_sound(text@),
{
    let length: usize = text.unicode_len();
    let mut at: usize = 0;
    let mut ranks: usize = 0;
    let mut file: usize = 0;
    let mut white_king = false;
    let mut black_king = false;
    while at < length
        invariant
            length == text@.len(),
            at <= length,
            ranks <= 7,
            file <= 8,
            placement_completes(text@, at as int, ranks as int, file as int, white_king, black_king)
                == placement_is_sound(text@),
        decreases length - at,
    {
        let c = text.get_char(at);
        if c == ' ' {
            return ranks == 7 && file == 8 && white_king && black_king;
        } else if c == '/' {
            if file != 8 || ranks >= 7 {
                return false;
            }
            ranks += 1;
            file = 0;
        } else if empty_squares_of(c) > 0 {
            if file + empty_squares_of(c) > 8 {
                return false;
            }
            file += empty_squares_of(c);
        } else if stands_for_piece(c) {
            if file >= 8 {
                return false;
            }
            file += 1;
            white_king = white_king || c == 'K';
            black_king = black_king || c == 'k';
        } else {
            return false;
        }
        at += 1;
    }
    ranks == 7 && file == 8 && white_king && black_king
}

} // verus!
