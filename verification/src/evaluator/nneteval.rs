//! What the scoring network needs from this library: its input for a
//! position, and the names of the tensors that make up its layers.
//!
//! The input is a position as 774 on-off values. The first six say who is to
//! move and who may still castle where. The other 768 are twelve for each
//! square, in the order of the squares' numbers: six for a black piece of each
//! kind, then six for a white one.
//!
//! A layer is a tensor whose name starts with a given prefix and ends in
//! `.weight`, together with the tensor whose name has `.bias` in that place.

use crate::rules::{
    castle_rights, castle_rights_of, color_on, index_of_square, make_square, mover, piece_at,
    piece_on, side_at, side_to_move, square_at, PieceKind, Side,
};
use vstd::prelude::*;

verus! {

/// The number of values that precede those of the squares.
pub const BOARD_OFFSET: usize = 6;

/// The number of values.
pub const INPUT_SIZE: usize = 774;

/// Where a piece of a colour stands among the twelve values of its square.
pub open spec fn colour_offset(side: Side) -> int {
    match side {
        Side::White => 6,
        Side::Black => 0,
    }
}

/// Where a kind of piece stands among the six values of its colour.
pub open spec fn piece_offset(kind: PieceKind) -> int {
    match kind {
        PieceKind::Pawn => 0,
        PieceKind::Knight => 1,
        PieceKind::Bishop => 2,
        PieceKind::Rook => 3,
        PieceKind::Queen => 4,
        PieceKind::King => 5,
    }
}

/// The kind of piece that stands at an offset from 0 to 5.
pub open spec fn kind_at_offset(offset: int) -> PieceKind {
    if offset == 0 {
        PieceKind::Pawn
    } else if offset == 1 {
        PieceKind::Knight
    } else if offset == 2 {
        PieceKind::Bishop
    } else if offset == 3 {
        PieceKind::Rook
    } else if offset == 4 {
        PieceKind::Queen
    } else {
        PieceKind::King
    }
}

/// The value at `index`, from 0 to 773, of the input for a position.
pub open spec fn input_value(board: chess::Board, index: int) -> bool {
    if index == 0 {
        side_to_move(board) == Side::White
    } else if index == 1 {
        side_to_move(board) == Side::Black
    } else if index == 2 {
        castle_rights_of(board, Side::White).kingside()
    } else if index == 3 {
        castle_rights_of(board, Side::White).queenside()
    } else if index == 4 {
        castle_rights_of(board, Side::Black).kingside()
    } else if index == 5 {
        castle_rights_of(board, Side::Black).queenside()
    } else {
        let number = (index - 6) / 12;
        let slot = (index - 6) % 12;
        let square = square_at((number / 8) as usize, (number % 8) as usize);
        let side = if slot >= 6 {
            Side::White
        } else {
            Side::Black
        };
        &&& piece_at(board, square) == Some(kind_at_offset(slot % 6))
        &&& side_at(board, square) == Some(side)
    }
}

/// Whether the loops over files and, within a file, over ranks have passed
/// the square that the value at `index` belongs to, on reaching `file` and
/// `rank`.
spec fn passed(index: int, file: int, rank: int) -> bool {
    let number = (index - 6) / 12;
    number % 8 < file || (number % 8 == file && number / 8 < rank)
}

/// The input of the network for a position.
pub fn board_to_input(board: &chess::Board) -> (input: Vec<bool>)
    ensures
        input@.len() == INPUT_SIZE,
        forall|i: int| 0 <= i < INPUT_SIZE ==> input@[i] == input_value(*board, i),
{
    let mut input: Vec<bool> = Vec::new();
    let white_to_move = match mover(board) {
        Side::White => true,
        Side::Black => false,
    };
    input.push(white_to_move);
    input.push(!white_to_move);
    input.push(castle_rights(board, Side::White).has_kingside());
    input.push(castle_rights(board, Side::White).has_queenside());
    input.push(castle_rights(board, Side::Black).has_kingside());
    input.push(castle_rights(board, Side::Black).has_queenside());
    let offset = input.len();
    while input.len() < 64 * 6 * 2 + offset
        invariant
            offset == 6,
            6 <= input@.len() <= 774,
            forall|i: int| 0 <= i < 6 ==> #[trigger] input@[i] == input_value(*board, i),
            forall|i: int| 6 <= i < input@.len() ==> !#[trigger] input@[i],
        decreases 774 - input@.len(),
    {
        input.push(false);
    }

    let mut file: usize = 0;
    while file < 8
        invariant
            offset == 6,
            file <= 8,
            input@.len() == 774,
            forall|i: int| 0 <= i < 6 ==> #[trigger] input@[i] == input_value(*board, i),
            forall|i: int|
                6 <= i < 774 ==> #[trigger] input@[i] == (passed(i, file as int, 0) && input_value(
                    *board,
                    i,
                )),
        decreases 8 - file,
    {
        let mut rank: usize = 0;
        while rank < 8
            invariant
                offset == 6,
                file < 8,
                rank <= 8,
                input@.len() == 774,
                forall|i: int| 0 <= i < 6 ==> #[trigger] input@[i] == input_value(*board, i),
                forall|i: int|
                    6 <= i < 774 ==> #[trigger] input@[i] == (passed(i, file as int, rank as int)
                        && input_value(*board, i)),
            decreases 8 - rank,
        {
            let sq = make_square(rank, file);
            let found = piece_on(board, sq);
            let owner = color_on(board, sq);
            if let (Some(piece), Some(color)) = (found, owner) {
                let color_offset: usize = match color {
                    Side::White => 6,
                    Side::Black => 0,
                };
                let piece_offset: usize = match piece {
                    PieceKind::Pawn => 0,
                    PieceKind::Knight => 1,
                    PieceKind::Bishop => 2,
                    PieceKind::Rook => 3,
                    PieceKind::Queen => 4,
                    PieceKind::King => 5,
                };
                let number = index_of_square(sq) as usize;
                input.set(offset + number * 12 + color_offset + piece_offset, true);
            }
            proof {
                // Of the values of this square only the one just written is
                // set; those of the other squares are as they were.
                assert forall|i: int| 6 <= i < 774 implies #[trigger] input@[i] == (passed(
                    i,
                    file as int,
                    rank + 1,
                ) && input_value(*board, i)) by {
                    if (i - 6) / 12 != rank * 8 + file {
                        assert(passed(i, file as int, rank + 1) == passed(
                            i,
                            file as int,
                            rank as int,
                        ));
                    }
                }
            }
            rank += 1;
        }
        file += 1;
    }
    input
}

/// The text with every occurrence of `from` replaced by `to`, found from left
/// to right without overlap. `from` is not empty.
pub open spec fn replaced(text: Seq<char>, from: Seq<char>, to: Seq<char>) -> Seq<char>
    decreases text.len(),
{
    if from.len() == 0 || text.len() < from.len() {
        text
    } else if from.is_prefix_of(text) {
        to + replaced(text.skip(from.len() as int), from, to)
    } else {
        seq![text[0]] + replaced(text.skip(1), from, to)
    }
}

/// Calls `str::starts_with` with a string as the pattern: whether the text
/// begins with it.
#[verifier::external_body]
fn starts_with(text: &str, prefix: &str) -> (r: bool)
    ensures
        r == prefix@.is_prefix_of(text@),
{
    text.starts_with(prefix)
}

/// Calls `str::ends_with` with a string as the pattern: whether the text ends
/// with it.
#[verifier::external_body]
fn ends_with(text: &str, suffix: &str) -> (r: bool)
    ensures
        r == suffix@.is_suffix_of(text@),
{
    text.ends_with(suffix)
}

/// Calls `str::replace` with a string as the pattern: every match, from left
/// to right and without overlap, gives way to the replacement.
#[verifier::external_body]
fn replace(text: &str, from: &str, to: &str) -> (r: String)
    requires
        from@.len() > 0,
    ensures
        r@ == replaced(text@, from@, to@),
{
    text.replace(from, to)
}

/// The names of the two tensors of a layer.
#[derive(Debug)]
pub struct LayerNames {
    /// The name of the weight tensor.
    pub weight: String,
    /// The name of the bias tensor.
    pub bias: String,
}

/// A weight tensor without a bias tensor.
#[derive(Debug)]
pub struct MissingBias {
    /// The name of the weight tensor.
    pub key: String,
}

impl MissingBias {
    /// The error in words.
    pub fn message(&self) -> (r: String)
        ensures
            r@ == "Failed to find bias for key "@ + self.key@,
    {
        let mut out = "Failed to find bias for key ".to_owned();
        out.append(self.key.as_str());
        out
    }
}

/// Whether a tensor name is that of a layer's weight.
pub open spec fn is_weight_name(name: Seq<char>, prefix: Seq<char>) -> bool {
    prefix.is_prefix_of(name) && ".weight"@.is_suffix_of(name)
}

/// The name of the bias tensor that goes with a weight tensor.
pub open spec fn bias_name(weight: Seq<char>) -> Seq<char> {
    replaced(weight, ".weight"@, ".bias"@)
}

/// The layers among the first `count` names, in order, as pairs of weight
/// name and bias name; or the first weight name among them whose bias name is
/// not among all the names.
pub open spec fn layers_among(names: Seq<Seq<char>>, prefix: Seq<char>, count: int) -> Result<
    Seq<(Seq<char>, Seq<char>)>,
    Seq<char>,
>
    decreases count,
{
    if count <= 0 {
        Ok(Seq::empty())
    } else {
        match layers_among(names, prefix, count - 1) {
            Err(weight) => Err(weight),
            Ok(layers) => {
                let name = names[count - 1];
                if !is_weight_name(name, prefix) {
                    Ok(layers)
                } else if names.contains(bias_name(name)) {
                    Ok(layers.push((name, bias_name(name))))
                } else {
                    Err(name)
                }
            },
        }
    }
}

/// A weight without a bias among the first names is still the answer when
/// more names are looked at.
proof fn lemma_missing_bias_stays(
    names: Seq<Seq<char>>,
    prefix: Seq<char>,
    count: int,
    more: int,
)
    requires
        layers_among(names, prefix, count) is Err,
        count <= more,
    ensures
        layers_among(names, prefix, more) == layers_among(names, prefix, count),
    decreases more - count,
{
    if count < more {
        lemma_missing_bias_stays(names, prefix, count, more - 1);
    }
}

/// The texts of a vector of strings.
pub open spec fn names_of(keys: Seq<String>) -> Seq<Seq<char>> {
    Seq::new(keys.len(), |i: int| keys[i]@)
}

/// The texts of a vector of layer names.
pub open spec fn pairs_of(layers: Seq<LayerNames>) -> Seq<(Seq<char>, Seq<char>)> {
    Seq::new(layers.len(), |i: int| (layers[i].weight@, layers[i].bias@))
}

/// Whether `name` is one of the keys.
fn has_key(keys: &Vec<String>, name: &String) -> (r: bool)
    ensures
        r == names_of(keys@).contains(name@),
{
    let mut i: usize = 0;
    while i < keys.len()
        invariant
            i <= keys.len(),
            forall|j: int| 0 <= j < i ==> names_of(keys@)[j] != name@,
        decreases keys.len() - i,
    {
        if keys[i] == *name {
            assert(names_of(keys@)[i as int] == name@);
            return true;
        }
        i += 1;
    }
    false
}

/// Whether `first` comes before `second` in the order of strings: `first` is
/// a proper beginning of `second`, or at the first place where they differ
/// `first` has the character with the lesser code.
pub open spec fn comes_before(first: Seq<char>, second: Seq<char>) -> bool
    decreases first.len(),
{
    if second.len() == 0 {
        false
    } else if first.len() == 0 {
        true
    } else if first[0] != second[0] {
        (first[0] as u32) < (second[0] as u32)
    } else {
        comes_before(first.skip(1), second.skip(1))
    }
}

/// Whether the names are in ascending order, each before all that follow it.
pub open spec fn ascending(names: Seq<Seq<char>>) -> bool {
    forall|i: int, j: int|
        0 <= i < j < names.len() ==> comes_before(#[trigger] names[i], #[trigger] names[j])
}

/// What comes before a text that comes before a third comes before the
/// third.
pub proof fn lemma_comes_before_is_transitive(
    first: Seq<char>,
    second: Seq<char>,
    third: Seq<char>,
)
    requires
        comes_before(first, second),
        comes_before(second, third),
    ensures
        comes_before(first, third),
    decreases first.len(),
{
    if first.len() > 0 && first[0] == second[0] && second[0] == third[0] {
        lemma_comes_before_is_transitive(first.skip(1), second.skip(1), third.skip(1));
    }
}

/// Whether `first` comes before `second` in the order of strings.
pub fn text_comes_before(first: &str, second: &str) -> (r: bool)
    ensures
        r == comes_before(first@, second@),
{
    let first_length: usize = first.unicode_len();
    let second_length: usize = second.unicode_len();
    let mut at: usize = 0;
    assert(first@.skip(0) =~= first@ && second@.skip(0) =~= second@);
    while at < second_length
        invariant
            first_length == first@.len(),
            second_length == second@.len(),
            at <= first_length,
            at <= second_length,
            comes_before(first@.skip(at as int), second@.skip(at as int)) == comes_before(
                first@,
                second@,
            ),
        decreases second_length - at,
    {
        if at == first_length {
            return true;
        }
        let a = first.get_char(at);
        let b = second.get_char(at);
        if a != b {
            return (a as u32) < (b as u32);
        }
        proof {
            assert(first@.skip(at as int).skip(1) =~= first@.skip(at + 1));
            assert(second@.skip(at as int).skip(1) =~= second@.skip(at + 1));
        }
        at += 1;
    }
    false
}

/// Whether the keys are in ascending order.
pub fn keys_ascending(keys: &Vec<String>) -> (r: bool)
    ensures
        r == ascending(names_of(keys@)),
{
    let mut next: usize = 1;
    while next < keys.len()
        invariant
            1 <= next,
            forall|i: int, j: int|
                0 <= i < j < next && j < keys@.len() ==> comes_before(
                    #[trigger] names_of(keys@)[i],
                    #[trigger] names_of(keys@)[j],
                ),
        decreases keys.len() - next,
    {
        if !text_comes_before(keys[next - 1].as_str(), keys[next].as_str()) {
            assert(!comes_before(names_of(keys@)[next - 1], names_of(keys@)[next as int]));
            return false;
        }
        proof {
            assert forall|i: int| 0 <= i < next implies comes_before(
                #[trigger] names_of(keys@)[i],
                names_of(keys@)[next as int],
            ) by {
                if i < next - 1 {
                    lemma_comes_before_is_transitive(
                        names_of(keys@)[i],
                        names_of(keys@)[next - 1],
                        names_of(keys@)[next as int],
                    );
                }
            }
        }
        next += 1;
    }
    true
}

/// The names of the weight tensors of a vector of layers.
pub open spec fn weights_of(layers: Seq<LayerNames>) -> Seq<Seq<char>> {
    Seq::new(layers.len(), |i: int| layers[i].weight@)
}

/// The layers of the network among the tensors of an archive, in ascending
/// order of the names of their weight tensors. `keys` are the names of all the
/// tensors, in ascending order.
///
/// Fails at the first weight tensor that has no bias tensor.
pub fn layer_names(keys: &Vec<String>, prefix: &str) -> (r: Result<Vec<LayerNames>, MissingBias>)
    requires
        ascending(names_of(keys@)),
    ensures
        match layers_among(names_of(keys@), prefix@, keys@.len() as int) {
            Ok(pairs) => r matches Ok(layers) && pairs_of(layers@) == pairs,
            Err(weight) => r matches Err(missing) && missing.key@ == weight,
        },
        r matches Ok(layers) ==> ascending(weights_of(layers@)),
{
    let mut layers: Vec<LayerNames> = Vec::new();
    // The places of the chosen keys among all the keys.
    let ghost mut places: Seq<int> = Seq::empty();
    let mut i: usize = 0;
    assert(pairs_of(layers@) =~= Seq::empty());
    while i < keys.len()
        invariant
            i <= keys.len(),
            ascending(names_of(keys@)),
            layers_among(names_of(keys@), prefix@, i as int) == Ok::<
                Seq<(Seq<char>, Seq<char>)>,
                Seq<char>,
            >(pairs_of(layers@)),
            places.len() == layers@.len(),
            forall|a: int|
                0 <= a < places.len() ==> 0 <= #[trigger] places[a] < i && layers@[a].weight@
                    == names_of(keys@)[places[a]],
            forall|a: int, b: int|
                0 <= a < b < places.len() ==> #[trigger] places[a] < #[trigger] places[b],
        decreases keys.len() - i,
    {
        let key = &keys[i];
        if !starts_with(key.as_str(), prefix) || !ends_with(key.as_str(), ".weight") {
            i += 1;
            continue ;
        }
        proof {
            reveal_strlit(".weight");
        }
        let bias = replace(key.as_str(), ".weight", ".bias");
        if !has_key(keys, &bias) {
            proof {
                lemma_missing_bias_stays(
                    names_of(keys@),
                    prefix@,
                    i + 1,
                    keys@.len() as int,
                );
            }
            return Err(MissingBias { key: key.clone() });
        }
        let ghost before = pairs_of(layers@);
        layers.push(LayerNames { weight: key.clone(), bias });
        proof {
            places = places.push(i as int);
        }
        assert(pairs_of(layers@) =~= before.push((key@, bias_name(key@))));
        i += 1;
    }
    proof {
        assert forall|a: int, b: int| 0 <= a < b < layers@.len() implies comes_before(
            #[trigger] weights_of(layers@)[a],
            #[trigger] weights_of(layers@)[b],
        ) by {
            assert(places[a] < places[b]);
            assert(comes_before(names_of(keys@)[places[a]], names_of(keys@)[places[b]]));
        }
    }
    Ok(layers)
}

} // verus!
