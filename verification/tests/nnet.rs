use std::str::FromStr;

use chess::Board;
use chessbot::evaluator::nneteval::{
    board_to_input, keys_ascending, layer_names, text_comes_before, BOARD_OFFSET, INPUT_SIZE,
};

fn ones(fen: &str) -> Vec<usize> {
    let input = board_to_input(&Board::from_str(fen).unwrap());
    assert_eq!(input.len(), 774);
    input.iter().enumerate().filter(|(_, on)| **on).map(|(i, _)| i).collect()
}

fn strings(names: &[&str]) -> Vec<String> {
    names.iter().map(|s| s.to_string()).collect()
}

#[test]
fn input_sizes() {
    assert_eq!(INPUT_SIZE, 774);
    assert_eq!(BOARD_OFFSET, 6);
    assert_eq!(INPUT_SIZE, BOARD_OFFSET + 64 * 6 * 2);
}

#[test]
fn input_of_a_small_position() {
    // White: queen d1 (square 3), king e1 (4). Black: queen d5 (35), king e8 (60).
    // A white piece stands at 6 + 12 * square + 6 + kind, a black one at 6 + 12 * square + kind.
    assert_eq!(ones("4k3/8/8/3q4/8/8/8/3QK3 w - - 0 1"), vec![0, 52, 65, 430, 731]);
    assert_eq!(ones("4k3/8/8/3q4/8/8/8/3QK3 b - - 0 1"), vec![1, 52, 65, 430, 731]);
}

#[test]
fn input_tells_the_castling_rights() {
    // Rooks on h1 (square 7) and h8 (63): 6 + 12 * 7 + 6 + 3 and 6 + 12 * 63 + 3.
    assert_eq!(ones("4k2r/8/8/8/8/8/8/4K2R w - - 0 1"), vec![0, 65, 99, 731, 765]);
    assert_eq!(ones("4k2r/8/8/8/8/8/8/4K2R w K - 0 1"), vec![0, 2, 65, 99, 731, 765]);
    assert_eq!(ones("4k2r/8/8/8/8/8/8/4K2R w k - 0 1"), vec![0, 4, 65, 99, 731, 765]);
    assert_eq!(ones("4k2r/8/8/8/8/8/8/4K2R b Kk - 0 1"), vec![1, 2, 4, 65, 99, 731, 765]);
    // Rooks on a1 (square 0) and a8 (56): 6 + 6 + 3 and 6 + 12 * 56 + 3.
    assert_eq!(ones("r3k3/8/8/8/8/8/8/R3K3 w Q - 0 1"), vec![0, 3, 15, 65, 681, 731]);
    assert_eq!(ones("r3k3/8/8/8/8/8/8/R3K3 w q - 0 1"), vec![0, 5, 15, 65, 681, 731]);
    assert_eq!(ones("r3k3/8/8/8/8/8/8/R3K3 b Qq - 0 1"), vec![1, 3, 5, 15, 65, 681, 731]);
}

#[test]
fn input_of_the_start_position() {
    let found = ones("rnbqkbnr/pppppppp/8/8/8/8/PPPPPPPP/RNBQKBNR w KQkq - 0 1");
    let mut expected = vec![0, 2, 3, 4, 5];
    // Offsets of the kinds: pawn 0, knight 1, bishop 2, rook 3, queen 4, king 5.
    let back_rank = [3, 1, 2, 4, 5, 2, 1, 3];
    for file in 0..8 {
        expected.push(6 + 12 * file + 6 + back_rank[file]);
        expected.push(6 + 12 * (8 + file) + 6);
        expected.push(6 + 12 * (48 + file));
        expected.push(6 + 12 * (56 + file) + back_rank[file]);
    }
    expected.sort();
    assert_eq!(found.len(), 37);
    assert_eq!(found, expected);
}

#[test]
fn input_has_one_value_for_each_piece() {
    let found = ones("r3k2r/p1ppqpb1/bn2pnp1/3PN3/1p2P3/2N2Q1p/PPPBBPPP/R3K2R w KQkq - 0 1");
    // 32 pieces, the side to move and four castling rights.
    assert_eq!(found.len(), 32 + 1 + 4);
    // The white knight on e5 (square 36) and the black pawn on h3 (square 23).
    assert!(found.contains(&(6 + 12 * 36 + 6 + 1)));
    assert!(found.contains(&(6 + 12 * 23)));
}

fn sorted(names: &[&str]) -> Vec<String> {
    let mut keys = strings(names);
    keys.sort();
    keys.dedup();
    keys
}

#[test]
fn layers_are_the_weights_with_the_prefix_in_ascending_order() {
    let keys = sorted(&[
        "seq.linear-1.weight",
        "other.weight",
        "seq.linear-0.bias",
        "seq.linear-2.scale",
        "seq.linear-0.weight",
        "seq.linear-1.bias",
    ]);
    let layers = layer_names(&keys, "seq.linear-").unwrap();
    let pairs: Vec<(String, String)> =
        layers.into_iter().map(|l| (l.weight, l.bias)).collect();
    assert_eq!(
        pairs,
        vec![
            (String::from("seq.linear-0.weight"), String::from("seq.linear-0.bias")),
            (String::from("seq.linear-1.weight"), String::from("seq.linear-1.bias")),
        ]
    );
}

#[test]
fn layers_with_an_empty_prefix_are_all_the_weights() {
    let keys = sorted(&["b.weight", "a.bias", "a.weight", "b.bias"]);
    let layers = layer_names(&keys, "").unwrap();
    let weights: Vec<String> = layers.into_iter().map(|l| l.weight).collect();
    assert_eq!(weights, vec![String::from("a.weight"), String::from("b.weight")]);
}

#[test]
fn layers_come_in_the_order_of_strings() {
    // "10" comes before "2" in the order of strings, and capitals before small letters.
    let keys = sorted(&[
        "l.2.weight", "l.10.weight", "l.2.bias", "l.10.bias", "l.B.weight", "l.B.bias",
        "l.a.weight", "l.a.bias",
    ]);
    let layers = layer_names(&keys, "l.").unwrap();
    let weights: Vec<String> = layers.into_iter().map(|l| l.weight).collect();
    assert_eq!(weights, vec!["l.10.weight", "l.2.weight", "l.B.weight", "l.a.weight"]);
}

#[test]
fn weight_without_bias_is_an_error() {
    let keys = sorted(&["seq.linear-0.bias", "seq.linear-0.weight", "seq.linear-1.weight"]);
    let err = layer_names(&keys, "seq.linear-").unwrap_err();
    assert_eq!(err.key, "seq.linear-1.weight");
    assert_eq!(err.message(), "Failed to find bias for key seq.linear-1.weight");
}

#[test]
fn first_weight_without_bias_is_reported() {
    let keys = sorted(&["m.0.weight", "m.1.bias", "m.1.weight", "m.2.weight"]);
    let err = layer_names(&keys, "m.").unwrap_err();
    assert_eq!(err.key, "m.0.weight");
}

#[test]
fn keys_without_the_prefix_or_the_ending_are_no_layers() {
    let keys = sorted(&["x.weight", "seq.a.weights", "seq.a.weight.old", "seq", ".weight"]);
    assert!(layer_names(&keys, "seq.").unwrap().is_empty());
    assert!(layer_names(&Vec::new(), "seq.").unwrap().is_empty());
}

#[test]
fn every_weight_in_the_name_gives_way_to_bias() {
    // The bias name has `.bias` wherever the weight name has `.weight`.
    let keys = sorted(&["net.weight.0.weight", "net.bias.0.bias"]);
    let layers = layer_names(&keys, "net").unwrap();
    assert_eq!(layers.len(), 1);
    assert_eq!(layers[0].weight, "net.weight.0.weight");
    assert_eq!(layers[0].bias, "net.bias.0.bias");
    let keys = sorted(&["net.weight.0.weight", "net.weight.0.bias"]);
    assert_eq!(layer_names(&keys, "net").unwrap_err().key, "net.weight.0.weight");
}

#[test]
fn order_of_strings() {
    let names = ["", "a", "a.", "a.b", "ab", "b", "l.10", "l.2", "lB", "la", "\u{e9}", "\u{4e2d}"];
    for (i, first) in names.iter().enumerate() {
        for (j, second) in names.iter().enumerate() {
            assert_eq!(text_comes_before(first, second), i < j, "{:?} {:?}", first, second);
            assert_eq!(text_comes_before(first, second), first < second);
        }
    }
}

#[test]
fn ascending_keys() {
    assert!(keys_ascending(&Vec::new()));
    assert!(keys_ascending(&strings(&["only"])));
    assert!(keys_ascending(&strings(&["a.bias", "a.weight", "b.bias", "b.weight"])));
    assert!(keys_ascending(&sorted(&["l.2.weight", "l.10.weight", "l.B.weight", "l.a.weight"])));
    // Out of order, and the same name twice.
    assert!(!keys_ascending(&strings(&["b.weight", "a.weight"])));
    assert!(!keys_ascending(&strings(&["a.bias", "b.bias", "a.weight"])));
    assert!(!keys_ascending(&strings(&["a.weight", "a.weight"])));
    assert!(!keys_ascending(&strings(&["a", "b", "c", "c"])));
    assert!(!keys_ascending(&strings(&["l.2.weight", "l.10.weight"])));
}
