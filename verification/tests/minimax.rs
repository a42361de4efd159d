use std::str::FromStr;

use chess::{Board, ChessMove, MoveGen, Square};
use chessbot::evaluator::{Evaluator, PointsEval, SimpleEval};
use chessbot::search::simpleminmax::SimpleMinMax;
use chessbot::search::{moves_to_examine, MoveSearch};

const START: &str = "rnbqkbnr/pppppppp/8/8/8/8/PPPPPPPP/RNBQKBNR w KQkq - 0 1";
const HANGING_QUEEN: &str = "4k3/8/8/3q4/8/8/8/3QK3 w - - 0 1";
const ITALIAN: &str = "r1bqkbnr/pppp1ppp/2n5/4p3/2B1P3/5N2/PPPP1PPP/RNBQK2R b KQkq - 3 3";
const SCANDINAVIAN: &str = "rnbqkbnr/ppp1pppp/8/3p4/4P3/8/PPPP1PPP/RNBQKBNR w KQkq d6 0 2";
const KIWIPETE: &str = "r3k2r/p1ppqpb1/bn2pnp1/3PN3/1p2P3/2N2Q1p/PPPBBPPP/R3K2R w KQkq - 0 1";
const EN_PASSANT: &str = "rnbqkbnr/ppp1p1pp/8/3pPp2/8/8/PPPP1PPP/RNBQKBNR w KQkq f6 0 3";
const STALEMATE: &str = "7k/5Q2/6K1/8/8/8/8/8 b - - 0 1";
const CHECKMATE: &str = "7k/6Q1/6K1/8/8/8/8/8 b - - 0 1";

fn board(fen: &str) -> Board {
    Board::from_str(fen).unwrap()
}

fn best(fen: &str, depth: i32, capture_depth: i32) -> Option<(String, i32)> {
    let mut searcher = SimpleMinMax::new(depth, capture_depth, PointsEval::new());
    searcher.search(&board(fen)).unwrap().map(|m| (m.chessmove.to_string(), m.score))
}

/// Negamax written out plainly, to hold the searcher against.
fn plain_negamax(position: &Board, depth: i32, capture_depth: i32) -> i32 {
    let eval = PointsEval::new();
    if depth <= -capture_depth {
        return eval.evaluate(position).unwrap();
    }
    let mut best: Option<i32> = None;
    for m in MoveGen::new_legal(position) {
        if depth <= 0 && position.piece_on(m.get_dest()).is_none() {
            continue;
        }
        let score = -plain_negamax(&position.make_move_new(m), depth - 1, capture_depth);
        if best.map_or(true, |b| score > b) {
            best = Some(score);
        }
    }
    match best {
        Some(score) => score,
        None => eval.evaluate(position).unwrap(),
    }
}

#[test]
fn new_keeps_its_arguments() {
    let searcher = SimpleMinMax::new(4, 7, SimpleEval::new());
    assert_eq!(searcher.max_depth, 4);
    assert_eq!(searcher.max_capture_depth, 7);
}

#[test]
fn full_width_known_choices() {
    assert_eq!(best(START, 1, 0), Some((String::from("a2a3"), 0)));
    assert_eq!(best(START, 2, 0), Some((String::from("a2a3"), 0)));
    assert_eq!(best(HANGING_QUEEN, 1, 0), Some((String::from("d1d5"), 9)));
    assert_eq!(best(HANGING_QUEEN, 0, 1), Some((String::from("d1d5"), 9)));
    assert_eq!(best(ITALIAN, 1, 0), Some((String::from("a7a5"), 0)));
    assert_eq!(best(ITALIAN, 2, 0), Some((String::from("a7a5"), -1)));
    assert_eq!(best(ITALIAN, 2, 1), Some((String::from("g8f6"), 1)));
    assert_eq!(best(SCANDINAVIAN, 1, 0), Some((String::from("e4d5"), 1)));
    assert_eq!(best(SCANDINAVIAN, 2, 0), Some((String::from("e4d5"), 0)));
    assert_eq!(best(SCANDINAVIAN, 2, 1), Some((String::from("f1b5"), 1)));
}

#[test]
fn full_width_search_finds_no_move_where_none_is_legal() {
    for (depth, capture_depth) in [(0, 0), (0, 1), (1, 0), (2, 1)] {
        assert_eq!(best(STALEMATE, depth, capture_depth), None);
        assert_eq!(best(CHECKMATE, depth, capture_depth), None);
    }
}

#[test]
fn full_width_search_at_depth_zero_examines_captures_only() {
    assert_eq!(best(START, 0, 0), None);
    assert_eq!(best(START, 0, 2), None);
    assert_eq!(best(HANGING_QUEEN, 0, 0), None);
    assert_eq!(best(SCANDINAVIAN, 0, 1), Some((String::from("e4d5"), 1)));
}

#[test]
fn score_is_the_best_move_s_or_the_evaluation() {
    let searcher = SimpleMinMax::new(2, 1, PointsEval::new());
    assert_eq!(searcher.score(&board(HANGING_QUEEN), 1).unwrap(), 9);
    assert_eq!(searcher.score(&board(HANGING_QUEEN), 0).unwrap(), 9);
    // Past the capture extension the evaluator scores the position.
    assert_eq!(searcher.score(&board(HANGING_QUEEN), -1).unwrap(), 0);
    // No move to examine: the evaluator scores the position.
    assert_eq!(searcher.score(&board(START), 0).unwrap(), 0);
    assert_eq!(searcher.score(&board(CHECKMATE), 2).unwrap(), -9);
    assert_eq!(searcher.score(&board(STALEMATE), 2).unwrap(), -9);
}

#[test]
fn searcher_matches_plain_negamax() {
    let cases = [
        (START, 2, 0),
        (ITALIAN, 2, 0),
        (ITALIAN, 2, 1),
        (SCANDINAVIAN, 2, 2),
        (SCANDINAVIAN, 3, 0),
        (HANGING_QUEEN, 3, 1),
        (EN_PASSANT, 2, 1),
    ];
    for (fen, depth, capture_depth) in cases.iter() {
        let position = board(fen);
        let searcher = SimpleMinMax::new(*depth, *capture_depth, PointsEval::new());
        assert_eq!(
            searcher.score(&position, *depth).unwrap(),
            plain_negamax(&position, *depth, *capture_depth)
        );
    }
}

#[test]
fn best_move_is_the_first_with_the_highest_score() {
    let position = board(SCANDINAVIAN);
    let searcher = SimpleMinMax::new(2, 0, PointsEval::new());
    let found = searcher.expand(&position, 2).unwrap().unwrap();
    let moves = moves_to_examine(&position, 2);
    let scores: Vec<i32> = moves
        .iter()
        .map(|m| -searcher.score(&position.make_move_new(*m), 1).unwrap())
        .collect();
    let highest = *scores.iter().max().unwrap();
    let first = scores.iter().position(|s| *s == highest).unwrap();
    assert_eq!(found.score, highest);
    assert_eq!(found.chessmove, moves[first]);
}

#[test]
fn of_equal_moves_the_first_legal_move_stays() {
    let position = board(SCANDINAVIAN);
    let mut searcher = SimpleMinMax::new(1, 0, SimpleEval::new());
    let chosen = searcher.search(&position).unwrap().unwrap();
    assert_eq!(chosen.chessmove.to_string(), "a2a3");
    assert_eq!(chosen.score, 0);
}

#[test]
fn search_leaves_the_searcher_unchanged() {
    let mut searcher = SimpleMinMax::new(2, 1, PointsEval::new());
    let first = searcher.search(&board(ITALIAN)).unwrap().unwrap();
    let second = searcher.search(&board(ITALIAN)).unwrap().unwrap();
    assert_eq!(searcher.max_depth, 2);
    assert_eq!(searcher.max_capture_depth, 1);
    assert_eq!((first.chessmove, first.score), (second.chessmove, second.score));
}

#[test]
fn moves_to_examine_above_the_horizon_are_the_legal_moves_in_order() {
    for fen in [START, ITALIAN, KIWIPETE, EN_PASSANT, STALEMATE].iter() {
        let position = board(fen);
        let legal: Vec<ChessMove> = MoveGen::new_legal(&position).collect();
        assert_eq!(moves_to_examine(&position, 1), legal);
        assert_eq!(moves_to_examine(&position, 5), legal);
    }
}

#[test]
fn moves_to_examine_at_the_horizon_land_on_pieces() {
    let position = board(KIWIPETE);
    let legal: Vec<ChessMove> = MoveGen::new_legal(&position).collect();
    let expected: Vec<ChessMove> =
        legal.iter().copied().filter(|m| position.piece_on(m.get_dest()).is_some()).collect();
    assert_eq!(expected.len(), 8);
    assert!(expected.len() < legal.len());
    for depth in [0, -1, -3] {
        let captures = moves_to_examine(&position, depth);
        assert_eq!(captures, expected);
        for m in captures.iter() {
            assert!(position.piece_on(m.get_dest()).is_some());
        }
    }
}

#[test]
fn moves_to_examine_leave_out_en_passant_at_the_horizon() {
    let position = board(EN_PASSANT);
    let en_passant = ChessMove::new(Square::E5, Square::F6, None);
    assert!(moves_to_examine(&position, 1).contains(&en_passant));
    assert!(moves_to_examine(&position, 0).is_empty());
}
