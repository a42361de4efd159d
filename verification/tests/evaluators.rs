use std::str::FromStr;

use chess::Board;
use chessbot::evaluator::{EvalError, Evaluator, PointsEval, SimpleEval, SCORE_MAX, SCORE_MIN};
use chessbot::search::alphabeta::AlphaBeta;
use chessbot::search::simpleminmax::SimpleMinMax;
use chessbot::search::MoveSearch;

struct Failing;

impl Evaluator for Failing {
    fn evaluation(&self, _board: Board) -> Result<i32, EvalError> {
        Err(EvalError { message: String::from("no score") })
    }

    fn evaluate(&self, board: &Board) -> Result<i32, EvalError> {
        self.evaluation(*board)
    }
}

fn points(fen: &str) -> i32 {
    PointsEval::new().evaluate(&Board::from_str(fen).unwrap()).unwrap()
}

#[test]
fn score_range_is_symmetric() {
    assert_eq!(SCORE_MAX, i32::MAX);
    assert_eq!(SCORE_MIN, -i32::MAX);
}

#[test]
fn points_eval_start_position_is_level() {
    assert_eq!(PointsEval::new().evaluate(&Board::default()).unwrap(), 0);
}

#[test]
fn points_eval_counts_each_kind_with_its_value() {
    // Kings only.
    assert_eq!(points("4k3/8/8/8/8/8/8/4K3 w - - 0 1"), 0);
    // One extra white piece of each kind in turn.
    assert_eq!(points("4k3/8/8/8/8/8/P7/4K3 w - - 0 1"), 1);
    assert_eq!(points("4k3/8/8/8/8/8/8/N3K3 w - - 0 1"), 3);
    assert_eq!(points("4k3/8/8/8/8/8/8/B3K3 w - - 0 1"), 3);
    assert_eq!(points("4k3/8/8/8/8/8/8/R3K3 w - - 0 1"), 5);
    assert_eq!(points("4k3/8/8/8/8/8/8/Q3K3 w - - 0 1"), 9);
    // One extra black piece of each kind in turn.
    assert_eq!(points("4k3/p7/8/8/8/8/8/4K3 w - - 0 1"), -1);
    assert_eq!(points("n3k3/8/8/8/8/8/8/4K3 w - - 0 1"), -3);
    assert_eq!(points("b3k3/8/8/8/8/8/8/4K3 w - - 0 1"), -3);
    assert_eq!(points("r3k3/8/8/8/8/8/8/4K3 w - - 0 1"), -5);
    assert_eq!(points("q3k3/8/8/8/8/8/8/4K3 w - - 0 1"), -9);
}

#[test]
fn points_eval_sums_all_the_pieces() {
    // White has only its king; Black has 8 pawns, 2 knights, 2 bishops, 2 rooks and a queen.
    assert_eq!(points("rnbqkbnr/pppppppp/8/8/8/8/8/4K3 w - - 0 1"), -39);
    assert_eq!(points("rnbqkbnr/pppppppp/8/8/8/8/8/4K3 b - - 0 1"), 39);
    // Rook against queen.
    assert_eq!(points("4k3/8/8/3q4/8/8/8/3RK3 w - - 0 1"), -4);
    assert_eq!(points("4k3/8/8/3q4/8/8/8/3RK3 b - - 0 1"), 4);
}

#[test]
fn points_eval_is_relative_to_the_side_to_move() {
    let white = points("r1bqkbnr/pppp1ppp/2n5/4p3/2B1P3/5N2/PPPP1PPP/RNBQK2R w KQkq - 3 3");
    let black = points("r1bqkbnr/pppp1ppp/2n5/4p3/2B1P3/5N2/PPPP1PPP/RNBQK2R b KQkq - 3 3");
    assert_eq!(white, 0);
    assert_eq!(black, 0);
    let white = points("4k3/8/8/8/8/8/PPP5/4K3 w - - 0 1");
    let black = points("4k3/8/8/8/8/8/PPP5/4K3 b - - 0 1");
    assert_eq!(white, 3);
    assert_eq!(black, -3);
}

#[test]
fn exchanging_the_colours_negates_the_material_score() {
    // Rook and king against queen and king, then the colours exchanged, White to move in both.
    let first = points("4k3/8/8/3q4/8/8/8/3RK3 w - - 0 1");
    let second = points("3rk3/8/8/8/3Q4/8/8/4K3 w - - 0 1");
    assert_eq!(first, -4);
    assert_eq!(second, 4);
    assert_eq!(second, -first);
}

#[test]
fn changing_the_side_to_move_negates_the_material_score() {
    let first = points("4k3/8/8/3q4/8/8/8/3RK3 w - - 0 1");
    let second = points("4k3/8/8/3q4/8/8/8/3RK3 b - - 0 1");
    assert_eq!(second, -first);
}

#[test]
fn mirroring_colours_and_side_to_move_keeps_the_material_score() {
    let first = points("4k3/8/8/3q4/8/8/8/3RK3 w - - 0 1");
    let second = points("3rk3/8/8/8/3Q4/8/8/4K3 b - - 0 1");
    assert_eq!(first, -4);
    assert_eq!(second, first);
}

#[test]
fn simple_eval_is_zero() {
    let eval = SimpleEval::new();
    let board = Board::from_str("4k3/8/8/3q4/8/8/8/3RK3 w - - 0 1").unwrap();
    assert_eq!(eval.evaluate(&board).unwrap(), 0);
    assert_eq!(eval.evaluate(&Board::default()).unwrap(), 0);
}

#[test]
fn evaluator_failure_aborts_the_alpha_beta_search() {
    let mut searcher = AlphaBeta::new(2, 0, Failing);
    let r = searcher.search(&Board::default());
    assert_eq!(r.unwrap_err().message, "no score");
}

#[test]
fn evaluator_failure_aborts_the_full_width_search() {
    let mut searcher = SimpleMinMax::new(2, 0, Failing);
    let r = searcher.search(&Board::default());
    assert_eq!(r.unwrap_err().message, "no score");
}

#[test]
fn evaluator_is_not_asked_where_there_is_no_move() {
    // Stalemate: the root has no candidate, so the failing evaluator is never called.
    let board = Board::from_str("7k/5Q2/6K1/8/8/8/8/8 b - - 0 1").unwrap();
    let mut searcher = AlphaBeta::new(2, 0, Failing);
    assert!(searcher.search(&board).unwrap().is_none());
}

#[test]
fn boxed_evaluator_scores_as_what_it_holds() {
    let board = Board::from_str("4k3/8/8/3q4/8/8/8/3RK3 w - - 0 1").unwrap();
    let boxed = Box::new(PointsEval::new());
    assert_eq!(boxed.evaluate(&board).unwrap(), -4);
    let chosen: Box<dyn Evaluator> = Box::new(PointsEval::new());
    assert_eq!(chosen.evaluate(&board).unwrap(), -4);
    let failing: Box<dyn Evaluator> = Box::new(Failing);
    assert_eq!(failing.evaluate(&board).unwrap_err().message, "no score");
}

#[test]
fn searcher_takes_an_evaluator_chosen_at_run_time() {
    let board = Board::from_str("4k3/8/8/3q4/8/8/8/3RK3 w - - 0 1").unwrap();
    for material in [true, false] {
        let eval: Box<dyn Evaluator> =
            if material { Box::new(PointsEval::new()) } else { Box::new(SimpleEval::new()) };
        let mut searcher = AlphaBeta::new(1, 0, eval);
        let chosen = searcher.search(&board).unwrap().unwrap();
        assert_eq!(chosen.chessmove.to_string(), "d1d5");
        assert_eq!(chosen.score, if material { 5 } else { 0 });
    }
}
