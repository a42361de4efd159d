use chess::Board;
use chessbot::engine::{ChessEngine, SelectError};
use chessbot::evaluator::{EvalError, Evaluator, PointsEval};
use chessbot::search::alphabeta::AlphaBeta;
use chessbot::search::simpleminmax::SimpleMinMax;
use chessbot::search::MoveSearch;

struct Failing;

impl Evaluator for Failing {
    fn evaluation(&self, _board: Board) -> Result<i32, EvalError> {
        Err(EvalError { message: String::from("no score") })
    }

    fn evaluate(&self, board: &Board) -> Result<i32, EvalError> {
        self.evaluation(*board)
    }
}

#[test]
fn select_move_writes_the_move_in_coordinate_notation() {
    let mut engine = ChessEngine::new(AlphaBeta::new(2, 0, PointsEval::new()));
    assert_eq!(engine.select_move("4k3/8/8/3q4/8/8/8/3QK3 w - - 0 1").unwrap(), "d1d5");
    assert_eq!(
        engine.select_move("rnbqkbnr/pppppppp/8/8/8/8/PPPPPPPP/RNBQKBNR w KQkq - 0 1").unwrap(),
        "a2a3"
    );
}

#[test]
fn select_move_writes_a_promotion_with_its_piece() {
    // The pawn promotes to a queen: nine points more than any other move.
    let mut engine = ChessEngine::new(AlphaBeta::new(1, 0, PointsEval::new()));
    assert_eq!(engine.select_move("8/P6k/8/8/8/8/8/K7 w - - 0 1").unwrap(), "a7a8q");
}

#[test]
fn select_move_works_with_the_full_width_searcher() {
    let mut engine = ChessEngine::new(SimpleMinMax::new(2, 1, PointsEval::new()));
    assert_eq!(engine.select_move("4k3/8/8/3q4/8/8/8/3QK3 w - - 0 1").unwrap(), "d1d5");
}

const UNSOUND: &str = "failed to load board (fen probably corrupt): \
                       the piece placement is not eight ranks of eight squares with both kings";

#[test]
fn text_that_is_no_position_is_refused() {
    let mut engine = ChessEngine::new(AlphaBeta::new(2, 0, PointsEval::new()));
    for text in ["nonsense", "", " ", "4k3/8/8/8/8/8/8/4K3x w - - 0 1"] {
        let err = engine.select_move(text).unwrap_err();
        assert!(matches!(err, SelectError::BadPosition(_)));
        assert_eq!(err.message(), UNSOUND);
    }
    // The engine still works.
    assert_eq!(engine.select_move("4k3/8/8/3q4/8/8/8/3QK3 w - - 0 1").unwrap(), "d1d5");
}

#[test]
fn placement_without_both_kings_is_refused() {
    let mut engine = ChessEngine::new(AlphaBeta::new(2, 0, PointsEval::new()));
    let texts = [
        "8/8/8/8/8/8/8/8 w - - 0 1",
        "4k3/8/8/8/8/8/8/8 w - - 0 1",
        "8/8/8/8/8/8/8/4K3 b - - 0 1",
    ];
    for text in texts {
        assert_eq!(engine.select_move(text).unwrap_err().message(), UNSOUND);
    }
}

#[test]
fn placement_that_is_not_eight_ranks_of_eight_squares_is_refused() {
    let mut engine = ChessEngine::new(AlphaBeta::new(2, 0, PointsEval::new()));
    let texts = [
        // Nine squares in the first rank named: the ninth would take the king's place.
        "Kpppppppp/8/8/8/8/8/8/k7 w - - 0 1",
        // Seven squares in a rank.
        "4k3/8/8/8/8/8/8/4K2 w - - 0 1",
        // Seven ranks, and nine.
        "4k3/8/8/8/8/8/4K3 w - - 0 1",
        "4k3/8/8/8/8/8/8/8/4K3 w - - 0 1",
        // A digit that is no count of squares, and a letter that is no piece.
        "4k3/8/8/8/8/8/8/4K30 w - - 0 1",
        "4k3/8/8/8/8/8/8/4K2x w - - 0 1",
        "4k3/8/8/8/8/8/8/4K2/ w - - 0 1",
    ];
    for text in texts {
        assert_eq!(engine.select_move(text).unwrap_err().message(), UNSOUND);
    }
}

#[test]
fn text_that_the_rules_crate_cannot_read_is_refused_in_its_words() {
    let mut engine = ChessEngine::new(AlphaBeta::new(2, 0, PointsEval::new()));
    let err = engine.select_move("4k3/8/8/8/8/8/8/4K3").unwrap_err();
    assert_eq!(
        err.message(),
        "failed to load board (fen probably corrupt): Invalid FEN string: 4k3/8/8/8/8/8/8/4K3"
    );
    let err = engine.select_move("4k3/8/8/8/8/8/8/4K3 x - - 0 1").unwrap_err();
    assert!(matches!(err, SelectError::BadPosition(_)));
}

#[test]
fn position_with_more_than_sixteen_pieces_of_a_side_is_refused() {
    let mut engine = ChessEngine::new(AlphaBeta::new(2, 0, PointsEval::new()));
    let err = engine
        .select_move("k7/8/8/8/NNNNNNNN/NNNNNNNN/NNNNNNNN/K7 w - - 0 1")
        .unwrap_err();
    assert_eq!(
        err.message(),
        "failed to load board (fen probably corrupt): a side has more than 16 pieces"
    );
    // The side that is not to move counts too: it moves one ply later.
    let err = engine
        .select_move("k7/8/8/8/NNNNNNNN/NNNNNNNN/NNNNNNNN/K7 b - - 0 1")
        .unwrap_err();
    assert_eq!(
        err.message(),
        "failed to load board (fen probably corrupt): a side has more than 16 pieces"
    );
    // Sixteen are searched.
    assert!(engine.select_move("k7/8/8/8/8/NNNNNNN1/NNNNNNNN/K7 w - - 0 1").is_ok());
}

#[test]
fn position_that_breaks_the_rules_is_refused() {
    // The side not to move is in check.
    let mut engine = ChessEngine::new(AlphaBeta::new(2, 0, PointsEval::new()));
    let err = engine.select_move("4k3/8/8/8/8/8/4Q3/4K3 w - - 0 1").unwrap_err();
    match err {
        SelectError::BadPosition(reason) => {
            assert!(reason.starts_with("The board specified did not pass sanity checks"))
        }
        _ => panic!("not refused as a bad position"),
    }
}

#[test]
fn position_without_a_move_gives_no_move() {
    let mut engine = ChessEngine::new(AlphaBeta::new(2, 0, PointsEval::new()));
    for fen in ["7k/5Q2/6K1/8/8/8/8/8 b - - 0 1", "7k/6Q1/6K1/8/8/8/8/8 b - - 0 1"] {
        let err = engine.select_move(fen).unwrap_err();
        assert!(matches!(err, SelectError::NoMove));
        assert_eq!(err.message(), "No move found");
    }
}

#[test]
fn evaluator_s_error_is_reported_as_a_failed_search() {
    let mut engine = ChessEngine::new(AlphaBeta::new(2, 0, Failing));
    let err = engine.select_move("4k3/8/8/3q4/8/8/8/3QK3 w - - 0 1").unwrap_err();
    match &err {
        SelectError::SearchFailed(inner) => assert_eq!(inner.message, "no score"),
        _ => panic!("not reported as a failed search"),
    }
    assert_eq!(err.message(), "failed to generate move: no score");
}

#[test]
fn messages_of_the_errors() {
    assert_eq!(
        SelectError::BadPosition(String::from("why")).message(),
        "failed to load board (fen probably corrupt): why"
    );
    assert_eq!(SelectError::NoMove.message(), "No move found");
    assert_eq!(
        SelectError::SearchFailed(EvalError { message: String::from("x") }).message(),
        "failed to generate move: x"
    );
}

#[test]
fn engine_takes_a_searcher_chosen_at_run_time() {
    for pruned in [true, false] {
        let searcher: Box<dyn MoveSearch> = if pruned {
            Box::new(AlphaBeta::new(2, 1, PointsEval::new()))
        } else {
            Box::new(SimpleMinMax::new(2, 1, PointsEval::new()))
        };
        let mut engine = ChessEngine::new(searcher);
        assert_eq!(engine.select_move("4k3/8/8/3q4/8/8/8/3QK3 w - - 0 1").unwrap(), "d1d5");
    }
}

#[test]
fn boxed_searcher_searches_as_what_it_holds() {
    let board = Board::default();
    let mut boxed: Box<dyn MoveSearch> = Box::new(AlphaBeta::new(2, 0, PointsEval::new()));
    let chosen = boxed.search(&board).unwrap().unwrap();
    assert_eq!(chosen.chessmove.to_string(), "a2a3");
    assert_eq!(chosen.score, 0);
}

#[test]
fn capture_in_passing_that_leaves_the_mover_in_check_is_no_trap() {
    // Black is in check by the knight, and the generator still offers the capture in
    // passing, after which the position is not sane.
    let text = "4k3/8/3N4/8/3pP3/8/8/4K3 b - e3 0 1";
    for (depth, capture_depth) in [(1, 0), (2, 0), (2, 7), (3, 2)] {
        let mut engine = ChessEngine::new(AlphaBeta::new(depth, capture_depth, PointsEval::new()));
        let chosen = engine.select_move(text).unwrap();
        assert!(chosen.len() == 4 || chosen.len() == 5);
        let mut engine =
            ChessEngine::new(SimpleMinMax::new(depth, capture_depth, PointsEval::new()));
        assert!(engine.select_move(text).is_ok());
    }
}

#[test]
fn capture_in_passing_onto_a_piece_is_no_trap() {
    // The square that the pawn passed over holds Black's own bishop.
    let text = "8/8/8/8/3pPk2/4b3/8/K7 b - e3 0 1";
    for (depth, capture_depth) in [(1, 0), (2, 0), (2, 7), (3, 2)] {
        let mut engine = ChessEngine::new(AlphaBeta::new(depth, capture_depth, PointsEval::new()));
        let chosen = engine.select_move(text).unwrap();
        assert!(chosen.len() == 4 || chosen.len() == 5);
        let mut engine =
            ChessEngine::new(SimpleMinMax::new(depth, capture_depth, PointsEval::new()));
        assert!(engine.select_move(text).is_ok());
    }
}
