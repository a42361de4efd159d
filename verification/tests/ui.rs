use std::str::FromStr;

use chess::Board;
use chessbot::ui::{display_board, lay_out};

fn strings(names: &[&str]) -> Vec<String> {
    names.iter().map(|s| s.to_string()).collect()
}

#[test]
fn start_position_in_plain_text() {
    let text = display_board(&Board::default(), true);
    assert_eq!(
        text,
        "RNBQKBNR\nPPPPPPPP\n        \n        \n        \n        \npppppppp\nrnbqkbnr\n"
    );
}

#[test]
fn first_rank_comes_first() {
    let board = Board::from_str("4k3/8/8/3q4/8/8/8/3RK3 w - - 0 1").unwrap();
    let text = display_board(&board, true);
    assert_eq!(
        text,
        "   RK   \n        \n        \n        \n   q    \n        \n        \n    k   \n"
    );
}

#[test]
fn every_kind_of_piece_has_its_letter() {
    let board = Board::from_str("rnbqk3/p7/8/8/8/8/P7/RNBQK3 w - - 0 1").unwrap();
    let text = display_board(&board, true);
    assert_eq!(
        text,
        "RNBQK   \nP       \n        \n        \n        \n        \np       \nrnbqk   \n"
    );
}

#[test]
fn painted_board_is_plain_or_between_colour_codes() {
    // The switch is one for the whole process, so both settings are tried here, one after
    // the other.
    let board = Board::from_str("4k3/8/8/8/8/8/8/4K3 w - - 0 1").unwrap();
    colored::control::set_override(false);
    let plain = display_board(&board, false);
    colored::control::set_override(true);
    let painted = display_board(&board, false);
    colored::control::unset_override();
    assert_eq!(plain, display_board(&board, true));

    let white = |s: &str| format!("\u{1b}[37m{}\u{1b}[0m", s);
    let red = |s: &str| format!("\u{1b}[31m{}\u{1b}[0m", s);
    let mut expected = String::new();
    for rank in 0..8 {
        for file in 0..8 {
            if rank == 0 && file == 4 {
                expected += &white("K");
            } else if rank == 7 && file == 4 {
                expected += &red("k");
            } else {
                expected += &white(" ");
            }
        }
        expected += "\n";
    }
    assert_eq!(painted, expected);
}

#[test]
fn lay_out_breaks_the_line_after_every_eighth_cell() {
    let cells = strings(&["a", "b", "c", "d", "e", "f", "g", "h", "i", "j"]);
    assert_eq!(lay_out(&cells), "abcdefgh\nij");
    let cells = strings(&["1", "2", "3", "4", "5", "6", "7", "8"]);
    assert_eq!(lay_out(&cells), "12345678\n");
    assert_eq!(lay_out(&Vec::new()), "");
    assert_eq!(lay_out(&strings(&["xy", "", "z"])), "xyz");
}

#[test]
fn lay_out_keeps_cells_of_any_length() {
    let mut cells = Vec::new();
    for i in 0..16 {
        cells.push(format!("<{}>", i));
    }
    assert_eq!(
        lay_out(&cells),
        "<0><1><2><3><4><5><6><7>\n<8><9><10><11><12><13><14><15>\n"
    );
}
