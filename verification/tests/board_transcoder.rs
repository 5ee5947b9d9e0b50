//! Tests of the board transcoder: parsing, rendering, the textual round
//! trip, and the malformed-input errors.

use chessboard::board::{Board, BoardError, MalformedReason};
use chessboard::piece::{PieceColor, PieceType};

const DEMO: &str = "rnbkqbnr\npppppppp\n.#.#.#.#\n#.#.#.#.\n.#.#.#.#\n#.#.#.#.\nPPPPPPPP\nRNBKQBNR\n";

#[test]
fn demo_board_parses_with_rooks_in_the_corners() {
    let board = Board::from_string(DEMO).unwrap();
    let top_left = board.piece_at(0);
    assert_eq!(top_left.get_type().unwrap(), PieceType::Rook);
    assert_eq!(top_left.get_color(), PieceColor::Dark);
    let bottom_right = board.piece_at(63);
    assert_eq!(bottom_right.get_type().unwrap(), PieceType::Rook);
    assert_eq!(bottom_right.get_color(), PieceColor::White);
}

#[test]
fn demo_board_renders_back_to_its_text() {
    let board = Board::from_string(DEMO).unwrap();
    assert_eq!(Board::to_string(board), DEMO);
}

#[test]
fn parse_tolerates_leading_and_trailing_blank_lines() {
    let padded = format!("\n{}\n", DEMO);
    let board = Board::from_string(&padded).unwrap();
    assert_eq!(Board::to_string(board), DEMO);
}

#[test]
fn round_trip_on_a_second_normalized_board() {
    let text = "########\n........\n########\n........\n########\n........\n########\nkqKQrnbp\n";
    let board = Board::from_string(text).unwrap();
    assert_eq!(Board::to_string(board), text);
}

#[test]
fn parsed_boards_are_well_formed() {
    let board = Board::from_string(DEMO).unwrap();
    assert!(board.is_well_formed());
}

#[test]
fn parse_rejects_seven_rows() {
    let text = "rnbkqbnr\npppppppp\n.#.#.#.#\n#.#.#.#.\n.#.#.#.#\n#.#.#.#.\nPPPPPPPP\n";
    assert_eq!(
        Board::from_string(text).unwrap_err(),
        BoardError::MalformedBoard {
            reason: MalformedReason::WrongRowCount { got: 7 }
        }
    );
}

#[test]
fn parse_rejects_nine_rows() {
    let text = "rnbkqbnr\npppppppp\n.#.#.#.#\n#.#.#.#.\n.#.#.#.#\n#.#.#.#.\n........\nPPPPPPPP\nRNBKQBNR\n";
    assert_eq!(
        Board::from_string(text).unwrap_err(),
        BoardError::MalformedBoard {
            reason: MalformedReason::WrongRowCount { got: 9 }
        }
    );
}

#[test]
fn parse_rejects_a_nine_character_row() {
    let text = "rnbkqbnr\npppppppp\n.#.#.#.##\n#.#.#.#.\n.#.#.#.#\n#.#.#.#.\nPPPPPPPP\nRNBKQBNR\n";
    assert_eq!(
        Board::from_string(text).unwrap_err(),
        BoardError::MalformedBoard {
            reason: MalformedReason::WrongRowLength { row: 2, len: 9 }
        }
    );
}

#[test]
fn parse_rejects_a_seven_character_row() {
    let text = "rnbkqbnr\npppppppp\n.#.#.#.#\n#.#.#.#.\n.#.#.#.#\n#.#.#.#.\nPPPPPPP\nRNBKQBNR\n";
    assert_eq!(
        Board::from_string(text).unwrap_err(),
        BoardError::MalformedBoard {
            reason: MalformedReason::WrongRowLength { row: 6, len: 7 }
        }
    );
}

#[test]
fn parse_rejects_an_unrecognized_character_with_its_position() {
    let text = "rnbkqbnr\npppppppp\n.#.x.#.#\n#.#.#.#.\n.#.#.#.#\n#.#.#.#.\nPPPPPPPP\nRNBKQBNR\n";
    assert_eq!(
        Board::from_string(text).unwrap_err(),
        BoardError::UnrecognizedPieceChar {
            ch: 'x',
            row: 2,
            col: 3
        }
    );
}

#[test]
fn parse_reports_the_first_failure_in_reading_order() {
    // row 1 is short; the bad character in row 3 is never reached
    let text = "rnbkqbnr\npppp\n.#.#.#.#\n#.#.x.#.\n.#.#.#.#\n#.#.#.#.\nPPPPPPPP\nRNBKQBNR\n";
    assert_eq!(
        Board::from_string(text).unwrap_err(),
        BoardError::MalformedBoard {
            reason: MalformedReason::WrongRowLength { row: 1, len: 4 }
        }
    );
}

#[test]
fn parse_rejects_empty_input() {
    assert_eq!(
        Board::from_string("").unwrap_err(),
        BoardError::MalformedBoard {
            reason: MalformedReason::WrongRowCount { got: 0 }
        }
    );
}

#[test]
fn square_color_follows_the_checkerboard_pattern() {
    assert_eq!(Board::square_color(0), PieceColor::Dark);
    assert_eq!(Board::square_color(1), PieceColor::White);
    assert_eq!(Board::square_color(8), PieceColor::White);
    assert_eq!(Board::square_color(9), PieceColor::Dark);
    assert_eq!(Board::square_color(63), PieceColor::Dark);
    // the demo board's empty rows show exactly this pattern
    let board = Board::from_string(DEMO).unwrap();
    for index in 16usize..48 {
        let square = board.piece_at(index);
        assert_eq!(square.get_type().unwrap(), PieceType::NoPiece);
        assert_eq!(square.get_color(), Board::square_color(index));
    }
}
