//! Tests of the piece codec: the character mapping, the packed-byte layout,
//! and the color/type accessors.

use chessboard::piece::{Piece, PieceColor, PieceError, PieceType};

const ALL_CHARS: [char; 14] = [
    '#', '.', 'p', 'n', 'r', 'b', 'q', 'k', 'P', 'N', 'R', 'B', 'Q', 'K',
];

#[test]
fn encode_of_decode_is_identity_for_all_14_chars() {
    for &c in ALL_CHARS.iter() {
        let p = Piece::from_char(c).unwrap();
        assert_eq!(p.to_char().unwrap(), c);
    }
}

#[test]
fn decode_maps_to_expected_bytes() {
    assert_eq!(Piece::from_char('.').unwrap().0, 0);
    assert_eq!(Piece::from_char('p').unwrap().0, 1);
    assert_eq!(Piece::from_char('n').unwrap().0, 2);
    assert_eq!(Piece::from_char('r').unwrap().0, 3);
    assert_eq!(Piece::from_char('b').unwrap().0, 4);
    assert_eq!(Piece::from_char('q').unwrap().0, 5);
    assert_eq!(Piece::from_char('k').unwrap().0, 6);
    assert_eq!(Piece::from_char('#').unwrap().0, 128);
    assert_eq!(Piece::from_char('P').unwrap().0, 129);
    assert_eq!(Piece::from_char('N').unwrap().0, 130);
    assert_eq!(Piece::from_char('R').unwrap().0, 131);
    assert_eq!(Piece::from_char('B').unwrap().0, 132);
    assert_eq!(Piece::from_char('Q').unwrap().0, 133);
    assert_eq!(Piece::from_char('K').unwrap().0, 134);
}

#[test]
fn uppercase_r_decodes_to_rook() {
    let p = Piece::from_char('R').unwrap();
    assert_eq!(p.get_type().unwrap(), PieceType::Rook);
    assert_eq!(p.get_color(), PieceColor::White);
}

#[test]
fn from_char_rejects_unrecognized_characters() {
    assert_eq!(
        Piece::from_char('x'),
        Err(PieceError::UnrecognizedPieceChar { ch: 'x' })
    );
    assert_eq!(
        Piece::from_char(' '),
        Err(PieceError::UnrecognizedPieceChar { ch: ' ' })
    );
    assert_eq!(
        Piece::from_char('0'),
        Err(PieceError::UnrecognizedPieceChar { ch: '0' })
    );
}

#[test]
fn set_color_preserves_type_for_all_valid_pieces() {
    for code in 0u8..7 {
        for &byte in [code, code | 0x80].iter() {
            let p = Piece(byte);
            let t = p.get_type().unwrap();
            assert_eq!(p.set_color(PieceColor::White).get_type().unwrap(), t);
            assert_eq!(p.set_color(PieceColor::Dark).get_type().unwrap(), t);
        }
    }
}

#[test]
fn set_color_sets_the_color_for_all_valid_pieces() {
    for code in 0u8..7 {
        for &byte in [code, code | 0x80].iter() {
            let p = Piece(byte);
            assert_eq!(p.set_color(PieceColor::White).get_color(), PieceColor::White);
            assert_eq!(p.set_color(PieceColor::Dark).get_color(), PieceColor::Dark);
        }
    }
}

#[test]
fn set_color_packs_the_high_bit() {
    assert_eq!(Piece(3).set_color(PieceColor::White).0, 0x83);
    assert_eq!(Piece(0x83).set_color(PieceColor::Dark).0, 3);
    assert_eq!(Piece(0).set_color(PieceColor::White).0, 0x80);
    assert_eq!(Piece(0x80).set_color(PieceColor::Dark).0, 0);
}

#[test]
fn get_type_rejects_corrupt_bytes() {
    assert_eq!(
        Piece(7).get_type(),
        Err(PieceError::InvalidPieceEncoding { byte: 7 })
    );
    assert_eq!(
        Piece(0x87).get_type(),
        Err(PieceError::InvalidPieceEncoding { byte: 0x87 })
    );
    assert_eq!(
        Piece(200).get_type(),
        Err(PieceError::InvalidPieceEncoding { byte: 200 })
    );
}

#[test]
fn to_char_rejects_corrupt_bytes() {
    assert_eq!(
        Piece(42).to_char(),
        Err(PieceError::InvalidPieceEncoding { byte: 42 })
    );
}

#[test]
fn empty_squares_carry_a_display_color() {
    let light = Piece::from_char('#').unwrap();
    assert_eq!(light.get_type().unwrap(), PieceType::NoPiece);
    assert_eq!(light.get_color(), PieceColor::White);
    let dark = Piece::from_char('.').unwrap();
    assert_eq!(dark.get_type().unwrap(), PieceType::NoPiece);
    assert_eq!(dark.get_color(), PieceColor::Dark);
}
