//! The piece codec: a square's occupant packed into one byte, and the
//! bidirectional mapping between that byte and a display character.
//!
//! Layout of the packed byte: bit 7 is the color flag (set = White, clear =
//! Dark); bits 0-6 are the type code, an integer in 0-6 selecting the piece
//! type. Any byte whose type code lies outside 0-6 is corrupt and is rejected
//! wherever it is reinterpreted.

use vstd::prelude::*;

verus! {

/// The color of a piece, or of an empty square (empty squares still carry a
/// display color, so that a board renders as a checkerboard).
#[derive(Clone, Copy, Debug, PartialEq, Eq, Structural)]
pub enum PieceColor {
    White,
    Dark,
}

/// What occupies a square; `NoPiece` marks an empty square.
#[derive(Clone, Copy, Debug, PartialEq, Eq, Structural)]
pub enum PieceType {
    NoPiece,
    Pawn,
    Knight,
    Rook,
    Bishop,
    Queen,
    King,
}

/// A failure of the piece codec.
#[derive(Clone, Copy, Debug, PartialEq, Eq, Structural)]
pub enum PieceError {
    /// The character is not one of the 14 recognized square characters.
    UnrecognizedPieceChar { ch: char },
    /// The packed byte's type code lies outside 0-6.
    InvalidPieceEncoding { byte: u8 },
}

/// A square's occupant, packed into one byte.
#[derive(Clone, Copy, Debug, PartialEq, Eq, Structural)]
pub struct Piece(pub u8);

/// The type code of a packed byte: bits 0-6.
pub open spec fn type_code(b: u8) -> int {
    b as int % 128
}

/// Whether the color flag (bit 7) of a packed byte is set.
pub open spec fn is_white(b: u8) -> bool {
    b as int >= 128
}

/// A packed byte is well formed when its type code selects a piece type.
pub open spec fn piece_wf(b: u8) -> bool {
    type_code(b) <= 6
}

/// The type code of each piece type.
pub open spec fn code_of_type(t: PieceType) -> int {
    match t {
        PieceType::NoPiece => 0,
        PieceType::Pawn => 1,
        PieceType::Knight => 2,
        PieceType::Rook => 3,
        PieceType::Bishop => 4,
        PieceType::Queen => 5,
        PieceType::King => 6,
    }
}

/// The piece type selected by a type code in 0-6.
pub open spec fn type_of_code(n: int) -> PieceType
    recommends
        0 <= n <= 6,
{
    if n == 0 {
        PieceType::NoPiece
    } else if n == 1 {
        PieceType::Pawn
    } else if n == 2 {
        PieceType::Knight
    } else if n == 3 {
        PieceType::Rook
    } else if n == 4 {
        PieceType::Bishop
    } else if n == 5 {
        PieceType::Queen
    } else {
        PieceType::King
    }
}

/// The value of the color flag for a color.
pub open spec fn color_bit_of(c: PieceColor) -> int {
    if c is White {
        128
    } else {
        0
    }
}

/// The piece type encoded in a packed byte.
pub open spec fn spec_type(b: u8) -> PieceType
    recommends
        piece_wf(b),
{
    type_of_code(type_code(b))
}

/// The color encoded in a packed byte.
pub open spec fn spec_color(b: u8) -> PieceColor {
    if is_white(b) {
        PieceColor::White
    } else {
        PieceColor::Dark
    }
}

/// A type and a color packed into one byte.
pub open spec fn packed(t: PieceType, c: PieceColor) -> u8 {
    (code_of_type(t) + color_bit_of(c)) as u8
}

/// A packed byte with its type code kept and its color flag set per `c`.
pub open spec fn spec_with_color(b: u8, c: PieceColor) -> u8 {
    (type_code(b) + color_bit_of(c)) as u8
}

/// The packed byte a display character decodes to, or `None` when the
/// character is not one of the 14 recognized ones. `#` and `.` are the empty
/// light and the empty dark square; the six piece letters come in two cases,
/// uppercase for White and lowercase for Dark.
pub open spec fn spec_decode(c: char) -> Option<u8> {
    if c == '#' {
        Some(packed(PieceType::NoPiece, PieceColor::White))
    } else if c == '.' {
        Some(packed(PieceType::NoPiece, PieceColor::Dark))
    } else if c == 'p' {
        Some(packed(PieceType::Pawn, PieceColor::Dark))
    } else if c == 'n' {
        Some(packed(PieceType::Knight, PieceColor::Dark))
    } else if c == 'r' {
        Some(packed(PieceType::Rook, PieceColor::Dark))
    } else if c == 'b' {
        Some(packed(PieceType::Bishop, PieceColor::Dark))
    } else if c == 'q' {
        Some(packed(PieceType::Queen, PieceColor::Dark))
    } else if c == 'k' {
        Some(packed(PieceType::King, PieceColor::Dark))
    } else if c == 'P' {
        Some(packed(PieceType::Pawn, PieceColor::White))
    } else if c == 'N' {
        Some(packed(PieceType::Knight, PieceColor::White))
    } else if c == 'R' {
        Some(packed(PieceType::Rook, PieceColor::White))
    } else if c == 'B' {
        Some(packed(PieceType::Bishop, PieceColor::White))
    } else if c == 'Q' {
        Some(packed(PieceType::Queen, PieceColor::White))
    } else if c == 'K' {
        Some(packed(PieceType::King, PieceColor::White))
    } else {
        None
    }
}

/// The display character of a well-formed packed byte.
pub open spec fn spec_encode(b: u8) -> char
    recommends
        piece_wf(b),
{
    match (spec_type(b), spec_color(b)) {
        (PieceType::NoPiece, PieceColor::White) => '#',
        (PieceType::NoPiece, PieceColor::Dark) => '.',
        (PieceType::Pawn, PieceColor::White) => 'P',
        (PieceType::Pawn, PieceColor::Dark) => 'p',
        (PieceType::Knight, PieceColor::White) => 'N',
        (PieceType::Knight, PieceColor::Dark) => 'n',
        (PieceType::Rook, PieceColor::White) => 'R',
        (PieceType::Rook, PieceColor::Dark) => 'r',
        (PieceType::Bishop, PieceColor::White) => 'B',
        (PieceType::Bishop, PieceColor::Dark) => 'b',
        (PieceType::Queen, PieceColor::White) => 'Q',
        (PieceType::Queen, PieceColor::Dark) => 'q',
        (PieceType::King, PieceColor::White) => 'K',
        (PieceType::King, PieceColor::Dark) => 'k',
    }
}

impl Piece {
    /// A packed byte is well formed when its type code selects a piece type.
    pub open spec fn wf(self) -> bool {
        piece_wf(self.0)
    }

    /// Packs a type and a color into one byte.
    pub fn new(t: PieceType, color: PieceColor) -> (p: Piece)
        ensures
            p.0 == packed(t, color),
            p.wf(),
            spec_type(p.0) == t,
            spec_color(p.0) == color,
    {
        let code: u8 = match t {
            PieceType::NoPiece => 0,
            PieceType::Pawn => 1,
            PieceType::Knight => 2,
            PieceType::Rook => 3,
            PieceType::Bishop => 4,
            PieceType::Queen => 5,
            PieceType::King => 6,
        };
        Piece(code).set_color(color)
    }

    /// Decodes one of the 14 recognized characters; any other character is
    /// rejected with `UnrecognizedPieceChar`.
    pub fn from_char(c: char) -> (r: Result<Piece, PieceError>)
        ensures
            r matches Ok(p) ==> spec_decode(c) == Some(p.0) && p.wf(),
            r matches Err(e) ==> spec_decode(c) is None && e == (PieceError::UnrecognizedPieceChar { ch: c }),
            (r is Ok) == (spec_decode(c) is Some),
    {
        match c {
            '#' => Ok(Piece::new(PieceType::NoPiece, PieceColor::White)),
            '.' => Ok(Piece::new(PieceType::NoPiece, PieceColor::Dark)),
            'r' => Ok(Piece::new(PieceType::Rook, PieceColor::Dark)),
            'n' => Ok(Piece::new(PieceType::Knight, PieceColor::Dark)),
            'p' => Ok(Piece::new(PieceType::Pawn, PieceColor::Dark)),
            'b' => Ok(Piece::new(PieceType::Bishop, PieceColor::Dark)),
            'q' => Ok(Piece::new(PieceType::Queen, PieceColor::Dark)),
            'k' => Ok(Piece::new(PieceType::King, PieceColor::Dark)),
            'R' => Ok(Piece::new(PieceType::Rook, PieceColor::White)),
            'N' => Ok(Piece::new(PieceType::Knight, PieceColor::White)),
            'P' => Ok(Piece::new(PieceType::Pawn, PieceColor::White)),
            'B' => Ok(Piece::new(PieceType::Bishop, PieceColor::White)),
            'Q' => Ok(Piece::new(PieceType::Queen, PieceColor::White)),
            'K' => Ok(Piece::new(PieceType::King, PieceColor::White)),
            _ => Err(PieceError::UnrecognizedPieceChar { ch: c }),
        }
    }

    /// Extracts the color flag (bit 7).
    pub fn get_color(&self) -> (c: PieceColor)
        ensures
            c == spec_color(self.0),
    {
        let n = self.0;
        proof {
            assert((n & 0x80u8 != 0) == (n >= 128)) by (bit_vector);
        }
        if n & 0x80 != 0 {
            PieceColor::White
        } else {
            PieceColor::Dark
        }
    }

    /// A new piece with bits 0-6 unchanged and bit 7 set per `color`.
    pub fn set_color(&self, color: PieceColor) -> (p: Piece)
        ensures
            p.0 == spec_with_color(self.0, color),
            type_code(p.0) == type_code(self.0),
            spec_color(p.0) == color,
    {
        let n = self.0;
        match color {
            PieceColor::White => {
                proof {
                    assert(n | 0x80u8 == n % 128 + 128) by (bit_vector);
                }
                Piece(n | 0x80)
            },
            PieceColor::Dark => {
                proof {
                    assert(n & 0x7fu8 == n % 128) by (bit_vector);
                }
                Piece(n & 0x7f)
            },
        }
    }

    /// Extracts and validates the type code (bits 0-6); a code outside 0-6 is
    /// rejected with `InvalidPieceEncoding`.
    pub fn get_type(&self) -> (r: Result<PieceType, PieceError>)
        ensures
            self.wf() ==> r == Ok::<PieceType, PieceError>(spec_type(self.0)),
            !self.wf() ==> r == Err::<PieceType, PieceError>(PieceError::InvalidPieceEncoding { byte: self.0 }),
    {
        let n = self.0;
        proof {
            assert(n & 0x7fu8 == n % 128) by (bit_vector);
        }
        // discard the color bit
        let code = n & 0x7f;
        match code {
            0 => Ok(PieceType::NoPiece),
            1 => Ok(PieceType::Pawn),
            2 => Ok(PieceType::Knight),
            3 => Ok(PieceType::Rook),
            4 => Ok(PieceType::Bishop),
            5 => Ok(PieceType::Queen),
            6 => Ok(PieceType::King),
            _ => Err(PieceError::InvalidPieceEncoding { byte: self.0 }),
        }
    }

    /// Encodes a well-formed piece as its display character; a corrupt byte is
    /// rejected with `InvalidPieceEncoding`.
    pub fn to_char(&self) -> (r: Result<char, PieceError>)
        ensures
            self.wf() ==> r == Ok::<char, PieceError>(spec_encode(self.0)),
            !self.wf() ==> r == Err::<char, PieceError>(PieceError::InvalidPieceEncoding { byte: self.0 }),
    {
        let color = self.get_color();
        let typ = match self.get_type() {
            Ok(t) => t,
            Err(e) => {
                return Err(e);
            },
        };
        let c = match (typ, color) {
            (PieceType::NoPiece, PieceColor::White) => '#',
            (PieceType::NoPiece, PieceColor::Dark) => '.',
            (PieceType::Rook, PieceColor::Dark) => 'r',
            (PieceType::Rook, PieceColor::White) => 'R',
            (PieceType::Knight, PieceColor::Dark) => 'n',
            (PieceType::Knight, PieceColor::White) => 'N',
            (PieceType::Pawn, PieceColor::Dark) => 'p',
            (PieceType::Pawn, PieceColor::White) => 'P',
            (PieceType::Bishop, PieceColor::Dark) => 'b',
            (PieceType::Bishop, PieceColor::White) => 'B',
            (PieceType::Queen, PieceColor::Dark) => 'q',
            (PieceType::Queen, PieceColor::White) => 'Q',
            (PieceType::King, PieceColor::Dark) => 'k',
            (PieceType::King, PieceColor::White) => 'K',
        };
        Ok(c)
    }
}

/// Law: encoding a decoded character gives back the character, for each of
/// the 14 recognized characters.
pub proof fn lemma_encode_of_decode(c: char)
    requires
        spec_decode(c) is Some,
    ensures
        piece_wf(spec_decode(c)->Some_0),
        spec_encode(spec_decode(c)->Some_0) == c,
{
}

/// Law: changing a well-formed piece's color keeps its type.
pub proof fn lemma_with_color_preserves_type(b: u8, color: PieceColor)
    requires
        piece_wf(b),
    ensures
        piece_wf(spec_with_color(b, color)),
        spec_type(spec_with_color(b, color)) == spec_type(b),
{
}

/// Law: after changing a piece's color, the color reads back as given.
pub proof fn lemma_with_color_sets_color(b: u8, color: PieceColor)
    requires
        piece_wf(b),
    ensures
        spec_color(spec_with_color(b, color)) == color,
{
}

} // verus!
