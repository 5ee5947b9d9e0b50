//! A minimal chess board representation: each square's occupant (piece type
//! and color) is packed into a single byte, and a whole board converts to and
//! from an 8x8 block of display characters.

pub mod board;
pub mod piece;
