//! A chess position in bitboards: one 64-bit word per piece, colour and
//! aggregate mask, with the counting and geometric primitives on such words.
//!
//! * [`geometry`]: the board as sets of square indices, and the laws of its
//!   reflections and rotations.
//! * [`bits`]: what the operations on 64-bit words do to the sets they stand
//!   for.
//! * [`square`]: the 64 squares by name.
//! * [`masks`]: the table of constant masks.
//! * [`bitboard`]: the occupancy mask type and its operations.
//! * [`pieces`]: the piece identities.
//! * [`board`]: the piece placement and the lookup of the piece on a square.

pub mod bitboard;
pub mod bits;
pub mod board;
pub mod geometry;
pub mod masks;
pub mod pieces;
pub mod square;
