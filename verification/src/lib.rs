//! A verified interpreter for integer-coded programs ("intcode"), together
//! with the puzzle solvers built on top of it.
//!
//! The interpreter executes programs encoded as sequences of signed 64-bit
//! integers.  It offers a growable, zero-initialised memory, three parameter
//! addressing modes, two FIFO channels for input and output, and a
//! suspend/resume execution contract: `run` drains instructions until the
//! machine halts or blocks on an empty input queue, and the caller may then
//! feed more input and call `run` again.
pub mod intcode;
pub mod parse;
pub mod solve;
pub mod d01;
pub mod d02;
pub mod d03;
pub mod d04;
pub mod d05;
pub mod d06;
pub mod d07;
pub mod d08;
pub mod d09;
pub mod d10;
pub mod d11;
pub mod d12;
pub mod d13;
pub mod d14;
pub mod d15;
pub mod d16;
pub mod d17;
pub mod d19;
pub mod d21;
pub mod d22;
pub mod d23;
pub mod d24;
pub mod d25;
