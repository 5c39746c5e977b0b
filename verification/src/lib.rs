//! A two-player, turn-based grid marking game on a square board.
//!
//! The board engine lives in [`gameboard`]: it owns the grid of cells,
//! validates and applies moves, detects wins, reports fullness, and renders
//! a textual view. Turn alternation and console interaction are left to the
//! caller.

pub mod gameboard;
