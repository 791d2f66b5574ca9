//! A turn-based chess engine: board geometry, per-piece move legality,
//! click-driven selection, move resolution with capture, and turn tracking.
//!
//! The match ends when a king is captured; check, checkmate, castling,
//! en passant and promotion are deliberately out of scope.

pub mod board;
pub mod game;
pub mod pieces;
pub mod ui;
