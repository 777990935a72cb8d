//! Core engine of a falling-block puzzle game: the board model, the
//! tetromino geometry with its four rotation states, the collision and
//! movement rules, the line-clear compaction algorithm, and the timing
//! driven state machine that governs descent, input repeat, lock delay,
//! spawning and game over.
//!
//! The engine is deterministic up to the uniform random draws that refill
//! the two-piece lookahead queue, and is advanced one tick at a time by
//! whatever shell hosts it; rendering, audio and key decoding live in
//! that shell, never here.

pub mod board;
pub mod collision;
pub mod config;
pub mod game_logic;
pub mod line_clear;
pub mod scene;
pub mod tetromino;
