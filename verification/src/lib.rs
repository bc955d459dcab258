//! A verified core for a word-guessing party game: two teams take turns
//! giving one-word clues and guessing tiles on a shared 25-tile board.
//!
//! The crate holds the game state machine (membership, turn order, clue and
//! guess validation, win detection), the tile deck generator, the per-player
//! view projection, the in-memory game store with its session operations, and
//! the connection registry with its broadcast planning. Transport, persistence
//! and rendering live outside this crate and talk to it through plain values.

pub mod board;
pub mod game;
pub mod models;
pub mod randomness;
pub mod registry;
pub mod roster;
pub mod service;
pub mod string_map;
pub mod view;
