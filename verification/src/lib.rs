//! A Sokoban-style puzzle core: a player moves on a rectangular grid and
//! pushes boxes onto sink tiles; the puzzle is solved when no box remains
//! off a sink.
//!
//! The crate holds the level state machine itself: the cell grid, the
//! movement and push rule, the win check, the level-text parser and the
//! tick/session bookkeeping. Rendering, input decoding and file access are
//! left to the surrounding program.

pub mod board;
pub mod game_logic;
pub mod game_state;
pub mod level_loader;
pub mod session;
