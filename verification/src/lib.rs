//! A move-evaluation engine for five-in-a-row on a 31 x 31 board.
//!
//! The engine keeps one match: a board, the history of the moves played and a
//! flag that says whether the first move is still awaited. For a candidate
//! cell it classifies the line through the cell on each of the four axes,
//! folds the classes into counts, scores the cell and picks the best one.

pub mod board;
pub mod pattern;
pub mod game;
pub mod scanner;
pub mod threats;
pub mod score;
pub mod forbidden;
pub mod chance;
pub mod book;
pub mod select;
pub mod session;
pub mod protocol;
