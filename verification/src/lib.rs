//! Five-in-a-row (gomoku) game core: board model, win detection, the
//! computer player's move heuristic, and the turn state machine.
//!
//! The crate holds only the game-state engine; a presentation layer is
//! expected to forward cell selections and frame time into it and to render
//! the state it exposes.

pub mod board;
pub mod eval;
pub mod session;
pub mod win;
