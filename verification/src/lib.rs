//! A two-player line game on a three-by-three grid: the participants, the
//! board and its winning lines, the match state, and the turn controller
//! that interprets what the participants type.

pub mod board;
pub mod game;
pub mod input;
pub mod player;
pub mod turn;
