//! A paddle-and-ball block breaker: integer rectangle geometry, the game's
//! entities and board, and the frame-by-frame state machine.
//!
//! Every length is measured in thousandths of a screen unit, and every frame
//! time in milliseconds, so that all motion is exact integer arithmetic.

pub mod geometry;
pub mod entities;
pub mod board;
pub mod game;
