//! Game logic of a single-screen block-breaking game, in integer fixed point.
//!
//! Every length, position and velocity is a count of sub-units: `SCALE`
//! sub-units make one pixel. Velocities are sub-units per second.
pub mod geometry;
pub mod player;
pub mod ball;
pub mod game;

pub use geometry::{Rect, Vec2, LIMIT, SCALE};
pub use player::{Input, Player};
pub use ball::Ball;
pub use game::{GameState, MyGame};
