//! The logic of a terminal snake game: snake motion and collision, fruit
//! placement, steering, the tick state machine, and the frame of drawing
//! commands that a terminal front end paints.

pub mod geometry;
pub mod render;
pub mod snake;
pub mod game;
