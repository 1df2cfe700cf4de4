//! A two-player Pong simulation core: paddle control, ball motion, collision
//! response, scoring and the delayed respawn after a goal, on fixed-point
//! numbers.
pub mod geometry;
pub mod paddle;
pub mod ball;
pub mod collision;
pub mod score;
pub mod reset;
pub mod systems;
pub mod world;
