//! A two-player Pong simulation on a grid of whole units.
//!
//! The game holds one ball, a paddle for each player and a score counter for
//! each player ([`world::World`]). A frame advances it in three steps, in
//! this order ([`world::tick`]):
//!
//! 1. the paddle controller moves the paddles by the keys that are held and
//!    serves the ball where it is at rest ([`paddle::paddle_movement`]);
//! 2. the ball flies for one frame, scores where it leaves past a side wall
//!    and bounces off the floor and the ceiling ([`ball::move_ball`]);
//! 3. the collision responder turns the ball round for every contact that
//!    started ([`collision::detect_collisions`]).
//!
//! Windows, keyboards and collision detection are not part of the library:
//! each frame it is handed the size of the field, the held keys and the
//! collision events as plain values.
//!
//! Positions are whole numbers of units. Every type has a mathematical value,
//! its view, over unbounded integers, and every function states what it does
//! as an equation between views. The laws of the game are proof functions
//! beside the functions that they speak of.

pub mod ball;
pub mod collision;
pub mod field;
pub mod paddle;
pub mod score;
pub mod world;
