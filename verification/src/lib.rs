//! A first-person flight camera with inertia, simulated in deterministic
//! fixed-point arithmetic.
//!
//! The camera flies through a box-shaped play area. Held keys accelerate it
//! along its own axes, friction slows it where no key works against it, the
//! walls of the play area throw it back, and the mouse turns the direction
//! in which it looks. On demand it builds the matrix that takes the world to
//! the clip space of the screen.
//!
//! Every quantity is an integer count of millionths: lengths in millionths of
//! a world unit, angles in millionths of a degree, times in microseconds,
//! mouse motion in millionths of a pixel. The same inputs give the same
//! flight on every machine.
//!
//! - [`fixed`]: the arithmetic of millionths.
//! - [`trig`]: sines and cosines of angles in degrees.
//! - [`vector`]: vectors and matrices.
//! - [`input`]: the table of held keys and the pending mouse motion.
//! - [`motion`]: acceleration, friction, flight and walls.
//! - [`orientation`]: yaw, pitch and the frame of the camera.
//! - [`projection`]: the matrices from world to clip space.
//! - [`camera`]: the camera itself.

pub mod camera;
pub mod fixed;
pub mod input;
pub mod motion;
pub mod orientation;
pub mod projection;
pub mod trig;
pub mod vector;
