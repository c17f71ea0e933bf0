//! Core logic of an interactive animated-character demo, verified with Verus.
//!
//! Three controllers cooperate, each driven once per frame by a host loop:
//! an animation controller that turns key presses into playback-state
//! transitions, a locomotion controller that integrates WASD input into
//! position and facing, and a follow camera that trails the character and
//! aims at it. Rendering, asset loading and input polling belong to an
//! outside engine; this crate owns only the decisions and the arithmetic,
//! which it keeps exact: coordinates live in thousandths of a world unit
//! over the ring of numbers `a + b * sqrt(2)/2`, so normalized diagonal
//! movement needs no floating point, and playback speed is a rational.

pub mod geom;
pub mod motion;
pub mod camera;
pub mod anim;
pub mod scene;
