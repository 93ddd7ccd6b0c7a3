//! The simulation core of a small 2D tile-map game: the level registry that swaps the current
//! level when a file is dropped on the window, the player's keyboard movement, and the camera
//! that smoothly follows the player. Positions are fixed-point integers and frame times are
//! microseconds; the runtime around the library turns them into pixels and seconds.

pub mod camera;
pub mod level;
pub mod motion;
pub mod world;
