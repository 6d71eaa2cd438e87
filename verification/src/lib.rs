//! Arranges the colors of a quantized RGB cube on a torus so that similar
//! colors end up near each other.
//!
//! Every color of the cube is placed on a square grid exactly once. A seeded
//! pseudo-random walk then visits cells and swaps neighbouring colors
//! whenever that smooths the local color gradient. The grid wraps around at
//! its edges, and however long the walk lasts it holds every color of the
//! cube exactly once.
//!
//! The modules, from the leaves up:
//!
//! - [`color`]: color identities, their scaling to eight bits per channel,
//!   and the measure of how unlike two colors are;
//! - [`torus`]: cells, directions and moves that wrap around;
//! - [`cube`]: the colors of the cube in a fixed order;
//! - [`random`]: the stream of pseudo-random numbers, drawn from `rand`;
//! - [`grid`]: the grid and its invariant;
//! - [`config`]: which configurations are refused, and why;
//! - [`walker`]: the rule of the walk, one step, and many;
//! - [`arrange`]: a whole run, from a seed to the finished grid;
//! - [`render`]: the picture of a grid, held in a buffer of `image`.
//!
//! Everything is proved against its contract but what is said of the two
//! outside crates: [`random`] and [`render`] list what they take on trust.

pub mod arrange;
pub mod color;
pub mod config;
pub mod cube;
pub mod grid;
pub mod random;
pub mod render;
pub mod torus;
pub mod walker;
