//! Streaming of road tiles around a moving anchor.
//!
//! The ground is an infinite lattice of fixed-size cells. Every tick the
//! streamer looks at the cells in a square window around the anchor's cell,
//! keeps those that lie on the three-row road strip, and creates a tile for
//! each one that the registry does not hold yet. Tiles are never created twice
//! and never removed.
pub mod grid;
pub mod registry;
pub mod spawner;
pub mod streamer;
