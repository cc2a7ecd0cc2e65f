//! A two-player Battleship core: board model, random fleet placement,
//! coordinate codec, and the alternating-turn shot-resolution engine.
//!
//! The surrounding program (terminal menus, the TCP stream between the two
//! peers) lives outside this crate; it hands the engine plain bytes and grid
//! values and sends the replies computed here over the wire.

pub mod coord;
pub mod engine;
pub mod fleet;
pub mod grid;
pub mod rng;
