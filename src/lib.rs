//! Batched sprite rendering core and the rules of a small chess board.
//!
//! The library holds the logic of the renderer: textures, meshes and
//! programs as plain GPU handles, sprite sheets and their texture regions,
//! draw calls grouped into capacity-bounded batches or kept in a sorted
//! queue, the per-frame state of the renderer, keyboard state, and the
//! piece and move rules of the board. Everything that talks to the window,
//! the GPU, the disk or does floating-point maths lives outside it.
pub mod graphics;
pub mod config;
pub mod game;
pub mod input;
