//! Simulation core of a small tile-based puzzle game.
//!
//! The library parses a textual level description into a rectangular grid of
//! tiles plus a set of movable entities and a player, resolves player-driven
//! movement including single-depth block pushing, and computes a camera
//! position clamped to the playable area. Rendering, input polling and frame
//! timing are left to the embedding program; the core only produces and
//! consumes plain values (tile kinds, grid coordinates, pixel offsets).

pub mod entity;
pub mod game;
pub mod room;
