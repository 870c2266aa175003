//! Renderer-agnostic simulation of Matrix-style falling code.
//!
//! The crate owns the simulation: columns of glyph streams that spawn after a
//! delay, step down the screen, change glyphs, fade out and respawn. It exposes
//! the visible glyphs with their cell, pixel position, colour and role so that
//! any renderer can draw them.

pub mod animation;
pub mod config;
mod error;
pub mod matrix;
pub mod time;

pub use config::{MatrixRainConfig, Rgba};
pub use error::MatrixError;
pub use matrix::{GlyphInstance, GlyphRole, MatrixRain, MatrixRenderer, Position};

use vstd::prelude::*;

verus! {

/// The width of a glyph cell of the grid-based world, in pixels: the world
/// has a column for every ten pixels.
pub const FONT_WIDTH: i32 = 10;

/// The height of a glyph cell of the grid-based world, in pixels, by which
/// the start rows of its trails are laid out.
pub const FONT_HEIGHT: i32 = 10;

} // verus!
