//! The settings of the grid-based world.

use vstd::prelude::*;

verus! {

/// World, glyph and debug settings.
#[derive(Debug, Clone, PartialEq, Eq, Structural)]
pub struct Config {
    pub world: World,
    pub glyph: Glyph,
    pub debug: bool,
}

/// The window and font sizes of the world, in pixels.
#[derive(Debug, Clone, PartialEq, Eq, Structural)]
pub struct World {
    pub window_width_px: i32,
    pub window_height_px: i32,
    pub font_size_px: i32,
}

/// How often a glyph spawns the one below it, in milliseconds.
#[derive(Debug, Clone, PartialEq, Eq, Structural)]
pub struct Glyph {
    pub child_spawn_interval_ms: i32,
}

} // verus!
