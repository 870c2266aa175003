//! The simulation's configuration and its validation.

use vstd::prelude::*;

use crate::MatrixError;

pub mod config;

verus! {

/// An 8-bit RGBA colour.
#[derive(Debug, Clone, Copy, PartialEq, Eq, Structural)]
pub struct Rgba {
    pub r: u8,
    pub g: u8,
    pub b: u8,
    pub a: u8,
}

impl Rgba {
    /// Opaque white.
    pub fn white() -> (c: Self)
        ensures
            c == (Rgba { r: 255, g: 255, b: 255, a: 255 }),
    {
        Rgba { r: 255, g: 255, b: 255, a: 255 }
    }

    /// The green of the falling trails.
    pub fn matrix_green() -> (c: Self)
        ensures
            c == (Rgba { r: 0, g: 255, b: 0, a: 220 }),
    {
        Rgba { r: 0, g: 255, b: 0, a: 220 }
    }

    /// Fully transparent black.
    pub fn transparent() -> (c: Self)
        ensures
            c == (Rgba { r: 0, g: 0, b: 0, a: 0 }),
    {
        Rgba { r: 0, g: 0, b: 0, a: 0 }
    }

    /// The colour with the given channels.
    pub fn new(r: u8, g: u8, b: u8, a: u8) -> (c: Self)
        ensures
            c == (Rgba { r, g, b, a }),
    {
        Rgba { r, g, b, a }
    }

    /// The same colour with its alpha channel replaced.
    pub open spec fn spec_with_alpha(self, a: u8) -> Rgba {
        Rgba { a, ..self }
    }

    /// The same colour with its alpha channel replaced.
    pub fn with_alpha(self, a: u8) -> (c: Self)
        ensures
            c == self.spec_with_alpha(a),
    {
        Rgba { a, ..self }
    }
}

impl Default for Rgba {
    fn default() -> (c: Self)
        ensures
            c == (Rgba { r: 0, g: 0, b: 0, a: 0 }),
    {
        Rgba::transparent()
    }
}

/// Everything the simulation reads: viewport and cell geometry, stream
/// lengths, timings in milliseconds, the glyphs to draw and the colours.
#[derive(Debug, Clone)]
pub struct MatrixRainConfig {
    pub viewport_width_px: u32,
    pub viewport_height_px: u32,
    pub cell_width_px: u32,
    pub cell_height_px: u32,
    pub min_stream_length: u32,
    pub max_stream_length: u32,
    pub stream_step_ms: u64,
    pub initial_spawn_delay_min_ms: u64,
    pub initial_spawn_delay_max_ms: u64,
    pub respawn_delay_min_ms: u64,
    pub respawn_delay_max_ms: u64,
    pub glyph_change_interval_min_ms: u64,
    pub glyph_change_interval_max_ms: u64,
    pub fade_duration_ms: u64,
    pub charset: String,
    pub head_color: Rgba,
    pub trail_color: Rgba,
}

/// `value / divisor` rounded up, for a positive divisor.
pub open spec fn spec_div_ceil(value: int, divisor: int) -> int {
    if value % divisor == 0 {
        value / divisor
    } else {
        value / divisor + 1
    }
}

/// The characters of the default charset.
pub open spec fn default_charset() -> Seq<char> {
    "EIOPQRTUWY012345789"@
}

impl MatrixRainConfig {
    /// The number of cell columns that cover the viewport's width.
    pub open spec fn spec_column_count(&self) -> int {
        spec_div_ceil(self.viewport_width_px as int, self.cell_width_px as int)
    }

    /// The number of cell rows that cover the viewport's height.
    pub open spec fn spec_row_count(&self) -> int {
        spec_div_ceil(self.viewport_height_px as int, self.cell_height_px as int)
    }

    /// The bytes of the charset, from which glyphs are drawn.
    pub open spec fn charset_bytes(&self) -> Seq<u8> {
        vstd::utf8::encode_utf8(self.charset@)
    }

    /// The rules that `validate` checks, all of them.
    pub open spec fn is_valid(&self) -> bool {
        &&& self.viewport_width_px > 0 && self.viewport_height_px > 0
        &&& self.cell_width_px > 0 && self.cell_height_px > 0
        &&& self.min_stream_length > 0
        &&& self.min_stream_length <= self.max_stream_length
        &&& self.stream_step_ms > 0
        &&& self.initial_spawn_delay_min_ms <= self.initial_spawn_delay_max_ms
        &&& self.respawn_delay_min_ms <= self.respawn_delay_max_ms
        &&& self.glyph_change_interval_min_ms <= self.glyph_change_interval_max_ms
        &&& self.fade_duration_ms > 0
        &&& self.charset@.len() > 0
        &&& vstd::utf8::is_ascii_chars(self.charset@)
    }

    /// The message of the first rule, in the order `validate` checks them,
    /// that the configuration breaks.
    pub open spec fn invalid_reason(&self) -> Seq<char> {
        if !(self.viewport_width_px > 0 && self.viewport_height_px > 0) {
            "viewport dimensions must be greater than zero"@
        } else if !(self.cell_width_px > 0 && self.cell_height_px > 0) {
            "cell dimensions must be greater than zero"@
        } else if !(self.min_stream_length > 0) {
            "min_stream_length must be greater than zero"@
        } else if !(self.min_stream_length <= self.max_stream_length) {
            "max_stream_length must be greater than or equal to min_stream_length"@
        } else if !(self.stream_step_ms > 0) {
            "stream_step_ms must be greater than zero"@
        } else if !(self.initial_spawn_delay_min_ms <= self.initial_spawn_delay_max_ms) {
            "initial spawn delay"@ + " max must be >= min"@
        } else if !(self.respawn_delay_min_ms <= self.respawn_delay_max_ms) {
            "respawn delay"@ + " max must be >= min"@
        } else if !(self.glyph_change_interval_min_ms <= self.glyph_change_interval_max_ms) {
            "glyph change interval"@ + " max must be >= min"@
        } else if !(self.fade_duration_ms > 0) {
            "fade_duration_ms must be greater than zero"@
        } else if !(self.charset@.len() > 0) {
            "charset must not be empty"@
        } else {
            "charset must be ASCII so glyph selection is byte-stable"@
        }
    }

    /// Checks every rule of a usable configuration, in a fixed order, and
    /// reports the first one broken.
    pub fn validate(&self) -> (r: Result<(), MatrixError>)
        ensures
            r is Ok <==> self.is_valid(),
            r matches Err(e) ==> e is InvalidConfig && e.message() == self.invalid_reason(),
    {
        if self.viewport_width_px == 0 || self.viewport_height_px == 0 {
            return Err(MatrixError::invalid_config("viewport dimensions must be greater than zero"));
        }
        if self.cell_width_px == 0 || self.cell_height_px == 0 {
            return Err(MatrixError::invalid_config("cell dimensions must be greater than zero"));
        }
        if self.min_stream_length == 0 {
            return Err(MatrixError::invalid_config("min_stream_length must be greater than zero"));
        }
        if self.max_stream_length < self.min_stream_length {
            return Err(
                MatrixError::invalid_config(
                    "max_stream_length must be greater than or equal to min_stream_length",
                ),
            );
        }
        if self.stream_step_ms == 0 {
            return Err(MatrixError::invalid_config("stream_step_ms must be greater than zero"));
        }
        validate_range(
            self.initial_spawn_delay_min_ms,
            self.initial_spawn_delay_max_ms,
            "initial spawn delay",
        )?;
        validate_range(self.respawn_delay_min_ms, self.respawn_delay_max_ms, "respawn delay")?;
        validate_range(
            self.glyph_change_interval_min_ms,
            self.glyph_change_interval_max_ms,
            "glyph change interval",
        )?;
        if self.fade_duration_ms == 0 {
            return Err(MatrixError::invalid_config("fade_duration_ms must be greater than zero"));
        }
        if self.charset.as_str().is_empty() {
            return Err(MatrixError::invalid_config("charset must not be empty"));
        }
        if !self.charset.as_str().is_ascii() {
            return Err(
                MatrixError::invalid_config("charset must be ASCII so glyph selection is byte-stable"),
            );
        }
        Ok(())
    }

    /// The number of cell columns that cover the viewport's width.
    pub fn column_count(&self) -> (n: u32)
        requires
            self.cell_width_px > 0,
        ensures
            n == self.spec_column_count(),
    {
        div_ceil(self.viewport_width_px, self.cell_width_px)
    }

    /// The number of cell rows that cover the viewport's height.
    pub fn row_count(&self) -> (n: u32)
        requires
            self.cell_height_px > 0,
        ensures
            n == self.spec_row_count(),
    {
        div_ceil(self.viewport_height_px, self.cell_height_px)
    }
}

impl Default for MatrixRainConfig {
    fn default() -> (c: Self)
        ensures
            c.viewport_width_px == 1920 && c.viewport_height_px == 1080,
            c.cell_width_px == 30 && c.cell_height_px == 40,
            c.min_stream_length == 10 && c.max_stream_length == 28,
            c.stream_step_ms == 80,
            c.initial_spawn_delay_min_ms == 100 && c.initial_spawn_delay_max_ms == 9000,
            c.respawn_delay_min_ms == 100 && c.respawn_delay_max_ms == 1400,
            c.glyph_change_interval_min_ms == 100 && c.glyph_change_interval_max_ms == 700,
            c.fade_duration_ms == 600,
            c.charset@ == default_charset(),
            c.head_color == (Rgba { r: 255, g: 255, b: 255, a: 255 }),
            c.trail_color == (Rgba { r: 0, g: 255, b: 0, a: 220 }),
    {
        MatrixRainConfig {
            viewport_width_px: 1920,
            viewport_height_px: 1080,
            cell_width_px: 30,
            cell_height_px: 40,
            min_stream_length: 10,
            max_stream_length: 28,
            stream_step_ms: 80,
            initial_spawn_delay_min_ms: 100,
            initial_spawn_delay_max_ms: 9000,
            respawn_delay_min_ms: 100,
            respawn_delay_max_ms: 1400,
            glyph_change_interval_min_ms: 100,
            glyph_change_interval_max_ms: 700,
            fade_duration_ms: 600,
            charset: "EIOPQRTUWY012345789".to_owned(),
            head_color: Rgba::white(),
            trail_color: Rgba::matrix_green(),
        }
    }
}

impl MatrixRainConfig {
    /// Two configurations are equal when every field is: the charsets by
    /// their characters.
    pub open spec fn same_as(&self, other: &Self) -> bool {
        &&& self.viewport_width_px == other.viewport_width_px
        &&& self.viewport_height_px == other.viewport_height_px
        &&& self.cell_width_px == other.cell_width_px
        &&& self.cell_height_px == other.cell_height_px
        &&& self.min_stream_length == other.min_stream_length
        &&& self.max_stream_length == other.max_stream_length
        &&& self.stream_step_ms == other.stream_step_ms
        &&& self.initial_spawn_delay_min_ms == other.initial_spawn_delay_min_ms
        &&& self.initial_spawn_delay_max_ms == other.initial_spawn_delay_max_ms
        &&& self.respawn_delay_min_ms == other.respawn_delay_min_ms
        &&& self.respawn_delay_max_ms == other.respawn_delay_max_ms
        &&& self.glyph_change_interval_min_ms == other.glyph_change_interval_min_ms
        &&& self.glyph_change_interval_max_ms == other.glyph_change_interval_max_ms
        &&& self.fade_duration_ms == other.fade_duration_ms
        &&& self.charset@ == other.charset@
        &&& self.head_color == other.head_color
        &&& self.trail_color == other.trail_color
    }
}

impl PartialEq for MatrixRainConfig {
    fn eq(&self, other: &Self) -> (r: bool) {
        self.viewport_width_px == other.viewport_width_px
            && self.viewport_height_px == other.viewport_height_px
            && self.cell_width_px == other.cell_width_px
            && self.cell_height_px == other.cell_height_px
            && self.min_stream_length == other.min_stream_length
            && self.max_stream_length == other.max_stream_length
            && self.stream_step_ms == other.stream_step_ms
            && self.initial_spawn_delay_min_ms == other.initial_spawn_delay_min_ms
            && self.initial_spawn_delay_max_ms == other.initial_spawn_delay_max_ms
            && self.respawn_delay_min_ms == other.respawn_delay_min_ms
            && self.respawn_delay_max_ms == other.respawn_delay_max_ms
            && self.glyph_change_interval_min_ms == other.glyph_change_interval_min_ms
            && self.glyph_change_interval_max_ms == other.glyph_change_interval_max_ms
            && self.fade_duration_ms == other.fade_duration_ms
            && self.charset.eq(&other.charset)
            && self.head_color == other.head_color
            && self.trail_color == other.trail_color
    }
}

impl vstd::std_specs::cmp::PartialEqSpecImpl for MatrixRainConfig {
    open spec fn obeys_eq_spec() -> bool {
        true
    }

    open spec fn eq_spec(&self, other: &Self) -> bool {
        self.same_as(other)
    }
}

/// Checks that a millisecond range is ordered; the error names the range.
fn validate_range(min: u64, max: u64, name: &str) -> (r: Result<(), MatrixError>)
    ensures
        r is Ok <==> min <= max,
        r matches Err(e) ==> e is InvalidConfig && e.message() == name@ + " max must be >= min"@,
{
    if max < min {
        let mut message = name.to_owned();
        message.append(" max must be >= min");
        return Err(MatrixError::InvalidConfig(message));
    }
    Ok(())
}

/// `value / divisor` rounded up.
fn div_ceil(value: u32, divisor: u32) -> (q: u32)
    requires
        divisor > 0,
    ensures
        q == spec_div_ceil(value as int, divisor as int),
{
    let q = value / divisor;
    if value % divisor == 0 {
        q
    } else {
        assert(q < u32::MAX) by (nonlinear_arith)
            requires
                q == value / divisor,
                value % divisor != 0,
                divisor > 0,
                value <= u32::MAX,
        {
            if divisor == 1 {
                assert(value % divisor == 0);
            }
        }
        q + 1
    }
}

} // verus!
