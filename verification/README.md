# Matrix Rain

A renderer-agnostic library for Matrix-style falling code, written in Verus.
The simulation owns columns of glyph streams that spawn after a delay, step
down the screen, change glyphs, fade out and respawn; it hands out the visible
glyphs with their cell, pixel position, colour and role so that any renderer
can draw them.

```rust
use matrix_rain::{MatrixRain, MatrixRainConfig};
use std::time::Duration;

let mut rain = MatrixRain::new(MatrixRainConfig::default())?;
rain.update(Duration::from_millis(16));

for glyph in rain.glyphs() {
    // Draw glyph.glyph at glyph.position with glyph.color.
}
```

## Layout

- `src/` is the verified library.
  - `config/`: `MatrixRainConfig`, its validation (which rule fails first and
    with which message) and its cell counts; `Rgba`; the settings of the
    grid-based world.
  - `matrix/model.rs`: the simulation stated as mathematics. A fresh layout,
    one update and the collection of visible glyphs are spec functions of the
    configuration, the generator state and the time that passes.
  - `matrix/mod.rs`: `MatrixRain` and its columns, streams and cells, proved
    to compute exactly what the model says.
  - `matrix/laws.rs`: what holds of every run: visible glyphs sit on screen
    at their cell's position with the colour their distance to the head
    gives, trails fade with distance, streams drain, a resize starts over.
  - `matrix/rng.rs`, `time.rs`: the calls into `fastrand`,
    `std::time::Duration` and the clock of `instant`, with the contracts the
    proofs rely on.
  - `matrix/matrix_world.rs`, `matrix_col.rs`, `matrix_character.rs`: the
    grid-based world, a column for every ten pixels, each with a trail of
    glyphs that grows one row at a time, changes glyphs and runs through
    colour steps (`animation/`) timed by the system clock; a dead trail is
    replaced, and each frame gathers the glyphs into a batch
    (`batch_renderer.rs`). The colour type is the renderer's.
  - `matrix/util.rs`: random glyphs and durations.
- `tests/` runs the library on concrete values.
- `app/` is the macroquad demo, the YAML loading of the configuration, the
  renderers (including float colour blending and font measurement for the
  grid-based world) and the C-ABI binding for the browser build.

Equal seeds give equal runs on a given target: `MatrixRain::with_seed` and
`MatrixRain::update` are specified as functions of their inputs, so two
simulations built from the same configuration and seed and fed the same
durations show the same glyphs. The glyph draw depends on the width of
`usize`, so a 32-bit and a 64-bit build draw differently.
