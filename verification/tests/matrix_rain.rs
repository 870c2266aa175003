use std::time::Duration;

use matrix_rain::{GlyphRole, MatrixError, MatrixRain, MatrixRainConfig, Rgba};

fn instant_config() -> MatrixRainConfig {
    MatrixRainConfig {
        viewport_width_px: 90,
        viewport_height_px: 80,
        cell_width_px: 30,
        cell_height_px: 40,
        min_stream_length: 2,
        max_stream_length: 2,
        stream_step_ms: 10,
        initial_spawn_delay_min_ms: 0,
        initial_spawn_delay_max_ms: 0,
        respawn_delay_min_ms: 0,
        respawn_delay_max_ms: 0,
        glyph_change_interval_min_ms: 1000,
        glyph_change_interval_max_ms: 1000,
        fade_duration_ms: 20,
        charset: "AB".to_string(),
        ..MatrixRainConfig::default()
    }
}

#[test]
fn seeded_runs_are_stable() {
    let config = instant_config();
    let mut first = MatrixRain::with_seed(config.clone(), 42).unwrap();
    let mut second = MatrixRain::with_seed(config, 42).unwrap();

    first.update(Duration::from_millis(30));
    second.update(Duration::from_millis(30));

    assert_eq!(first.glyphs(), second.glyphs());
}

#[test]
fn positions_follow_cell_size() {
    let mut rain = MatrixRain::with_seed(instant_config(), 7).unwrap();
    rain.update(Duration::from_millis(10));

    let glyphs = rain.glyphs();
    assert_eq!(glyphs.len(), 3);
    assert!(glyphs.iter().any(|glyph| glyph.position.x as f32 == 60.0));
    assert!(glyphs.iter().all(|glyph| glyph.position.y as f32 == 0.0));
}

#[test]
fn resize_rebuilds_column_layout() {
    let mut rain = MatrixRain::with_seed(instant_config(), 7).unwrap();
    assert_eq!(rain.column_count(), 3);

    rain.resize(120, 80);

    assert_eq!(rain.column_count(), 4);
    rain.update(Duration::from_millis(10));
    assert!(rain.glyphs().iter().all(|glyph| (glyph.position.x as f32) < 120.0));
}

#[test]
fn seeded_runs_stay_equal_over_many_frames() {
    let config = MatrixRainConfig::default();
    let mut first = MatrixRain::with_seed(config.clone(), 2024).unwrap();
    let mut second = MatrixRain::with_seed(config, 2024).unwrap();
    for frame in 0..400u64 {
        let delta = Duration::from_millis(5 + frame % 40);
        first.update(delta);
        second.update(delta);
        assert_eq!(first.glyphs(), second.glyphs());
    }
    assert!(!first.glyphs().is_empty());
}

#[test]
fn different_seeds_draw_different_fields() {
    let config = MatrixRainConfig::default();
    let mut first = MatrixRain::with_seed(config.clone(), 1).unwrap();
    let mut second = MatrixRain::with_seed(config, 2).unwrap();
    for _ in 0..200 {
        first.update(Duration::from_millis(16));
        second.update(Duration::from_millis(16));
    }
    assert_ne!(first.glyphs(), second.glyphs());
}

#[test]
fn glyphs_stay_on_screen_in_their_cells() {
    let config = MatrixRainConfig {
        viewport_width_px: 100,
        viewport_height_px: 100,
        cell_width_px: 30,
        cell_height_px: 40,
        ..instant_config()
    };
    let mut rain = MatrixRain::with_seed(config, 99).unwrap();
    assert_eq!(rain.column_count(), 4);
    assert_eq!(rain.row_count(), 3);
    for _ in 0..100 {
        rain.update(Duration::from_millis(7));
        for glyph in rain.glyphs() {
            assert!(glyph.row >= 0 && glyph.row < 3);
            assert!(glyph.column < 4);
            assert_eq!(glyph.position.x, glyph.column as u64 * 30);
            assert_eq!(glyph.position.y, glyph.row as u64 * 40);
            assert!(glyph.position.x < 100 && glyph.position.y < 100);
            assert!(glyph.glyph == 'A' || glyph.glyph == 'B');
        }
    }
}

#[test]
fn head_trail_and_fade_colours() {
    let config = MatrixRainConfig {
        viewport_width_px: 30,
        viewport_height_px: 400,
        head_color: Rgba::new(1, 2, 3, 255),
        trail_color: Rgba::new(0, 200, 0, 200),
        ..instant_config()
    };
    let mut rain = MatrixRain::with_seed(config, 5).unwrap();
    // Head at row 5: rows 3..=4 trail, row 2 fades at half alpha, row 1 is gone.
    rain.update(Duration::from_millis(60));
    let glyphs = rain.glyphs();
    let rows: Vec<i32> = glyphs.iter().map(|g| g.row).collect();
    assert_eq!(rows, vec![2, 3, 4, 5]);
    assert_eq!(glyphs[3].role, GlyphRole::Head);
    assert_eq!(glyphs[3].color, Rgba::new(1, 2, 3, 255));
    assert_eq!(glyphs[2].role, GlyphRole::Trail);
    assert_eq!(glyphs[2].color, Rgba::new(0, 200, 0, 200));
    assert_eq!(glyphs[1].color, Rgba::new(0, 200, 0, 200));
    assert_eq!(glyphs[0].color, Rgba::new(0, 200, 0, 100));
}

#[test]
fn streams_drain_and_respawn() {
    let config = MatrixRainConfig { viewport_width_px: 30, ..instant_config() };
    let mut rain = MatrixRain::with_seed(config, 11).unwrap();
    // Two rows, trail 2, fade 2 steps: the stream is finished after its head
    // passes row 6 and its last cell has gone, then the column respawns at
    // once and a new head appears on row 0.
    let mut saw_empty = false;
    let mut saw_restart = false;
    for _ in 0..30 {
        rain.update(Duration::from_millis(10));
        if rain.glyphs().is_empty() {
            saw_empty = true;
        } else if saw_empty && rain.glyphs().iter().any(|g| g.row == 0 && g.role == GlyphRole::Head) {
            saw_restart = true;
        }
    }
    assert!(saw_empty);
    assert!(saw_restart);
}

#[test]
fn resize_clears_the_field() {
    let mut rain = MatrixRain::with_seed(instant_config(), 3).unwrap();
    rain.update(Duration::from_millis(10));
    assert!(!rain.glyphs().is_empty());
    rain.resize(300, 80);
    assert!(rain.glyphs().is_empty());
    assert_eq!(rain.column_count(), 10);
    assert_eq!(rain.config().viewport_width_px, 300);
}

#[test]
fn config_mut_retunes_without_relayout() {
    let mut rain = MatrixRain::with_seed(instant_config(), 3).unwrap();
    rain.config_mut().stream_step_ms = 20;
    assert_eq!(rain.config().stream_step_ms, 20);
    rain.update(Duration::from_millis(10));
    assert!(rain.glyphs().is_empty());
    rain.update(Duration::from_millis(10));
    assert_eq!(rain.glyphs().len(), 3);
}

#[test]
fn try_update_refuses_what_update_cannot_run() {
    let mut rain = MatrixRain::with_seed(instant_config(), 3).unwrap();
    rain.config_mut().stream_step_ms = 0;
    assert!(!rain.try_update(Duration::from_millis(10)));
    assert!(rain.glyphs().is_empty());
    rain.config_mut().stream_step_ms = 10;
    // 300 days of 10 ms steps take a head past the largest `i32` row.
    assert!(!rain.try_update(Duration::from_secs(300 * 24 * 3600)));
    assert!(rain.try_update(Duration::from_millis(10)));
    assert_eq!(rain.glyphs().len(), 3);
}

#[test]
fn long_steps_and_long_frames_update() {
    let config = MatrixRainConfig { stream_step_ms: 2_000_000, ..instant_config() };
    let mut rain = MatrixRain::with_seed(config, 8).unwrap();
    assert!(rain.try_update(Duration::from_millis(2_000_000)));
    assert_eq!(rain.glyphs().len(), 3);
    let mut rain = MatrixRain::with_seed(instant_config(), 8).unwrap();
    assert!(rain.try_update(Duration::from_secs(4 * 24 * 3600)));
}

#[test]
fn with_seed_rejects_invalid_config() {
    let config = MatrixRainConfig { stream_step_ms: 0, ..MatrixRainConfig::default() };
    match MatrixRain::with_seed(config.clone(), 1) {
        Err(MatrixError::InvalidConfig(message)) => {
            assert_eq!(message, "stream_step_ms must be greater than zero")
        }
        _ => panic!("expected an invalid config error"),
    }
    assert!(MatrixRain::new(config).is_err());
    assert!(MatrixRain::new(MatrixRainConfig::default()).is_ok());
}

#[test]
fn default_layout_has_a_column_per_cell() {
    let rain = MatrixRain::with_seed(MatrixRainConfig::default(), 0).unwrap();
    assert_eq!(rain.column_count(), 64);
    assert_eq!(rain.row_count(), 27);
    assert!(rain.glyphs().is_empty());
}

#[test]
fn glyph_draws_cover_the_charset() {
    // In this configuration every range but the glyph's holds one value, so
    // glyph draws are the only ones made: they must still vary.
    let mut rain = MatrixRain::with_seed(instant_config(), 12345).unwrap();
    let mut seen_a = false;
    let mut seen_b = false;
    for _ in 0..100 {
        rain.update(Duration::from_millis(10));
        for glyph in rain.glyphs() {
            seen_a |= glyph.glyph == 'A';
            seen_b |= glyph.glyph == 'B';
        }
    }
    assert!(seen_a && seen_b);
}

#[test]
fn glyphs_come_column_by_column_top_to_bottom() {
    let config = MatrixRainConfig {
        viewport_width_px: 300,
        viewport_height_px: 400,
        ..instant_config()
    };
    let mut rain = MatrixRain::with_seed(config, 21).unwrap();
    for _ in 0..60 {
        rain.update(Duration::from_millis(7));
        let glyphs = rain.glyphs();
        for pair in glyphs.windows(2) {
            let (a, b) = (&pair[0], &pair[1]);
            assert!(a.column < b.column || (a.column == b.column && a.row < b.row));
            if a.column == b.column {
                assert_eq!(a.role, GlyphRole::Trail);
            }
        }
    }
}

#[test]
fn retuned_field_keeps_its_columns() {
    let mut rain = MatrixRain::with_seed(instant_config(), 4).unwrap();
    let columns = rain.column_count();
    rain.config_mut().viewport_width_px = 900;
    rain.config_mut().stream_step_ms = 5;
    for _ in 0..20 {
        rain.update(Duration::from_millis(5));
        assert!(rain.glyphs().iter().all(|g| g.column < columns));
    }
}

#[test]
fn resize_to_no_columns_draws_no_delay() {
    let mut rain = MatrixRain::with_seed(instant_config(), 2).unwrap();
    rain.config_mut().initial_spawn_delay_min_ms = 10;
    rain.config_mut().initial_spawn_delay_max_ms = 5;
    rain.resize(0, 80);
    assert_eq!(rain.column_count(), 0);
    assert!(rain.glyphs().is_empty());
}
