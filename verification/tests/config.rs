use matrix_rain::config::config::{Config, Glyph, World};
use matrix_rain::{MatrixError, MatrixRainConfig, Rgba};

fn invalid(config: MatrixRainConfig) -> String {
    match config.validate() {
        Err(MatrixError::InvalidConfig(message)) => message,
        other => panic!("expected an invalid config error, got {:?}", other),
    }
}

#[test]
fn default_config_is_valid() {
    let config = MatrixRainConfig::default();
    assert!(config.validate().is_ok());
    assert_eq!(config.charset, "EIOPQRTUWY012345789");
    assert_eq!(config.head_color, Rgba::white());
    assert_eq!(config.trail_color, Rgba::matrix_green());
    assert_eq!(config.column_count(), 64);
    assert_eq!(config.row_count(), 27);
}

#[test]
fn each_rule_has_its_message() {
    let d = MatrixRainConfig::default;
    assert_eq!(
        invalid(MatrixRainConfig { viewport_width_px: 0, ..d() }),
        "viewport dimensions must be greater than zero"
    );
    assert_eq!(
        invalid(MatrixRainConfig { cell_height_px: 0, ..d() }),
        "cell dimensions must be greater than zero"
    );
    assert_eq!(
        invalid(MatrixRainConfig { min_stream_length: 0, ..d() }),
        "min_stream_length must be greater than zero"
    );
    assert_eq!(
        invalid(MatrixRainConfig { max_stream_length: 5, ..d() }),
        "max_stream_length must be greater than or equal to min_stream_length"
    );
    assert_eq!(
        invalid(MatrixRainConfig { stream_step_ms: 0, ..d() }),
        "stream_step_ms must be greater than zero"
    );
    assert_eq!(
        invalid(MatrixRainConfig { initial_spawn_delay_max_ms: 1, ..d() }),
        "initial spawn delay max must be >= min"
    );
    assert_eq!(
        invalid(MatrixRainConfig { respawn_delay_max_ms: 1, ..d() }),
        "respawn delay max must be >= min"
    );
    assert_eq!(
        invalid(MatrixRainConfig { glyph_change_interval_max_ms: 1, ..d() }),
        "glyph change interval max must be >= min"
    );
    assert_eq!(
        invalid(MatrixRainConfig { fade_duration_ms: 0, ..d() }),
        "fade_duration_ms must be greater than zero"
    );
    assert_eq!(
        invalid(MatrixRainConfig { charset: String::new(), ..d() }),
        "charset must not be empty"
    );
    assert_eq!(
        invalid(MatrixRainConfig { charset: "ア".to_string(), ..d() }),
        "charset must be ASCII so glyph selection is byte-stable"
    );
}

#[test]
fn first_broken_rule_wins() {
    let config = MatrixRainConfig {
        viewport_height_px: 0,
        stream_step_ms: 0,
        charset: String::new(),
        ..MatrixRainConfig::default()
    };
    assert_eq!(invalid(config), "viewport dimensions must be greater than zero");
}

#[test]
fn counts_round_up() {
    let config = MatrixRainConfig {
        viewport_width_px: 91,
        viewport_height_px: 80,
        cell_width_px: 30,
        cell_height_px: 40,
        ..MatrixRainConfig::default()
    };
    assert_eq!(config.column_count(), 4);
    assert_eq!(config.row_count(), 2);
    let big = MatrixRainConfig {
        viewport_width_px: u32::MAX,
        cell_width_px: 2,
        ..MatrixRainConfig::default()
    };
    assert_eq!(big.column_count(), 2147483648);
}

#[test]
fn colours() {
    assert_eq!(Rgba::new(1, 2, 3, 4), Rgba { r: 1, g: 2, b: 3, a: 4 });
    assert_eq!(Rgba::new(1, 2, 3, 4).with_alpha(9), Rgba::new(1, 2, 3, 9));
    assert_eq!(Rgba::default(), Rgba::transparent());
    assert_eq!(Rgba::transparent(), Rgba::new(0, 0, 0, 0));
    assert_eq!(Rgba::white(), Rgba::new(255, 255, 255, 255));
    assert_eq!(Rgba::matrix_green(), Rgba::new(0, 255, 0, 220));
}

#[test]
fn errors_carry_their_messages() {
    match MatrixError::invalid_config("bad") {
        MatrixError::InvalidConfig(m) => assert_eq!(m, "bad"),
        _ => panic!(),
    }
    match MatrixError::resource("gone") {
        MatrixError::Resource(m) => assert_eq!(m, "gone"),
        _ => panic!(),
    }
}

#[test]
fn world_settings_hold_their_values() {
    let config = Config {
        world: World { window_width_px: 800, window_height_px: 600, font_size_px: 20 },
        glyph: Glyph { child_spawn_interval_ms: 50 },
        debug: true,
    };
    assert_eq!(config.clone(), config);
    assert_eq!(config.world.font_size_px, 20);
}

#[test]
fn errors_read_as_their_kind_and_message() {
    assert_eq!(
        MatrixError::invalid_config("bad").describe(),
        "invalid matrix rain config: bad"
    );
    assert_eq!(
        MatrixError::resource("gone").describe(),
        "matrix rain resource error: gone"
    );
}

#[test]
fn errors_compare_by_kind_and_message() {
    assert_eq!(MatrixError::invalid_config("bad"), MatrixError::invalid_config("bad"));
    assert_ne!(MatrixError::invalid_config("bad"), MatrixError::invalid_config("worse"));
    assert_ne!(MatrixError::invalid_config("bad"), MatrixError::resource("bad"));
}

#[test]
fn configs_compare_field_by_field() {
    let d = MatrixRainConfig::default;
    assert_eq!(d(), d());
    assert_eq!(d().clone(), d());
    assert_ne!(d(), MatrixRainConfig { charset: "AB".to_string(), ..d() });
    assert_ne!(d(), MatrixRainConfig { trail_color: Rgba::white(), ..d() });
    assert_ne!(d(), MatrixRainConfig { fade_duration_ms: 601, ..d() });
}
