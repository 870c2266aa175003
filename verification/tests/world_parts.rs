use std::time::{Duration, Instant};

use matrix_rain::animation::animation::{Animation, AnimationColor, AnimationStep, Easing, Transition};
use matrix_rain::config::config::{Config, Glyph, World};
use matrix_rain::matrix::batch_renderer::BatchRenderer;
use matrix_rain::matrix::matrix_character::MatrixCharacter;
use matrix_rain::matrix::matrix_col::MatrixCol;
use matrix_rain::matrix::matrix_character::{random_green_alpha, MatrixColor};
use matrix_rain::matrix::matrix_col::{calculate_random_length, calculate_random_y_position};
use matrix_rain::matrix::matrix_world::{estimated_glyph_count, world_size, MatrixWorld};
use matrix_rain::Rgba;

#[derive(Debug, Clone, Copy, PartialEq)]
struct Shade(u32);

impl AnimationColor for Shade {
    fn from_rgba(c: Rgba) -> Self {
        Shade(u32::from_be_bytes([c.r, c.g, c.b, c.a]))
    }

    fn transition_color(_from: Self, _to: Self, _elapsed: u128, _duration: u128, _e: Easing) -> Self {
        Shade(999)
    }
}

fn step(color: u32, duration_ms: u64, transition_ms: u64, trigger: bool) -> AnimationStep<Shade> {
    AnimationStep {
        color: Shade(color),
        duration: Duration::from_millis(duration_ms),
        transition: Transition::new(Duration::from_millis(transition_ms), Easing::EaseOut, trigger),
    }
}

const HOUR_MS: u64 = 3_600_000;

#[test]
fn animation_without_steps_concludes_at_once() {
    let mut a: Animation<Shade> = Animation::new(Vec::new(), Shade(1));
    assert!(!a.concluded);
    a.update();
    assert!(a.concluded);
    assert_eq!(a.current_color, Shade(1));
}

#[test]
fn last_step_shows_its_colour_and_concludes() {
    let mut a = Animation::new(vec![step(5, HOUR_MS, 0, false)], Shade(1));
    a.update();
    assert_eq!(a.current_color, Shade(5));
    assert!(a.concluded);
}

#[test]
fn step_shows_its_colour_during_its_duration() {
    let mut a = Animation::new(vec![step(5, HOUR_MS, HOUR_MS, false), step(6, 0, 0, false)], Shade(1));
    a.update();
    assert_eq!(a.current_color, Shade(5));
    assert!(!a.concluded);
}

#[test]
fn spent_steps_blend_then_move_on() {
    let mut a = Animation::new(vec![step(5, 0, 0, false), step(6, 0, 0, false)], Shade(1));
    a.update();
    assert_eq!(a.current_color, Shade(999));
    assert!(!a.concluded);
    a.update();
    assert_eq!(a.current_color, Shade(6));
    assert!(a.concluded);
}

#[test]
fn waiting_transition_skips_the_blend() {
    // A step whose transition waits for a trigger lasts its own duration only,
    // and shows its colour, not a blend, before the next step.
    let mut a = Animation::new(vec![step(5, 0, HOUR_MS, true), step(6, 0, 0, false)], Shade(1));
    a.update();
    assert_eq!(a.current_color, Shade(5));
    assert!(!a.concluded);
    a.update();
    assert_eq!(a.current_color, Shade(6));
    assert!(a.concluded);
}

#[test]
fn trigger_counts_the_step_as_shown() {
    let mut a = Animation::new(vec![step(5, HOUR_MS, HOUR_MS, true), step(6, 0, 0, false)], Shade(1));
    a.update();
    assert_eq!(a.current_color, Shade(5));
    a.trigger_transition();
    a.update();
    assert_eq!(a.current_color, Shade(999));
}

#[test]
fn column_lengths() {
    assert_eq!(calculate_random_length(0), 10);
    assert_eq!(calculate_random_length(21), 10);
    for _ in 0..100 {
        let len = calculate_random_length(100);
        assert!((10..=50).contains(&len));
    }
}

#[test]
fn column_start_rows() {
    for _ in 0..100 {
        let row = calculate_random_y_position(100);
        assert!((-3..=7).contains(&row));
    }
    assert_eq!(calculate_random_y_position(0), -3);
}

#[test]
fn world_colours() {
    assert_eq!(MatrixColor::GREEN.hex(), 0x00FF00FF);
    assert_eq!(MatrixColor::GREEN.to_color(77), Rgba::new(0, 255, 0, 77));
    for _ in 0..100 {
        assert!(random_green_alpha() >= 50);
    }
}

#[test]
fn world_layout_arithmetic() {
    assert_eq!(world_size(1920, 1080), (192, 108));
    assert_eq!(world_size(-15, 25), (-1, 2));
    assert_eq!(estimated_glyph_count(192, 108), 10368);
}

const ALPHANUMERIC: &str = "EIOPQRTUWY012345789";

fn world_config(width_px: i32, height_px: i32, font_px: i32, spawn_ms: i32) -> Config {
    Config {
        world: World { window_width_px: width_px, window_height_px: height_px, font_size_px: font_px },
        glyph: Glyph { child_spawn_interval_ms: spawn_ms },
        debug: false,
    }
}

#[test]
fn world_lays_out_a_column_per_ten_pixels() {
    let world: MatrixWorld<Shade> = MatrixWorld::new(&world_config(1920, 1080, 20, 50));
    assert_eq!(world.width(), 192);
    assert_eq!(world.height(), 108);
    assert_eq!(world.font_height(), 20);
    assert_eq!(world.font_width(), 0);
    assert!(world.needs_font_width());
    assert!(!world.debug_mode());
    assert!(world.batch().is_empty());
}

#[test]
fn world_grid_uses_the_measured_font_width() {
    let mut world: MatrixWorld<Shade> = MatrixWorld::new(&world_config(1000, 500, 20, 50));
    world.cache_font_width(30);
    assert!(!world.needs_font_width());
    assert_eq!(world.font_width(), 30);
    world.cache_font_width(7);
    assert_eq!(world.font_width(), 30);
    assert_eq!(world.calculate_grid_size(), (3, 2));
    assert_eq!(world.get_grid_offset(), (5, 5));
    world.toggle_debug();
    assert!(world.debug_mode());
    world.toggle_debug();
    assert!(!world.debug_mode());
}

#[test]
fn world_grid_offset_rounds_towards_zero() {
    let mut world: MatrixWorld<Shade> = MatrixWorld::new(&world_config(0, 70, 4, 50));
    world.cache_font_width(4);
    assert_eq!(world.calculate_grid_size(), (0, 1));
    assert_eq!(world.get_grid_offset(), (0, 1));
}

#[test]
fn world_frames_stay_inside_the_world() {
    let mut world: MatrixWorld<Shade> = MatrixWorld::new(&world_config(300, 200, 20, 0));
    for _ in 0..3 {
        world.update_columns();
        let batch = world.batch();
        for (i, &(x, _)) in batch.positions().iter().enumerate() {
            assert!((0..30).contains(&x));
            assert!(ALPHANUMERIC.contains(batch.glyphs()[i]));
        }
    }
}

#[test]
fn column_starts_a_fresh_trail() {
    let col: MatrixCol<Shade> = MatrixCol::new(4, 100, 100, 50);
    assert_eq!(col.code.x_pos, 4);
    assert!((-3..=7).contains(&col.code.y_pos));
    assert!(col.is_spawned);
    assert!(col.code.alive);
}

#[test]
fn trail_pushes_its_glyphs_down_the_column() {
    let mut trail: MatrixCharacter<Shade> = MatrixCharacter::new(2, 5, 3_600_000, 3_600_000);
    let mut batch: BatchRenderer<(i32, i32), Shade> = BatchRenderer::new(8);
    trail.traverse_and_collect(&mut batch);
    assert_eq!(batch.positions(), &[(5, 2)]);
    assert!(ALPHANUMERIC.contains(batch.glyphs()[0]));
    assert_eq!(batch.colors(), &[Shade(0xFFFFFFFF)]);
    assert!(trail.alive);
}

#[test]
fn trail_grows_one_row_at_a_time_down_to_its_last_row() {
    let mut trail: MatrixCharacter<Shade> = MatrixCharacter::new(2, 5, 5, 0);
    let mut batch: BatchRenderer<(i32, i32), Shade> = BatchRenderer::new(8);
    for _ in 0..10 {
        let start = Instant::now();
        while start.elapsed() < Duration::from_millis(1) {}
        batch.clear();
        trail.traverse_and_collect(&mut batch);
        let positions = batch.positions();
        assert!(!positions.is_empty() && positions.len() <= 5);
        for (k, &position) in positions.iter().enumerate() {
            assert_eq!(position, (5, 2 + k as i32));
        }
    }
    assert_eq!(batch.len(), 5);
}

#[test]
fn animation_steps_of_a_glyph() {
    let steps = MatrixCharacter::<Shade>::create_animation_steps(77);
    assert_eq!(steps.len(), 3);
    assert_eq!(steps[0].color, Shade(0xFFFFFFFF));
    assert_eq!(steps[0].duration, Duration::from_millis(100));
    assert_eq!(steps[0].transition.duration, Duration::from_millis(1000));
    assert!(steps[0].transition.trigger_required);
    assert_eq!(steps[1].color, Shade(0x00FF004D));
    assert_eq!(steps[1].duration, Duration::from_millis(3000));
    assert_eq!(steps[1].transition.duration, Duration::from_millis(1000));
    assert!(!steps[1].transition.trigger_required);
    assert_eq!(steps[2].color, Shade(0x000000FF));
    assert_eq!(steps[2].duration, Duration::from_millis(500));
    assert_eq!(steps[2].transition.duration, Duration::from_millis(2000));
    assert!(!steps[2].transition.trigger_required);
}

#[test]
fn column_starts_once_its_delay_has_passed() {
    let mut col: MatrixCol<Shade> = MatrixCol::new(4, 100, 100, 3_600_000);
    assert!(!col.started_after(&Duration::from_millis(99)));
    assert!(col.started_after(&Duration::from_millis(9000)));
    let mut batch: BatchRenderer<(i32, i32), Shade> = BatchRenderer::new(8);
    col.update_and_collect_after(&Duration::from_millis(99), &mut batch);
    assert!(batch.is_empty());
    assert!(col.is_spawned);
    col.update_and_collect_after(&Duration::from_millis(9000), &mut batch);
    assert_eq!(batch.len(), 1);
    assert_eq!(batch.positions()[0], (4, col.code.y_pos));
    assert!(col.is_spawned);
}

#[test]
fn world_frame_for_given_waits() {
    let mut world: MatrixWorld<Shade> = MatrixWorld::new(&world_config(50, 200, 20, 3_600_000));
    assert_eq!(world.width(), 5);
    world.update_columns_after(&[Duration::ZERO; 5]);
    assert!(world.batch().is_empty());
    let long = Duration::from_secs(10);
    world.update_columns_after(&[long; 5]);
    let positions = world.batch().positions().to_vec();
    assert_eq!(positions.len(), 5);
    for (k, &(x, _)) in positions.iter().enumerate() {
        assert_eq!(x, k as i32);
    }
}
