use std::time::Duration;

use matrix_rain::animation::animation::{Easing, Transition};
use matrix_rain::matrix::batch_renderer::BatchRenderer;
use matrix_rain::matrix::matrix_world::MatrixError as WorldError;
use matrix_rain::matrix::util::{random_duration, AlphanumericMatrix};
use matrix_rain::time::{duration_as_nanos, duration_from_millis};

#[test]
fn batch_keeps_glyphs_in_push_order() {
    let mut batch: BatchRenderer<(f32, f32), u32> = BatchRenderer::new(4);
    assert!(batch.is_empty());
    batch.push((1.0, 2.0), 7, 'A');
    batch.push((3.0, 4.0), 8, 'B');
    assert_eq!(batch.len(), 2);
    assert!(!batch.is_empty());
    assert_eq!(batch.positions(), &[(1.0, 2.0), (3.0, 4.0)]);
    assert_eq!(batch.colors(), &[7, 8]);
    assert_eq!(batch.glyphs(), &['A', 'B']);
    batch.clear();
    assert_eq!(batch.len(), 0);
    assert!(batch.is_empty());
}

#[test]
fn world_error_keeps_message() {
    assert_eq!(WorldError::new("no lock").message, "no lock");
    assert_eq!(WorldError::new("no lock").describe(), "MatrixError: no lock");
}

#[test]
fn random_chars_come_from_the_charset() {
    for _ in 0..200 {
        assert!("EIOPQRTUWY012345789".contains(AlphanumericMatrix::random_char()));
    }
}

#[test]
fn random_durations_stay_in_range() {
    assert_eq!(
        random_duration(Duration::from_millis(100), Duration::from_millis(100)),
        Duration::from_millis(100)
    );
    let mut seen_other = false;
    for _ in 0..200 {
        let d = random_duration(Duration::from_millis(100), Duration::from_millis(700));
        assert!(d >= Duration::from_millis(100) && d <= Duration::from_millis(700));
        assert_eq!(d.as_nanos() % 1_000_000, 0);
        if d != Duration::from_millis(100) {
            seen_other = true;
        }
    }
    assert!(seen_other);
}

#[test]
fn transitions_start_untriggered() {
    let t = Transition::new(Duration::from_millis(1000), Easing::EaseOut, true);
    assert_eq!(t.duration, Duration::from_millis(1000));
    assert_eq!(t.easing, Easing::EaseOut);
    assert!(t.trigger_required);
    assert!(!t.triggered);
}

#[test]
fn durations_convert_to_and_from_nanoseconds() {
    assert_eq!(duration_from_millis(16), Duration::from_millis(16));
    assert_eq!(duration_as_nanos(&Duration::from_millis(16)), 16_000_000);
    assert_eq!(duration_as_nanos(&duration_from_millis(0)), 0);
}
