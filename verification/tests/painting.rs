use torus_paint::canvas::{channel_byte, update_color, Canvas, BRIGHTEST, MAX_SIZE};
use torus_paint::fixed::{LIMIT, ONE};
use torus_paint::force::{Color, Particle, NEUTRAL};
use torus_paint::geometry::Vector;
use torus_paint::raster::{pixel_at, to_raster};

fn fx(v: f64) -> i64 {
    (v * 4294967296.0) as i64
}

fn particle(x: f64, y: f64, r: f64, g: f64, b: f64) -> Particle {
    Particle {
        pos: Vector { x: fx(x), y: fx(y) },
        color: Color { r: fx(r), g: fx(g), b: fx(b) },
    }
}

fn neutral() -> Color {
    Color { r: NEUTRAL, g: NEUTRAL, b: NEUTRAL }
}

#[test]
fn update_color_nudges_by_the_offset_from_neutral() {
    let weight = 3 * ONE / 100;
    assert_eq!(update_color(NEUTRAL, fx(200.0), weight), 559032943184);
    assert_eq!(update_color(NEUTRAL, fx(100.0), weight), 546148041384);
    assert_eq!(update_color(fx(10.0), fx(228.0), fx(0.5)), fx(60.0));
    assert_eq!(update_color(fx(10.0), fx(28.0), fx(0.5)), fx(-40.0));
}

#[test]
fn update_color_ignores_a_neutral_channel() {
    assert_eq!(update_color(fx(42.0), NEUTRAL, fx(0.75)), fx(42.0));
    assert_eq!(update_color(0, fx(128.0), 3 * ONE / 100), 0);
}

#[test]
fn update_color_pushes_upward_without_bound() {
    let mut v = fx(250.0);
    let mut visits = 0;
    while visits < 100 {
        let next = update_color(v, fx(200.0), fx(0.5));
        assert_eq!(next, v + fx(36.0));
        v = next;
        visits += 1;
    }
    assert_eq!(v, fx(250.0 + 3600.0));
}

#[test]
fn update_color_saturates() {
    assert_eq!(update_color(LIMIT - 5, LIMIT, LIMIT), LIMIT);
    assert_eq!(update_color(-LIMIT, i64::MIN, LIMIT), -LIMIT);
    assert_eq!(update_color(LIMIT, fx(129.0), ONE), LIMIT);
    assert_eq!(update_color(LIMIT, fx(127.0), ONE), LIMIT - ONE);
}

#[test]
fn brightest_is_two_hundred_and_fifty_five() {
    assert_eq!(BRIGHTEST, 255 * ONE);
}

#[test]
fn export_clamps_negative_values_to_zero() {
    assert_eq!(channel_byte(fx(-37.5)), 0);
    assert_eq!(channel_byte(-1), 0);
    assert_eq!(channel_byte(i64::MIN), 0);
}

#[test]
fn export_clamps_large_values_to_full() {
    assert_eq!(channel_byte(fx(400.2)), 255);
    assert_eq!(channel_byte(fx(255.0)), 255);
    assert_eq!(channel_byte(i64::MAX), 255);
}

#[test]
fn export_rounds_down_within_range() {
    assert_eq!(channel_byte(fx(133.9)), 133);
    assert_eq!(channel_byte(0), 0);
    assert_eq!(channel_byte(ONE - 1), 0);
    assert_eq!(channel_byte(ONE), 1);
    assert_eq!(channel_byte(fx(255.0) - 1), 254);
    assert_eq!(channel_byte(NEUTRAL), 128);
}

#[test]
fn canvas_of_no_side_is_refused() {
    assert!(Canvas::new(0).is_none());
}

#[test]
fn canvas_beyond_the_largest_side_is_refused() {
    assert_eq!(MAX_SIZE, 32768);
    assert!(Canvas::new(MAX_SIZE + 1).is_none());
    assert!(Canvas::new(u32::MAX).is_none());
}

#[test]
fn new_canvas_is_neutral_throughout() {
    let canvas = Canvas::new(7).unwrap();
    assert_eq!(canvas.side(), 7);
    for y in 0..7 {
        for x in 0..7 {
            assert_eq!(canvas.cell(x, y), Some(neutral()));
        }
    }
    assert_eq!(canvas.render(), vec![128u8; 3 * 7 * 7]);
}

#[test]
fn cell_beyond_the_canvas_is_none() {
    let canvas = Canvas::new(4).unwrap();
    assert_eq!(canvas.cell(4, 0), None);
    assert_eq!(canvas.cell(0, 4), None);
    assert_eq!(canvas.cell(3, 3), Some(neutral()));
}

#[test]
fn paint_tints_the_cell_under_the_particle() {
    let mut canvas = Canvas::new(10).unwrap();
    let weight = 3 * ONE / 100;
    canvas.paint(&particle(3.75, 5.25, 200.0, 100.0, 50.0), weight);
    assert_eq!(
        canvas.cell(3, 5),
        Some(Color { r: 559032943184, g: 546148041384, b: 539705590484 })
    );
    for y in 0..10 {
        for x in 0..10 {
            if (x, y) != (3, 5) {
                assert_eq!(canvas.cell(x, y), Some(neutral()));
            }
        }
    }
}

#[test]
fn paint_at_the_corners_of_the_torus() {
    let mut canvas = Canvas::new(3).unwrap();
    canvas.paint(&particle(0.0, 0.0, 129.0, 128.0, 128.0), ONE);
    let last = Particle {
        pos: Vector { x: 3 * ONE - 1, y: 3 * ONE - 1 },
        color: Color { r: NEUTRAL, g: NEUTRAL, b: fx(127.0) },
    };
    canvas.paint(&last, ONE);
    assert_eq!(canvas.cell(0, 0), Some(Color { r: fx(129.0), g: NEUTRAL, b: NEUTRAL }));
    assert_eq!(canvas.cell(2, 2), Some(Color { r: NEUTRAL, g: NEUTRAL, b: fx(127.0) }));
}

#[test]
fn paint_all_applies_every_particle_in_order() {
    let mut canvas = Canvas::new(4).unwrap();
    let particles = vec![
        particle(1.5, 2.5, 228.0, 128.0, 28.0),
        particle(1.25, 2.75, 228.0, 28.0, 128.0),
        particle(0.0, 3.0, 0.0, 0.0, 0.0),
    ];
    canvas.paint_all(&particles, fx(0.5));
    assert_eq!(
        canvas.cell(1, 2),
        Some(Color { r: fx(228.0), g: fx(78.0), b: fx(78.0) })
    );
    assert_eq!(canvas.cell(0, 3), Some(Color { r: fx(64.0), g: fx(64.0), b: fx(64.0) }));
    assert_eq!(canvas.cell(2, 1), Some(neutral()));
}

#[test]
fn repeated_painting_is_order_sensitive_once_saturated() {
    let up = Particle {
        pos: Vector { x: 0, y: 0 },
        color: Color { r: LIMIT, g: NEUTRAL, b: NEUTRAL },
    };
    let down = Particle {
        pos: Vector { x: 0, y: 0 },
        color: Color { r: 0, g: NEUTRAL, b: NEUTRAL },
    };
    let mut first = Canvas::new(1).unwrap();
    first.paint_all(&vec![up, up, down], LIMIT);
    let mut second = Canvas::new(1).unwrap();
    second.paint_all(&vec![down, up, up], LIMIT);
    assert_ne!(first.cell(0, 0), second.cell(0, 0));
    assert_eq!(second.cell(0, 0).unwrap().r, LIMIT);
}

#[test]
fn render_clamps_every_channel() {
    let mut canvas = Canvas::new(2).unwrap();
    canvas.paint(&particle(1.0, 0.0, 255.0, 0.0, 133.0), fx(2.0));
    canvas.paint(&particle(0.0, 1.0, 130.0, 127.0, 128.0), fx(0.95));
    let bytes = canvas.render();
    assert_eq!(
        bytes,
        vec![128, 128, 128, 255, 0, 138, 129, 127, 128, 128, 128, 128]
    );
}

#[test]
fn pixel_at_reads_row_by_row() {
    let bytes: Vec<u8> = (0..27).collect();
    assert_eq!(pixel_at(&bytes, 3, 0, 0), [0, 1, 2]);
    assert_eq!(pixel_at(&bytes, 3, 2, 0), [6, 7, 8]);
    assert_eq!(pixel_at(&bytes, 3, 0, 1), [9, 10, 11]);
    assert_eq!(pixel_at(&bytes, 3, 2, 2), [24, 25, 26]);
}

#[test]
fn raster_shows_the_canvas() {
    let mut canvas = Canvas::new(3).unwrap();
    canvas.paint(&particle(2.5, 1.5, 255.0, 0.0, 133.0), fx(2.0));
    canvas.paint(&particle(0.5, 2.5, 130.0, 127.0, 128.0), fx(0.95));
    let raster = to_raster(&canvas);
    assert_eq!(raster.image.dimensions(), (3, 3));
    assert_eq!(raster.image.as_raw(), &canvas.render());
    assert_eq!(raster.image.get_pixel(2, 1).0, [255, 0, 138]);
    assert_eq!(raster.image.get_pixel(0, 2).0, [129, 127, 128]);
    assert_eq!(raster.image.get_pixel(1, 2).0, [128, 128, 128]);
    assert_eq!(raster.image.get_pixel(2, 2).0, [128, 128, 128]);
}

#[test]
fn raster_of_a_fresh_canvas_is_grey() {
    let canvas = Canvas::new(5).unwrap();
    let raster = to_raster(&canvas);
    assert_eq!(raster.image.dimensions(), (5, 5));
    assert!(raster.image.pixels().all(|p| p.0 == [128, 128, 128]));
}
