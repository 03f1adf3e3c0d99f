use torus_paint::fixed::{times, LIMIT, ONE};
use torus_paint::force::{color_force, movements, Color, Particle, NEUTRAL};
use torus_paint::geometry::{inv_r2, modulus, Vector, MAX_PERIOD};

fn fx(v: f64) -> i64 {
    (v * 4294967296.0) as i64
}

fn as_float(v: i64) -> f64 {
    v as f64 / 4294967296.0
}

fn point(x: f64, y: f64) -> Vector {
    Vector { x: fx(x), y: fx(y) }
}

fn color(r: f64, g: f64, b: f64) -> Color {
    Color { r: fx(r), g: fx(g), b: fx(b) }
}

fn float_force(x: (f64, f64), y: (f64, f64), size: f64) -> (f64, f64) {
    let hdir = if x.0 >= y.0 { 1.0 } else { -1.0 };
    let vdir = if x.1 >= y.1 { 1.0 } else { -1.0 };
    let images = [
        y,
        (y.0 + hdir * size, y.1),
        (y.0, y.1 + vdir * size),
        (y.0 + hdir * size, y.1 + vdir * size),
    ];
    let mut net = (0.0, 0.0);
    for yi in images {
        let d = (yi.0 - x.0, yi.1 - x.1);
        let len = d.0.hypot(d.1);
        if len > 0.0 {
            net = (net.0 + d.0 / len.powi(3), net.1 + d.1 / len.powi(3));
        }
    }
    net
}

#[test]
fn neutral_is_one_hundred_and_twenty_eight() {
    assert_eq!(NEUTRAL, 128 * ONE);
}

#[test]
fn max_period_is_the_largest_side_in_raw_units() {
    assert_eq!(MAX_PERIOD, 32768 * ONE);
}

#[test]
fn force_between_two_points_on_a_row() {
    let f = inv_r2(point(5.0, 5.0), point(8.0, 5.0), fx(10.0));
    assert_eq!(f, Vector { x: 384358455, y: 61356175 });
}

#[test]
fn force_seen_from_the_other_point() {
    let f = inv_r2(point(8.0, 5.0), point(5.0, 5.0), fx(10.0));
    assert_eq!(f, Vector { x: -384358455, y: 61356175 });
}

#[test]
fn force_between_points_in_general_position() {
    let f = inv_r2(point(1.0, 9.0), point(7.5, 2.25), fx(10.0));
    assert_eq!(f, Vector { x: -65496857, y: 63296026 });
}

#[test]
fn force_follows_the_inverse_square_law() {
    let cases = [
        ((5.0, 5.0), (8.0, 5.0), 10.0),
        ((1.0, 9.0), (7.5, 2.25), 10.0),
        ((100.25, 900.5), (700.0, 3.125), 1024.0),
        ((0.0, 0.0), (1023.5, 1023.5), 1024.0),
    ];
    for (x, y, size) in cases {
        let f = inv_r2(point(x.0, x.1), point(y.0, y.1), fx(size));
        let e = float_force(x, y, size);
        assert!((as_float(f.x) - e.0).abs() <= 1e-6 * e.0.abs() + 1e-8);
        assert!((as_float(f.y) - e.1).abs() <= 1e-6 * e.1.abs() + 1e-8);
    }
}

#[test]
fn coincident_points_feel_only_the_far_images() {
    let f = inv_r2(point(5.0, 5.0), point(5.0, 5.0), fx(10.0));
    assert_eq!(f, Vector { x: 58134674, y: 58134674 });
}

#[test]
fn closest_approach_saturates_the_force() {
    let x = Vector { x: fx(5.0), y: fx(5.0) };
    let y = Vector { x: fx(5.0) + 1, y: fx(5.0) };
    let f = inv_r2(x, y, fx(10.0));
    assert_eq!(f.x, LIMIT);
    let back = inv_r2(y, x, fx(10.0));
    assert_eq!(back.x, -LIMIT);
}

#[test]
fn force_on_the_largest_torus() {
    let f = inv_r2(
        Vector { x: 0, y: 0 },
        Vector { x: MAX_PERIOD - 1, y: MAX_PERIOD - 1 },
        MAX_PERIOD,
    );
    assert_eq!(f.x, -LIMIT);
    assert_eq!(f.y, -LIMIT);
    let far = inv_r2(Vector { x: 0, y: 0 }, Vector { x: MAX_PERIOD / 2, y: 0 }, MAX_PERIOD);
    assert_eq!(far.x, 0);
}

#[test]
fn force_is_unchanged_by_a_common_shift() {
    let period = fx(10.0);
    let x = point(1.0, 9.0);
    let y = point(7.5, 2.25);
    let shifted = |p: Vector| Vector {
        x: modulus(p.x + fx(3.5), period),
        y: modulus(p.y + fx(4.0), period),
    };
    assert_eq!(shifted(x), Vector { x: 19327352832, y: 12884901888 });
    assert_eq!(shifted(y), Vector { x: 4294967296, y: 26843545600 });
    assert_eq!(inv_r2(shifted(x), shifted(y), period), inv_r2(x, y, period));
}

#[test]
fn force_is_unchanged_by_many_shifts() {
    let period = fx(16.0);
    let x = point(3.0, 15.5);
    let y = point(12.25, 0.75);
    let expected = inv_r2(x, y, period);
    let mut s: i64 = -40;
    while s <= 40 {
        let sx = s * (ONE / 2) + 12345;
        let sy = -s * (ONE / 3) + 777;
        let x2 = Vector { x: modulus(x.x + sx, period), y: modulus(x.y + sy, period) };
        let y2 = Vector { x: modulus(y.x + sx, period), y: modulus(y.y + sy, period) };
        assert_eq!(inv_r2(x2, y2, period), expected);
        s += 1;
    }
}

#[test]
fn color_force_of_a_pair() {
    let f = color_force(color(200.0, 100.0, 50.0), color(180.0, 90.0, 250.0));
    assert_eq!(f, -20220706029568);
    assert_eq!(as_float(f), 72.0 * 52.0 + 28.0 * 38.0 - 78.0 * 122.0);
}

#[test]
fn color_force_with_itself_is_the_sum_of_squares() {
    let c = color(200.0, 100.0, 50.0);
    assert_eq!(color_force(c, c), 51762945851392);
    assert_eq!(as_float(color_force(c, c)), 72.0 * 72.0 + 28.0 * 28.0 + 78.0 * 78.0);
    let d = color(200.5, 0.0, 128.0);
    assert_eq!(color_force(d, d), 92944166027264);
    assert_eq!(as_float(color_force(d, d)), 72.5 * 72.5 + 128.0 * 128.0);
}

#[test]
fn color_force_of_neutral_with_itself_is_zero() {
    let n = color(128.0, 128.0, 128.0);
    assert_eq!(color_force(n, n), 0);
}

#[test]
fn color_force_with_neutral_is_zero() {
    let n = color(128.0, 128.0, 128.0);
    let c = color(1.0, 254.0, 77.0);
    assert_eq!(color_force(n, c), 0);
    assert_eq!(color_force(c, n), 0);
}

#[test]
fn color_force_of_orthogonal_offsets_is_zero() {
    assert_eq!(color_force(color(200.0, 128.0, 128.0), color(128.0, 30.0, 128.0)), 0);
}

#[test]
fn color_force_is_symmetric() {
    let a = color(12.5, 240.0, 99.0);
    let b = color(250.0, 3.0, 130.25);
    assert_eq!(color_force(a, b), color_force(b, a));
}

#[test]
fn color_force_saturates_on_extreme_channels() {
    let top = Color { r: i64::MAX, g: i64::MAX, b: i64::MAX };
    let bottom = Color { r: i64::MIN, g: i64::MIN, b: i64::MIN };
    assert_eq!(color_force(top, top), LIMIT);
    assert_eq!(color_force(bottom, bottom), LIMIT);
    assert_eq!(color_force(top, bottom), -LIMIT);
}

#[test]
fn movements_of_a_pair() {
    let a = Particle { pos: point(5.0, 5.0), color: color(200.0, 100.0, 50.0) };
    let b = Particle { pos: point(8.0, 5.0), color: color(180.0, 90.0, 250.0) };
    let g = 3 * ONE / 100;
    assert_eq!(g, 128849018);
    let (ma, mb) = movements(a, b, fx(10.0), g);
    assert_eq!(ma, Vector { x: -54286787813, y: -8665946097 });
    assert_eq!(mb, Vector { x: 54286787813, y: 8665946097 });
}

#[test]
fn movements_scale_the_force_by_color_force_and_constant() {
    let a = Particle { pos: point(1.0, 9.0), color: color(10.0, 20.0, 30.0) };
    let b = Particle { pos: point(7.5, 2.25), color: color(40.0, 250.0, 60.0) };
    let g = fx(0.25);
    let f = inv_r2(a.pos, b.pos, fx(10.0));
    let c = color_force(a.color, b.color);
    let (ma, _) = movements(a, b, fx(10.0), g);
    assert_eq!(ma.x, times(times(f.x, c), g));
    assert_eq!(ma.y, times(times(f.y, c), g));
}

#[test]
fn movements_are_exact_negations() {
    let g = fx(1000.0);
    let colors = [color(0.0, 0.0, 0.0), color(254.9, 1.0, 128.0), color(77.0, 200.0, 13.5)];
    let points = [point(0.0, 0.0), point(9.99, 0.01), point(5.0, 5.0), point(5.0, 5.0000001)];
    for ca in colors {
        for cb in colors {
            for pa in points {
                for pb in points {
                    let a = Particle { pos: pa, color: ca };
                    let b = Particle { pos: pb, color: cb };
                    let (ma, mb) = movements(a, b, fx(10.0), g);
                    assert_eq!(mb.x, -ma.x);
                    assert_eq!(mb.y, -ma.y);
                }
            }
        }
    }
}

#[test]
fn movements_negate_even_when_saturated() {
    let a = Particle { pos: Vector { x: 0, y: 0 }, color: color(0.0, 0.0, 0.0) };
    let b = Particle { pos: Vector { x: 1, y: 0 }, color: color(0.0, 0.0, 0.0) };
    let (ma, mb) = movements(a, b, fx(10.0), LIMIT);
    assert_eq!(ma.x, LIMIT);
    assert_eq!(mb.x, -LIMIT);
}

#[test]
fn movements_vanish_for_a_neutral_particle() {
    let a = Particle { pos: point(2.0, 3.0), color: color(128.0, 128.0, 128.0) };
    let b = Particle { pos: point(4.0, 1.0), color: color(250.0, 3.0, 99.0) };
    let (ma, mb) = movements(a, b, fx(10.0), fx(5.0));
    assert_eq!(ma, Vector { x: 0, y: 0 });
    assert_eq!(mb, Vector { x: 0, y: 0 });
}

#[test]
fn movements_are_unchanged_by_a_common_shift() {
    let period = fx(10.0);
    let g = fx(1000.0);
    let a = Particle { pos: point(1.0, 9.0), color: color(200.0, 100.0, 50.0) };
    let b = Particle { pos: point(7.5, 2.25), color: color(180.0, 90.0, 250.0) };
    let shift = |p: Particle| Particle {
        pos: Vector { x: modulus(p.pos.x + fx(3.5), period), y: modulus(p.pos.y + fx(4.0), period) },
        color: p.color,
    };
    assert_eq!(movements(shift(a), shift(b), period, g), movements(a, b, period, g));
}
