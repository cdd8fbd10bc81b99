use ant_colony::angles::{bearing, cos_fixed, normalize_heading, scale_product, sin_fixed};
use ant_colony::consts::{HALF_PI, PI, SCALE, TWO_PI};

#[test]
fn normalize_keeps_headings_in_range() {
    assert_eq!(normalize_heading(0), 0);
    assert_eq!(normalize_heading(1_000_000), 1_000_000);
    assert_eq!(normalize_heading(-1_000_000), -1_000_000);
    assert_eq!(normalize_heading(-4_000_000), 2_283_184);
    assert_eq!(normalize_heading(10_000_000), -2_566_368);
    assert_eq!(normalize_heading(-10_000_000), 2_566_368);
}

#[test]
fn normalize_maps_both_half_turns_to_the_upper_bound() {
    assert_eq!(normalize_heading(PI), PI);
    assert_eq!(normalize_heading(-PI), PI);
    assert_eq!(normalize_heading(PI + 1), -PI + 1);
    assert_eq!(normalize_heading(-PI + 1), -PI + 1);
    assert_eq!(normalize_heading(TWO_PI), 0);
    assert_eq!(normalize_heading(TWO_PI + 5), 5);
}

#[test]
fn normalize_is_total_on_extreme_values() {
    for a in [i64::MIN, i64::MIN + 1, i64::MAX, i64::MAX - 1] {
        let r = normalize_heading(a);
        assert!(-PI < r && r <= PI);
        assert_eq!((a as i128 - r as i128).rem_euclid(TWO_PI as i128), 0);
    }
}

#[test]
fn normalize_result_differs_by_whole_turns() {
    let mut a: i64 = -20_000_000;
    while a < 20_000_000 {
        let r = normalize_heading(a);
        assert!(-PI < r && r <= PI, "{} -> {}", a, r);
        assert_eq!((a - r).rem_euclid(TWO_PI), 0);
        a += 333_331;
    }
}

#[test]
fn sine_is_exact_at_the_quarter_turns() {
    assert_eq!(sin_fixed(0), 0);
    assert_eq!(sin_fixed(HALF_PI), SCALE);
    assert_eq!(sin_fixed(PI), 0);
    assert_eq!(sin_fixed(-HALF_PI), -SCALE);
    assert_eq!(sin_fixed(TWO_PI), 0);
}

#[test]
fn cosine_is_exact_at_the_quarter_turns() {
    assert_eq!(cos_fixed(0), SCALE);
    assert_eq!(cos_fixed(HALF_PI), 0);
    assert_eq!(cos_fixed(PI), -SCALE);
    assert_eq!(cos_fixed(-HALF_PI), 0);
}

#[test]
fn sine_and_cosine_follow_the_rational_approximation() {
    assert_eq!(sin_fixed(523_599), 500_000);
    assert_eq!(cos_fixed(1_047_198), 499_999);
    assert_eq!(sin_fixed(1_000_000), 840_218);
    assert_eq!(cos_fixed(1_000_000), 540_001);
    assert_eq!(sin_fixed(2_000_000), 908_385);
    assert_eq!(sin_fixed(-2_000_000), -908_385);
    assert_eq!(sin_fixed(3_000_000), 142_635);
    assert_eq!(cos_fixed(2_000_000), -416_785);
    assert_eq!(cos_fixed(-1_000_000), 540_001);
}

#[test]
fn sine_wraps_large_angles() {
    assert_eq!(sin_fixed(7_000_000), 655_962);
    assert_eq!(sin_fixed(1_000_000_000_000_000), 956_479);
    assert_eq!(sin_fixed(1_000_000 + 3 * TWO_PI), sin_fixed(1_000_000));
    assert_eq!(cos_fixed(1_000_000 - 5 * TWO_PI), cos_fixed(1_000_000));
}

#[test]
fn sine_and_cosine_stay_within_one() {
    let mut a: i64 = -7_000_000;
    while a < 7_000_000 {
        let s = sin_fixed(a);
        let c = cos_fixed(a);
        assert!(-SCALE <= s && s <= SCALE);
        assert!(-SCALE <= c && c <= SCALE);
        a += 9_973;
    }
    for a in [i64::MIN, i64::MAX] {
        assert!(sin_fixed(a).abs() <= SCALE);
        assert!(cos_fixed(a).abs() <= SCALE);
    }
}

#[test]
fn sine_is_close_to_the_true_sine() {
    let mut a: i64 = -PI + 1;
    while a <= PI {
        let exact = (a as f64 / 1e6).sin() * 1e6;
        let got = sin_fixed(a) as f64;
        assert!((exact - got).abs() < 2_000.0, "sin({}) = {} vs {}", a, got, exact);
        a += 10_007;
    }
}

#[test]
fn bearing_is_exact_along_the_axes() {
    assert_eq!(bearing(0, 0), 0);
    assert_eq!(bearing(1, 0), 0);
    assert_eq!(bearing(0, 1), HALF_PI);
    assert_eq!(bearing(-1, 0), PI);
    assert_eq!(bearing(0, -7), -HALF_PI);
    assert_eq!(bearing(2_000_000_000_000, 1), 0);
    assert_eq!(bearing(1, 2_000_000_000_000), HALF_PI);
}

#[test]
fn bearing_follows_the_rational_approximation() {
    assert_eq!(bearing(1, 1), 780_487);
    assert_eq!(bearing(3, 1), 323_232);
    assert_eq!(bearing(1, 3), 1_247_564);
    assert_eq!(bearing(-3, -1), -2_818_360);
    assert_eq!(bearing(-5, 1), 2_943_817);
    assert_eq!(bearing(-1, -1), -2_361_105);
    assert_eq!(bearing(5, -5), -780_487);
}

#[test]
fn bearing_is_close_to_the_true_angle() {
    let pts: [(i64, i64); 8] =
        [(10, 3), (3, 10), (-3, 10), (-10, 3), (-10, -3), (-3, -10), (3, -10), (10, -3)];
    for (dx, dy) in pts {
        let exact = (dy as f64).atan2(dx as f64) * 1e6;
        let got = bearing(dx * 1_000_000, dy * 1_000_000) as f64;
        assert!((exact - got).abs() < 10_000.0, "({}, {}): {} vs {}", dx, dy, got, exact);
    }
}

#[test]
fn bearing_handles_the_largest_vectors() {
    let m: i64 = 2_000_000_000_000;
    assert_eq!(bearing(m, m), 780_487);
    assert_eq!(bearing(-m, m), PI - 780_487);
    assert_eq!(bearing(-m, -m), -(PI - 780_487));
    assert_eq!(bearing(m, -m), -780_487);
}

#[test]
fn scale_product_rounds_toward_zero() {
    assert_eq!(scale_product(1_500_000, 3), 4);
    assert_eq!(scale_product(-1_500_000, 3), -4);
    assert_eq!(scale_product(1_500_000, -3), -4);
    assert_eq!(scale_product(999_999, 1), 0);
    assert_eq!(scale_product(-999_999, 1), 0);
    assert_eq!(scale_product(SCALE, 2_000_000), 2_000_000);
    assert_eq!(
        scale_product(i64::MIN, i64::MIN),
        (i64::MIN as i128) * (i64::MIN as i128) / 1_000_000
    );
}
