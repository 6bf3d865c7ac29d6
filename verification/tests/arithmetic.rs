use flycam::fixed::{clamp_i128, isqrt_u128, step, ONE};
use flycam::trig::{sin_cos, wrap_degrees, EIGHTH_TURN, FULL_TURN, QUARTER_TURN};

#[test]
fn one_is_a_million() {
    assert_eq!(ONE, 1_000_000);
    assert_eq!(FULL_TURN, 360 * ONE);
    assert_eq!(QUARTER_TURN, 90 * ONE);
    assert_eq!(EIGHTH_TURN, 45 * ONE);
}

#[test]
fn isqrt_of_small_numbers() {
    let expected = [0u128, 1, 1, 1, 2, 2, 2, 2, 2, 3, 3];
    for (n, r) in expected.iter().enumerate() {
        assert_eq!(isqrt_u128(n as u128), *r);
    }
    assert_eq!(isqrt_u128(24), 4);
    assert_eq!(isqrt_u128(25), 5);
    assert_eq!(isqrt_u128(26), 5);
}

#[test]
fn isqrt_of_large_numbers() {
    assert_eq!(isqrt_u128(1_000_000_000_000), 1_000_000);
    assert_eq!(isqrt_u128(999_999_999_999), 999_999);
    assert_eq!(isqrt_u128(2_000_000_000_000_000_000_000_000), 1_414_213_562_373);
    assert_eq!(isqrt_u128(u128::MAX), 18_446_744_073_709_551_615);
    assert_eq!(isqrt_u128(1u128 << 126), 1u128 << 63);
    assert_eq!(isqrt_u128((1u128 << 126) - 1), (1u128 << 63) - 1);
}

#[test]
fn isqrt_brackets_its_argument() {
    let mut n: u128 = 1;
    for _ in 0..120 {
        let r = isqrt_u128(n);
        assert!(r * r <= n);
        assert!((r + 1) * (r + 1) > n);
        n = n * 2 + 1;
    }
}

#[test]
fn step_moves_toward_the_target() {
    let mut x: i64 = 10;
    step(&mut x, 0, 3);
    assert_eq!(x, 7);
    step(&mut x, 0, 3);
    assert_eq!(x, 4);
    step(&mut x, 0, 3);
    assert_eq!(x, 1);
    step(&mut x, 0, 3);
    assert_eq!(x, 0);
    step(&mut x, 0, 3);
    assert_eq!(x, 0);
}

#[test]
fn step_moves_up_and_stops() {
    let mut x: i64 = -5;
    step(&mut x, 0, 2);
    assert_eq!(x, -3);
    step(&mut x, 0, 2);
    assert_eq!(x, -1);
    step(&mut x, 0, 2);
    assert_eq!(x, 0);
    let mut y: i64 = 4;
    step(&mut y, 9, 0);
    assert_eq!(y, 4);
    step(&mut y, 9, 100);
    assert_eq!(y, 9);
}

#[test]
fn step_at_the_ends_of_the_range() {
    let mut x: i64 = i64::MIN;
    step(&mut x, i64::MAX, u64::MAX);
    assert_eq!(x, i64::MAX);
    step(&mut x, i64::MIN, u64::MAX);
    assert_eq!(x, i64::MIN);
    step(&mut x, 0, 1);
    assert_eq!(x, i64::MIN + 1);
    let mut y: i64 = i64::MAX;
    step(&mut y, 0, 1);
    assert_eq!(y, i64::MAX - 1);
}

#[test]
fn clamp_limits_both_ways() {
    assert_eq!(clamp_i128(5, -10, 10), 5);
    assert_eq!(clamp_i128(-11, -10, 10), -10);
    assert_eq!(clamp_i128(11, -10, 10), 10);
    assert_eq!(clamp_i128(i128::MAX, -10, 10), 10);
    assert_eq!(clamp_i128(i128::MIN, -10, 10), -10);
    assert_eq!(clamp_i128(-10, -10, 10), -10);
    assert_eq!(clamp_i128(10, -10, 10), 10);
}

#[test]
fn wrap_degrees_is_the_remainder_of_a_turn() {
    assert_eq!(wrap_degrees(0), 0);
    assert_eq!(wrap_degrees(359_999_999), 359_999_999);
    assert_eq!(wrap_degrees(360_000_000), 0);
    assert_eq!(wrap_degrees(360_000_001), 1);
    assert_eq!(wrap_degrees(-1), 359_999_999);
    assert_eq!(wrap_degrees(-360_000_000), 0);
    assert_eq!(wrap_degrees(-360_000_001), 359_999_999);
    assert_eq!(wrap_degrees(725_000_000), 5_000_000);
    assert_eq!(wrap_degrees(-725_000_000), 355_000_000);
    let w = wrap_degrees(i128::MAX);
    assert!(0 <= w && w < FULL_TURN);
    let w = wrap_degrees(i128::MIN);
    assert!(0 <= w && w < FULL_TURN);
}

#[test]
fn quarter_turns_are_exact() {
    assert_eq!(sin_cos(0), (0, ONE));
    assert_eq!(sin_cos(90 * ONE), (ONE, 0));
    assert_eq!(sin_cos(180 * ONE), (0, -ONE));
    assert_eq!(sin_cos(270 * ONE), (-ONE, 0));
    assert_eq!(sin_cos(360 * ONE), (0, ONE));
    assert_eq!(sin_cos(-90 * ONE), (-ONE, 0));
}

#[test]
fn known_sines_and_cosines() {
    assert_eq!(sin_cos(30 * ONE), (500_000, 866_025));
    assert_eq!(sin_cos(60 * ONE), (866_025, 500_000));
    assert_eq!(sin_cos(45 * ONE), (707_107, 707_106));
    assert_eq!(sin_cos(45 * ONE + 1), (707_106, 707_107));
    assert_eq!(sin_cos(-30 * ONE), (-500_000, 866_025));
    assert_eq!(sin_cos(10_000), (175, 999_999));
    assert_eq!(sin_cos(89_990_000), (999_999, 175));
    assert_eq!(sin_cos(-89_990_000), (-999_999, 175));
    assert_eq!(sin_cos(150 * ONE), (500_000, -866_025));
    assert_eq!(sin_cos(210 * ONE), (-500_000, -866_025));
}

#[test]
fn sines_and_cosines_are_close_to_the_real_ones() {
    let mut angle: i64 = -720 * ONE;
    while angle <= 720 * ONE {
        let (s, c) = sin_cos(angle);
        let radians = (angle as f64 / 1e6).to_radians();
        assert!((s as f64 - radians.sin() * 1e6).abs() < 2.0, "sine at {}", angle);
        assert!((c as f64 - radians.cos() * 1e6).abs() < 2.0, "cosine at {}", angle);
        angle += 123_457;
    }
}

#[test]
fn sine_and_cosine_are_of_unit_length() {
    let mut angle: i64 = -400 * ONE;
    while angle <= 400 * ONE {
        let (s, c) = sin_cos(angle);
        let square = (s as i128) * (s as i128) + (c as i128) * (c as i128);
        let one = (ONE as i128) * (ONE as i128);
        assert!(square <= one);
        assert!(square >= one - 2 * ONE as i128);
        angle += 77_777;
    }
}

#[test]
fn sine_and_cosine_of_extreme_angles() {
    for angle in [i64::MIN, i64::MIN + 1, i64::MAX - 1, i64::MAX] {
        let (s, c) = sin_cos(angle);
        let reduced = wrap_degrees(angle as i128);
        assert_eq!((s, c), sin_cos(reduced));
    }
}

#[test]
fn vectors_hold_their_components() {
    let v = flycam::vector::Vec3::new(1, -2, 3);
    assert_eq!(v, flycam::vector::Vec3 { x: 1, y: -2, z: 3 });
    assert_eq!((v.x, v.y, v.z), (1, -2, 3));
}
