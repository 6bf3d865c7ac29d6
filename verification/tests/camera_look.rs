use flycam::camera::Camera;
use flycam::fixed::ONE;
use flycam::orientation::{basis, tilt_pitch, turn_yaw, FRAME_TOLERANCE, PITCH_LIMIT, SENS};
use flycam::vector::Vec3;

fn v(x: i64, y: i64, z: i64) -> Vec3 {
    Vec3 { x, y, z }
}

fn dot(a: Vec3, b: Vec3) -> i128 {
    (a.x as i128) * (b.x as i128) + (a.y as i128) * (b.y as i128) + (a.z as i128) * (b.z as i128)
}

fn assert_orthonormal(forward: Vec3, right: Vec3, up: Vec3) {
    let one = (ONE as i128) * (ONE as i128);
    let tolerance = FRAME_TOLERANCE as i128;
    for axis in [forward, right, up] {
        assert!(dot(axis, axis) <= one);
        assert!(dot(axis, axis) >= one - tolerance);
    }
    assert!(dot(forward, right).abs() <= tolerance);
    assert!(dot(forward, up).abs() <= tolerance);
    assert!(dot(right, up).abs() <= tolerance);
}

#[test]
fn limits_of_the_look() {
    assert_eq!(PITCH_LIMIT, 89_990_000);
    assert_eq!(SENS, 20 * ONE);
    assert_eq!(FRAME_TOLERANCE, 8 * ONE);
}

#[test]
fn frame_at_the_axes() {
    assert_eq!(basis(0, 0), (v(ONE, 0, 0), v(0, 0, ONE), v(0, ONE, 0)));
    assert_eq!(basis(90 * ONE, 0), (v(0, 0, ONE), v(-ONE, 0, 0), v(0, ONE, 0)));
    assert_eq!(basis(180 * ONE, 0), (v(-ONE, 0, 0), v(0, 0, -ONE), v(0, ONE, 0)));
    assert_eq!(basis(270 * ONE, 0), (v(0, 0, -ONE), v(ONE, 0, 0), v(0, ONE, 0)));
}

#[test]
fn frame_at_known_angles() {
    assert_eq!(
        basis(45 * ONE, 45 * ONE),
        (v(499_998, 707_107, 499_999), v(-707_107, 0, 707_106), v(-499_999, 707_106, -500_000))
    );
    assert_eq!(
        basis(30 * ONE, -20 * ONE),
        (v(813_796, -342_020, 469_846), v(-500_000, 0, 866_025), v(296_197, 939_692, 171_010))
    );
}

#[test]
fn frame_is_orthonormal_everywhere() {
    let mut yaw: i64 = 0;
    while yaw < 360 * ONE {
        let mut pitch: i64 = -PITCH_LIMIT;
        while pitch <= PITCH_LIMIT {
            let (forward, right, up) = basis(yaw, pitch);
            assert_orthonormal(forward, right, up);
            pitch += 4_499_500;
        }
        yaw += 7_777_777;
    }
}

#[test]
fn frame_is_right_handed() {
    // forward x world-up points along right, and right x forward along up.
    let mut yaw: i64 = 3 * ONE;
    while yaw < 360 * ONE {
        for pitch in [-80 * ONE, -10 * ONE, 0, 35 * ONE, PITCH_LIMIT] {
            let (forward, right, up) = basis(yaw, pitch);
            let side = v(-forward.z, 0, forward.x);
            assert!(dot(side, right) > 0);
            let above = v(
                ((right.y as i128 * forward.z as i128 - right.z as i128 * forward.y as i128)
                    / ONE as i128) as i64,
                ((right.z as i128 * forward.x as i128 - right.x as i128 * forward.z as i128)
                    / ONE as i128) as i64,
                ((right.x as i128 * forward.y as i128 - right.y as i128 * forward.x as i128)
                    / ONE as i128) as i64,
            );
            assert!((above.x - up.x).abs() <= 8);
            assert!((above.y - up.y).abs() <= 8);
            assert!((above.z - up.z).abs() <= 8);
            assert!(up.y > 0);
        }
        yaw += 11 * ONE;
    }
}

#[test]
fn yaw_wraps_past_a_full_turn() {
    // 359 degrees and 20 * 3 * 0.016667 degrees more.
    assert_eq!(turn_yaw(359 * ONE, 3 * ONE, 16_667), 20);
    assert_eq!(turn_yaw(10 * ONE, -40 * ONE, 500_000), 330 * ONE);
    assert_eq!(turn_yaw(0, -1, 1_000_000), 359_999_980);
    assert_eq!(turn_yaw(0, 18 * ONE, 1_000_000), 0);
    assert_eq!(turn_yaw(0, 18 * ONE - 1, 1_000_000), 359_999_980);
    assert_eq!(turn_yaw(5, 0, 1_000_000), 5);
    assert_eq!(turn_yaw(5, 1_000_000, 0), 5);
}

#[test]
fn yaw_stays_within_one_turn() {
    let deltas = [i64::MIN, -1_000_000_007, -ONE, -1, 0, 1, ONE, 999_999_937, i64::MAX];
    let times = [0u32, 1, 16_667, 1_000_000, u32::MAX];
    for start in [0, 1, 179 * ONE, 359_999_999] {
        for dx in deltas {
            for dt in times {
                let yaw = turn_yaw(start, dx, dt);
                assert!(0 <= yaw && yaw < 360 * ONE, "{} {} {}", start, dx, dt);
            }
        }
    }
}

#[test]
fn pitch_is_held_within_the_limit() {
    let deltas = [i64::MIN, -1_000_000_007, -ONE, -1, 0, 1, ONE, 999_999_937, i64::MAX];
    let times = [0u32, 1, 16_667, 1_000_000, u32::MAX];
    for start in [-PITCH_LIMIT, -ONE, 0, 45 * ONE, PITCH_LIMIT] {
        for dy in deltas {
            for dt in times {
                let pitch = tilt_pitch(start, dy, dt);
                assert!(-PITCH_LIMIT <= pitch && pitch <= PITCH_LIMIT);
            }
        }
    }
    assert_eq!(tilt_pitch(0, -ONE, 1_000_000), 20 * ONE);
    assert_eq!(tilt_pitch(0, ONE, 1_000_000), -20 * ONE);
    assert_eq!(tilt_pitch(80 * ONE, -ONE, 1_000_000), PITCH_LIMIT);
    assert_eq!(tilt_pitch(-80 * ONE, ONE, 1_000_000), -PITCH_LIMIT);
    assert_eq!(tilt_pitch(0, 2 * ONE, 16_667), -666_680);
}

#[test]
fn look_turns_the_camera() {
    let mut cam = Camera::new(v(0, 0, 0), 359 * ONE, 0, ONE);
    cam.update_look((3 * ONE, 0), 16_667);
    assert_eq!(cam.yaw(), 20);
    assert_eq!(cam.pitch(), 0);
    assert_eq!(cam.forward(), v(ONE, 0, 0));
    assert_eq!(cam.right(), v(0, 0, ONE));
    assert_eq!(cam.up(), v(0, ONE, 0));

    let mut cam = Camera::new(v(0, 0, 0), 0, 0, ONE);
    cam.update_look((-3 * ONE, 2 * ONE), 16_667);
    assert_eq!(cam.yaw(), 358_999_980);
    assert_eq!(cam.pitch(), -666_680);
    assert_eq!(cam.forward(), v(999_779, -11_635, -17_451));
    assert_eq!(cam.right(), v(17_453, 0, 999_847));
    assert_eq!(cam.up(), v(11_633, 999_932, -203));
    cam.update_look((0, -1_000_000_000), 1_000_000);
    assert_eq!(cam.yaw(), 358_999_980);
    assert_eq!(cam.pitch(), PITCH_LIMIT);
    assert_eq!(cam.forward(), v(174, 999_999, -3));
    assert_eq!(cam.up(), v(-999_846, 175, 17_452));
    cam.update_look((0, 1_000_000_000), 1_000_000);
    assert_eq!(cam.pitch(), -PITCH_LIMIT);
    assert_eq!(cam.forward(), v(174, -999_999, -3));
    assert_eq!(cam.up(), v(999_846, 175, -17_452));
}

#[test]
fn look_with_the_largest_motions() {
    let mut cam = Camera::new(v(0, 0, 0), 0, 0, ONE);
    cam.update_look((i64::MIN, i64::MIN), u32::MAX);
    assert_eq!(cam.yaw(), 104_801_657);
    assert_eq!(cam.pitch(), PITCH_LIMIT);
    assert_orthonormal(cam.forward(), cam.right(), cam.up());
    cam.update_look((i64::MAX, i64::MAX), u32::MAX);
    assert_eq!(cam.yaw(), 359_914_101);
    assert_eq!(cam.pitch(), -PITCH_LIMIT);
    assert_orthonormal(cam.forward(), cam.right(), cam.up());
}

#[test]
fn look_keeps_position_and_velocity() {
    let mut cam = Camera::new(v(7, 8, 9), 350 * ONE, 80 * ONE, 1_333_333);
    cam.update_look((2 * ONE, -ONE), 500_000);
    assert_eq!(cam.yaw(), 10 * ONE);
    assert_eq!(cam.pitch(), PITCH_LIMIT);
    assert_eq!(cam.forward(), v(172, 999_999, 30));
    assert_eq!(cam.right(), v(-173_648, 0, 984_807));
    assert_eq!(cam.up(), v(-984_806, 175, -173_647));
    cam.update_look((1_234_567, 7_654_321), 16_667);
    assert_eq!(cam.yaw(), 10_411_530);
    assert_eq!(cam.pitch(), 87_438_509);
    assert_eq!(cam.forward(), v(43_956, 999_000, 8_076));
    assert_eq!(cam.right(), v(-180_717, 0, 983_535));
    assert_eq!(cam.up(), v(-982_551, 44_692, -180_536));
    assert_eq!(cam.loc(), v(7, 8, 9));
    assert_eq!(cam.vel(), v(0, 0, 0));
    assert_eq!(cam.aspect(), 1_333_333);
    assert_eq!(cam.speed(), 5 * ONE);
}

#[test]
fn look_for_no_time_or_no_motion_changes_nothing() {
    let mut cam = Camera::new(v(0, 0, 0), 77 * ONE, -33 * ONE, ONE);
    let frame = (cam.forward(), cam.right(), cam.up());
    cam.update_look((123_456_789, -987_654_321), 0);
    assert_eq!((cam.yaw(), cam.pitch()), (77 * ONE, -33 * ONE));
    assert_eq!((cam.forward(), cam.right(), cam.up()), frame);
    cam.update_look((0, 0), 16_667);
    assert_eq!((cam.yaw(), cam.pitch()), (77 * ONE, -33 * ONE));
    assert_eq!((cam.forward(), cam.right(), cam.up()), frame);
}
