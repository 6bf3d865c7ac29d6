use flycam::camera::{frame, Camera};
use flycam::fixed::ONE;
use flycam::input::{InputState, Key, KeyEvent, KeyState};
use flycam::projection::{
    aspect_of, gl_to_wgpu_matrix, perspective_matrix, DEPTH_OFFSET, DEPTH_SCALE, FOCAL_LENGTH,
    FOVY, ZFAR, ZNEAR,
};
use flycam::vector::Vec3;

#[test]
fn depth_constants() {
    assert_eq!(FOVY, 90 * ONE);
    assert_eq!(ZNEAR, 100_000);
    assert_eq!(ZFAR, 1000 * ONE);
    assert_eq!(FOCAL_LENGTH, ONE);
    let far = ZFAR as f64 / 1e6;
    let near = ZNEAR as f64 / 1e6;
    assert!((DEPTH_SCALE as f64 / 1e6 - (far + near) / (near - far)).abs() < 1e-6);
    assert!((DEPTH_OFFSET as f64 / 1e6 - 2.0 * far * near / (near - far)).abs() < 1e-6);
    assert_eq!(DEPTH_SCALE as i128, -((ZFAR as i128 + ZNEAR as i128) * ONE as i128 / (ZFAR - ZNEAR) as i128));
    assert_eq!(DEPTH_OFFSET as i128, -(2 * ZFAR as i128 * ZNEAR as i128 / (ZFAR - ZNEAR) as i128));
}

#[test]
fn correction_halves_the_depth() {
    let m = gl_to_wgpu_matrix().to_cols_array();
    assert_eq!(
        m,
        [[ONE, 0, 0, 0], [0, ONE, 0, 0], [0, 0, 500_000, 0], [0, 0, 500_000, ONE]]
    );
}

#[test]
fn perspective_entries() {
    let m = perspective_matrix(1_777_777).to_cols_array();
    assert_eq!(
        m,
        [[562_500, 0, 0, 0], [0, ONE, 0, 0], [0, 0, -1_000_200, -ONE], [0, 0, -200_020, 0]]
    );
    assert_eq!(perspective_matrix(ONE).to_cols_array()[0][0], ONE);
    assert_eq!(perspective_matrix(1).to_cols_array()[0][0], ONE * ONE);
    assert_eq!(perspective_matrix(i64::MAX).to_cols_array()[0][0], 0);
    assert_eq!(perspective_matrix(2 * ONE).to_cols_array()[0][0], 500_000);
}

#[test]
fn view_projection_at_the_origin() {
    let cam = Camera::new(Vec3 { x: 0, y: 0, z: 0 }, 0, 0, ONE);
    assert_eq!(
        cam.build_view_proj().to_cols_array(),
        [[0, 0, 1_000_100, ONE], [0, ONE, 0, 0], [ONE, 0, 0, 0], [0, 0, -100_010, 0]]
    );
}

#[test]
fn view_projection_of_a_tilted_camera() {
    let cam =
        Camera::new(Vec3 { x: 10 * ONE, y: 20 * ONE, z: -30 * ONE }, 30 * ONE, -20 * ONE, 1_777_777);
    assert_eq!(
        cam.build_view_proj().to_cols_array(),
        [
            [-281_250, 296_197, 813_877, 813_796],
            [0, 939_692, -342_054, -342_020],
            [487_139, 171_010, 469_892, 469_846],
            [17_426_671, -16_625_510, 12_699_089, 12_797_820],
        ]
    );
}

#[test]
fn aspect_changes_the_first_row_only() {
    let mut cam =
        Camera::new(Vec3 { x: 10 * ONE, y: 20 * ONE, z: -30 * ONE }, 30 * ONE, -20 * ONE, 1_777_777);
    let wide = cam.build_view_proj().to_cols_array();
    cam.set_aspect(1_333_333);
    assert_eq!(cam.aspect(), 1_333_333);
    let narrow = cam.build_view_proj().to_cols_array();
    assert_eq!(
        narrow,
        [
            [-375_000, 296_197, 813_877, 813_796],
            [0, 939_692, -342_054, -342_020],
            [649_518, 171_010, 469_892, 469_846],
            [23_235_562, -16_625_510, 12_699_089, 12_797_820],
        ]
    );
    for col in 0..4 {
        for row in 1..4 {
            assert_eq!(wide[col][row], narrow[col][row]);
        }
    }
    assert_ne!(wide[0][0], narrow[0][0]);
    assert_ne!(wide[2][0], narrow[2][0]);
    assert_ne!(wide[3][0], narrow[3][0]);
    // The camera itself has not moved or turned.
    assert_eq!(cam.loc(), Vec3 { x: 10 * ONE, y: 20 * ONE, z: -30 * ONE });
    assert_eq!(cam.yaw(), 30 * ONE);
    assert_eq!(cam.pitch(), -20 * ONE);
}

#[test]
fn view_projection_is_close_to_the_real_one() {
    let cam =
        Camera::new(Vec3 { x: 10 * ONE, y: 20 * ONE, z: -30 * ONE }, 30 * ONE, -20 * ONE, 1_777_777);
    let m = cam.build_view_proj().to_cols_array();
    let (yaw, pitch) = (30f64.to_radians(), (-20f64).to_radians());
    let f = [yaw.cos() * pitch.cos(), pitch.sin(), yaw.sin() * pitch.cos()];
    let r = [-yaw.sin(), 0.0, yaw.cos()];
    let u = [-yaw.cos() * pitch.sin(), pitch.cos(), -yaw.sin() * pitch.sin()];
    let eye = [10.0, 20.0, -30.0];
    let dot = |a: [f64; 3], b: [f64; 3]| a[0] * b[0] + a[1] * b[1] + a[2] * b[2];
    let aspect = 16.0 / 9.0;
    let (near, far) = (0.1, 1000.0);
    let a = far / (near - far);
    let b = far * near / (near - far);
    let view_rows = [
        [r[0], r[1], r[2], -dot(eye, r)],
        [u[0], u[1], u[2], -dot(eye, u)],
        [-f[0], -f[1], -f[2], dot(eye, f)],
    ];
    for col in 0..4 {
        let expected = [
            view_rows[0][col] / aspect,
            view_rows[1][col],
            a * view_rows[2][col] + if col == 3 { b } else { 0.0 },
            -view_rows[2][col],
        ];
        for row in 0..4 {
            let got = m[col][row] as f64 / 1e6;
            assert!((got - expected[row]).abs() < 1e-4, "{} {}: {} {}", col, row, got, expected[row]);
        }
    }
}

#[test]
fn aspect_of_a_picture() {
    assert_eq!(aspect_of(1920, 1080), Some(1_777_777));
    assert_eq!(aspect_of(1600, 900), Some(1_777_777));
    assert_eq!(aspect_of(800, 600), Some(1_333_333));
    assert_eq!(aspect_of(600, 600), Some(ONE));
    assert_eq!(aspect_of(1, 1_000_000), Some(1));
    assert_eq!(aspect_of(u32::MAX, 1), Some(4_294_967_295_000_000));
    assert_eq!(aspect_of(u32::MAX, u32::MAX), Some(ONE));
}

#[test]
fn no_aspect_without_a_picture() {
    assert_eq!(aspect_of(0, 1080), None);
    assert_eq!(aspect_of(1920, 0), None);
    assert_eq!(aspect_of(0, 0), None);
    // A ratio below a millionth rounds to nothing.
    assert_eq!(aspect_of(1, 1_000_001), None);
    assert_eq!(aspect_of(1, 4_000_000_000), None);
}

#[test]
fn one_frame_steps_turns_and_builds_the_matrix() {
    let mut cam = Camera::new(Vec3 { x: 1, y: 2, z: 3 }, 10 * ONE, 0, 1_777_777);
    cam.set_vel(Vec3 { x: ONE, y: -2 * ONE, z: 3 * ONE });
    let mut input = InputState::new();
    input.update_keyboard(&KeyEvent { state: KeyState::Pressed, key: Some(Key::W) });
    input.update_keyboard(&KeyEvent { state: KeyState::Pressed, key: Some(Key::Space) });
    input.update_mouse(&(2 * ONE, -3 * ONE));

    let (matrix, look) = frame(&mut cam, &mut input, 16_667);
    assert_eq!(look, (2 * ONE, -3 * ONE));
    assert_eq!(input.get_unhandled_mouse_move(), (0, 0));
    assert!(input.forward_pressed && input.space_pressed);
    assert_eq!(cam.loc(), Vec3 { x: 98_220, y: -152_778, z: 245_580 });
    assert_eq!(cam.vel(), Vec3 { x: 1_178_607, y: -1_833_330, z: 2_946_873 });
    assert_eq!(cam.yaw(), 10_666_680);
    assert_eq!(cam.pitch(), 1_000_020);
    assert_eq!(
        matrix.to_cols_array(),
        [
            [-104_115, -17_151, 982_667, 982_569],
            [0, 999_847, 17_454, 17_453],
            [552_780, -3_230, 185_084, 185_066],
            [-125_525, 155_232, -239_313, -139_290],
        ]
    );
    assert_eq!(matrix, cam.build_view_proj());

    // The same frame by hand.
    let mut by_hand = Camera::new(Vec3 { x: 1, y: 2, z: 3 }, 10 * ONE, 0, 1_777_777);
    by_hand.set_vel(Vec3 { x: ONE, y: -2 * ONE, z: 3 * ONE });
    by_hand.update_pos(16_667, &input);
    by_hand.update_look((2 * ONE, -3 * ONE), 16_667);
    assert_eq!(by_hand.build_view_proj(), matrix);

    // A second frame finds no mouse motion and does not turn.
    let (_, look) = frame(&mut cam, &mut input, 16_667);
    assert_eq!(look, (0, 0));
    assert_eq!(cam.yaw(), 10_666_680);
    assert_eq!(cam.pitch(), 1_000_020);
}
