use toroid_render::animation::AnimationState;
use toroid_render::render::frame_size;
use toroid_render::render::render_frame;
use toroid_render::render::render_text;
use toroid_render::render::shade_char;
use toroid_render::render::Screen;
use toroid_render::rotation::Rotation;
use toroid_render::rotation::RotationAxis;
use toroid_render::surface::toroid;
use toroid_render::trig::cos_sin;
use toroid_render::vector::Point3d;
use toroid_render::SCALE;

const OUTER: i64 = 3 * SCALE;
const INNER: i64 = 117964;

#[test]
fn rotation_by_zero_is_identity() {
    let p = Point3d::new(65536, 123456, -78901);
    for axis in [RotationAxis::X, RotationAxis::Y, RotationAxis::Z] {
        let r = Rotation::new(0, axis).apply(p);
        assert_eq!(r.x, p.x);
        assert_eq!(r.y, p.y);
        assert_eq!(r.z, p.z);
    }
}

#[test]
fn rotation_preserves_axis_coordinate() {
    let p = Point3d::new(65536, -99999, 424242);
    for angle in [-300000i64, -6554, 0, 6554, 32768, 4000000] {
        assert_eq!(Rotation::new(angle, RotationAxis::X).apply(p).x, p.x);
        assert_eq!(Rotation::new(angle, RotationAxis::Y).apply(p).y, p.y);
        assert_eq!(Rotation::new(angle, RotationAxis::Z).apply(p).z, p.z);
    }
}

#[test]
fn rotation_round_trip_within_tolerance() {
    let p = Point3d::new(65536, 131072, 196608);
    let tol = 196608 / 512 + 5;
    for axis in [RotationAxis::X, RotationAxis::Y, RotationAxis::Z] {
        for angle in [6554i64, 32768, 102944, 400000] {
            let there = Rotation::new(angle, axis).apply(p);
            let back = Rotation::new(-angle, axis).apply(there);
            assert!((back.x - p.x).abs() <= tol);
            assert!((back.y - p.y).abs() <= tol);
            assert!((back.z - p.z).abs() <= tol);
        }
    }
}

#[test]
fn dot_is_symmetric() {
    let a = Point3d::new(65536, 2 * 65536, 3 * 65536);
    let b = Point3d::new(4 * 65536, 5 * 65536, 6 * 65536);
    assert_eq!(a.dot(b), b.dot(a));
    assert_eq!(a.dot(b), 32 * 65536);
    let c = Point3d::new(-12345, 678, -91011);
    let d = Point3d::new(55555, -4444, 333);
    assert_eq!(c.dot(d), d.dot(c));
}

#[test]
fn toroid_produces_fixed_sample_count() {
    let samples = toroid(OUTER, INNER);
    assert_eq!(samples.len(), 628 * 628);
    let tall = toroid(4 * SCALE, SCALE / 2);
    assert_eq!(tall.len(), 628 * 628);
}

#[test]
fn toroid_first_sample_is_exact() {
    let samples = toroid(OUTER, INNER);
    let (p, n) = samples[0];
    assert_eq!((p.x, p.y, p.z), (OUTER + INNER, 0, 0));
    assert_eq!((n.x, n.y, n.z), (SCALE, 0, 0));
}

#[test]
fn toroid_normals_are_unit_length() {
    let samples = toroid(OUTER, INNER);
    let lo: i64 = 4261412864;
    let hi: i64 = 4328521728;
    for k in 0..samples.len() / 997 {
        let n = samples[k * 997].1;
        let m = n.x * n.x + n.y * n.y + n.z * n.z;
        assert!(lo <= m && m <= hi, "sample {} magnitude {}", k * 997, m);
    }
}

#[test]
fn trig_pairs_are_sane() {
    assert_eq!(cos_sin(0), (SCALE, 0));
    let (c, s) = cos_sin(102944);
    assert!(c.abs() < 300);
    assert!((s - SCALE).abs() < 300);
    let (c2, s2) = cos_sin(-102944);
    assert_eq!(c2, c);
    assert_eq!(s2, -s);
}

#[test]
fn nearer_sample_overwrites_and_farther_does_not() {
    // Two samples projecting to the screen centre cell (row 41, col 75):
    // inverse depths 0.05 then 0.08 (second nearer).
    let mut screen = Screen::new();
    let idx = 41 * 150 + 75;
    let far = Point3d::new(0, 0, 655360);
    let up = Point3d::new(0, SCALE, 0);
    let near = Point3d::new(0, 0, 163840);
    let toward = Point3d::new(0, 0, SCALE);
    screen.plot_sample(far, up, 2560006);
    assert_eq!(screen.depth[idx], 3276);
    assert_eq!(screen.chars[idx], '*');
    screen.plot_sample(near, toward, 2560006);
    assert_eq!(screen.depth[idx], 5242);
    assert_eq!(screen.chars[idx], '.');
    // A later, strictly farther sample must not overwrite the nearer one.
    let farther = Point3d::new(0, 0, 1310720);
    screen.plot_sample(farther, up, 2560006);
    assert_eq!(screen.depth[idx], 5242);
    assert_eq!(screen.chars[idx], '.');
}

#[test]
fn boundary_screen_x_is_discarded() {
    // This sample computes screen_x exactly equal to WIDTH (150.0): discard.
    let mut screen = Screen::new();
    let p = Point3d::new(2457600, 0, -589824);
    let n = Point3d::new(0, SCALE, 0);
    screen.plot_sample(p, n, SCALE);
    for i in 0..12000 {
        assert_eq!(screen.depth[i], 0);
        assert_eq!(screen.chars[i], ' ');
    }
    // One fixed-point step inside the boundary is drawn.
    let q = Point3d::new(2457599, 0, -589824);
    screen.plot_sample(q, n, SCALE);
    assert!(screen.depth[41 * 150 + 149] > 0);
}

#[test]
fn shading_index_clamps() {
    // l_level = -3.0 resolves to ramp index 0; l_level = 5.6 to index 5.
    assert_eq!(shade_char(-3 * SCALE), '.');
    assert_eq!(shade_char(367001), ';');
    assert_eq!(shade_char(0), '.');
    assert_eq!(shade_char(5 * SCALE), ';');
    assert_eq!(shade_char(11 * SCALE), '@');
    assert_eq!(shade_char(200 * SCALE), '@');
}

#[test]
fn frame_size_matches_formula() {
    assert_eq!(frame_size(OUTER, INNER), 2560006);
}

#[test]
fn full_frame_at_zero_angles_keeps_nearest_samples() {
    let samples = toroid(OUTER, INNER);
    let size = frame_size(OUTER, INNER);
    let mut screen = Screen::new();
    render_frame(&mut screen, &samples, 0, 0, 0, size);
    let mut drawn = 0usize;
    for i in 0..12000 {
        assert_eq!(screen.depth[i] > 0, screen.chars[i] != ' ');
        if screen.depth[i] > 0 {
            drawn += 1;
        }
    }
    assert!(drawn > 0);
    // Rendering the same samples again must change nothing: every cell
    // already holds its nearest sample, and equal depths keep the earlier
    // written sample.
    let depth_before: Vec<i64> = screen.depth.clone();
    let chars_before: Vec<char> = screen.chars.clone();
    render_frame(&mut screen, &samples, 0, 0, 0, size);
    assert_eq!(screen.depth, depth_before);
    assert_eq!(screen.chars, chars_before);
}

#[test]
fn render_text_serializes_rows() {
    let screen = Screen::new();
    let out = render_text(&screen);
    assert_eq!(out.len(), 80 * 151);
    for r in 0..80 {
        for c in 0..150 {
            assert_eq!(out[r * 151 + c], ' ');
        }
        assert_eq!(out[r * 151 + 150], '\n');
    }
}

#[test]
fn screen_clear_resets_buffers() {
    let mut screen = Screen::new();
    screen.plot_sample(
        Point3d::new(0, 0, 163840),
        Point3d::new(0, SCALE, 0),
        2560006,
    );
    assert!(screen.depth[41 * 150 + 75] > 0);
    screen.clear();
    for i in 0..12000 {
        assert_eq!(screen.depth[i], 0);
        assert_eq!(screen.chars[i], ' ');
    }
}

#[test]
fn animation_state_advances_angles() {
    let mut state = AnimationState::new();
    assert_eq!((state.angle_x, state.angle_y, state.angle_z), (0, 0, 0));
    state.advance();
    state.advance();
    assert_eq!((state.angle_x, state.angle_y, state.angle_z), (13108, 13108, 13108));
}
