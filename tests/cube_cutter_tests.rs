use cube_cutter::camera::{camera_step, CameraKeys};
use cube_cutter::cutter::{cutter_delta, move_cutter, update_visibility, CutterKeys, Cutters};
use cube_cutter::field::{cube_color, cube_field, Cube, LATTICE_CELLS};
use cube_cutter::quadratic::{solve_quadratic, Surd};

fn value(s: &Surd) -> f32 {
    (s.base as f32 + s.coef as f32 * (s.radicand as f32).sqrt()) / s.denom as f32
}

fn close(x: f32, y: f32) -> bool {
    (x - y).abs() < 1e-5
}

fn keys(left: bool, right: bool, up: bool, down: bool) -> CutterKeys {
    CutterKeys { left, right, up, down }
}

fn plain_cube(x: i16, z: i16) -> Cube {
    let mut cube = cube_field()[0];
    cube.x = x;
    cube.y = 0;
    cube.z = z;
    cube
}

#[test]
fn zero_discriminant_gives_one_root() {
    let (first, rest) = solve_quadratic(1, 2, 1);
    assert_eq!(value(&first), -1.0);
    assert!(rest.is_none());
}

#[test]
fn positive_discriminant_gives_two_real_roots() {
    let (first, rest) = solve_quadratic(1, -3, 2);
    let (second, complex) = rest.unwrap();
    assert_eq!(value(&first), 2.0);
    assert_eq!(value(&second), 1.0);
    assert!(!complex);
}

#[test]
fn negative_discriminant_is_complex() {
    let (first, rest) = solve_quadratic(1, 0, 1);
    let (second, complex) = rest.unwrap();
    assert!(complex);
    assert_eq!(value(&first), 1.0);
    assert_eq!(value(&second), -1.0);
    assert_eq!(first, Surd { base: 0, coef: 1, radicand: 4, denom: 2 });
}

#[test]
fn roots_solve_their_equation() {
    for (a, b, c) in [(1i16, -3i16, 2i16), (2, 5, -3), (1, 2, 1), (-3, 7, 4), (5, 1, -9)] {
        let (first, rest) = solve_quadratic(a, b, c);
        let check = |r: &Surd| {
            let x = value(r);
            let y = a as f32 * x * x + b as f32 * x + c as f32;
            assert!(y.abs() < 1e-3, "{a} {b} {c}: {y}");
        };
        check(&first);
        if let Some((second, complex)) = rest {
            assert!(!complex);
            check(&second);
        }
    }
}

#[test]
fn zero_leading_coefficient_is_not_finite() {
    let (first, rest) = solve_quadratic(0, 2, 1);
    assert_eq!(first.denom, 0);
    assert!(!value(&first).is_finite());
    assert!(rest.is_some());
}

#[test]
fn cube_colors_follow_the_roots() {
    let real = cube_color(1, -3, 2);
    assert!(close(value(&real.red), 3.0));
    assert_eq!(value(&real.green), 0.0);
    assert!(close(value(&real.blue), 1.5));

    let single = cube_color(1, 2, 1);
    assert!(close(value(&single.red), -1.5));
    assert_eq!(value(&single.green), 1.0);
    assert!(close(value(&single.blue), 1.5));

    let complex = cube_color(1, 0, 1);
    assert!(close(value(&complex.red), 1.5));
    assert_eq!(value(&complex.green), 1.0);
    assert!(close(value(&complex.blue), -1.5));
}

#[test]
fn lattice_covers_the_grid() {
    let cubes = cube_field();
    assert_eq!(cubes.len(), LATTICE_CELLS);
    assert_eq!(cubes.len(), 64000);
    assert_eq!((cubes[0].x, cubes[0].y, cubes[0].z), (-20, -20, -20));
    assert_eq!((cubes[1].x, cubes[1].y, cubes[1].z), (-20, -20, -19));
    assert_eq!((cubes[40].x, cubes[40].y, cubes[40].z), (-20, -19, -20));
    assert_eq!((cubes[63999].x, cubes[63999].y, cubes[63999].z), (19, 19, 19));
    assert!(cubes.iter().all(|c| c.visible));
    let cell = cubes.iter().find(|c| (c.x, c.y, c.z) == (1, -3, 2)).unwrap();
    assert_eq!(cell.color, cube_color(1, -3, 2));
}

#[test]
fn cutter_delta_from_keys() {
    assert_eq!(cutter_delta(keys(true, false, false, false)), (3, 0));
    assert_eq!(cutter_delta(keys(false, true, false, true)), (-3, -3));
    assert_eq!(cutter_delta(keys(true, true, true, true)), (0, 0));
}

#[test]
fn cutter_never_passes_lower_bound() {
    let mut cutters = Cutters::new();
    assert_eq!((cutters.x, cutters.z), (300, 300));
    let mut cubes = vec![plain_cube(0, 0)];
    for _ in 0..500 {
        move_cutter(&mut cutters, keys(false, true, false, false), &mut cubes);
        assert!(cutters.x >= -300);
    }
    assert_eq!(cutters.x, -300);
    assert_eq!(cutters.z, 300);
}

#[test]
fn cutter_never_passes_upper_bound() {
    let mut cutters = Cutters::new();
    let mut cubes = Vec::new();
    assert!(move_cutter(&mut cutters, keys(true, false, true, false), &mut cubes));
    assert_eq!((cutters.x, cutters.z), (300, 300));
}

#[test]
fn visibility_uses_strict_comparison() {
    let cutters = Cutters { x: 50, z: -30 };
    let mut cubes = Vec::new();
    for x in -6i16..=7 {
        for z in -5i16..=2 {
            cubes.push(plain_cube(x, z));
        }
    }
    update_visibility(&cutters, &mut cubes);
    for cube in &cubes {
        let hidden = cube.x > 5 || cube.z > -3;
        assert_eq!(cube.visible, !hidden, "{} {}", cube.x, cube.z);
        assert_eq!(cutters.hides(cube.x, cube.z), hidden);
    }
    assert!(!cutters.hides(5, -3));
    assert!(cutters.hides(6, -3));
    assert!(cutters.hides(5, -2));
}

#[test]
fn moving_cutter_hides_cubes_beyond() {
    let mut cutters = Cutters { x: 3, z: 300 };
    let mut cubes = vec![plain_cube(0, 0), plain_cube(1, 0), plain_cube(0, 30)];
    cubes[1].visible = false;
    assert!(move_cutter(&mut cutters, keys(false, true, false, false), &mut cubes));
    assert_eq!((cutters.x, cutters.z), (0, 300));
    assert!(cubes[0].visible);
    assert!(!cubes[1].visible);
    assert!(cubes[2].visible);
    assert!(move_cutter(&mut cutters, keys(false, false, false, true), &mut cubes));
    assert_eq!((cutters.x, cutters.z), (0, 297));
    assert!(cubes[0].visible);
    assert!(!cubes[2].visible);
}

#[test]
fn zero_delta_changes_nothing() {
    let mut cutters = Cutters { x: -120, z: 75 };
    let mut cubes = vec![plain_cube(0, 0), plain_cube(-19, -19)];
    cubes[1].visible = false;
    let before = cubes.clone();
    assert!(!move_cutter(&mut cutters, keys(false, false, false, false), &mut cubes));
    assert!(!move_cutter(&mut cutters, keys(true, true, true, true), &mut cubes));
    assert_eq!((cutters.x, cutters.z), (-120, 75));
    assert_eq!(cubes, before);
}

#[test]
fn camera_step_from_keys() {
    let none = CameraKeys { forward: false, left: false, back: false, right: false, rise: false, fall: false };
    let still = camera_step(none);
    assert_eq!((still.local_x, still.local_z, still.world_z, still.moved), (0, 0, 0, false));
    let step = camera_step(CameraKeys { forward: true, right: true, rise: true, ..none });
    assert_eq!((step.local_x, step.local_z, step.world_z, step.moved), (1, -1, 1, true));
    let step = camera_step(CameraKeys { left: true, back: true, fall: true, ..none });
    assert_eq!((step.local_x, step.local_z, step.world_z, step.moved), (-1, 1, -1, true));
    let cancel = camera_step(CameraKeys { left: true, right: true, ..none });
    assert_eq!((cancel.local_x, cancel.moved), (0, true));
}
