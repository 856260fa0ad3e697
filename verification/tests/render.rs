use raycaster::camera::{shade_distance, Camera, ConfigError};
use raycaster::geom::{distance, distance_squared, Vec3};
use raycaster::march::{direction_from_angles, fire_ray};
use raycaster::shapes::{check_scene, nearest_distance, Angle3D, Color, Cube, Shape};
use raycaster::sqrt::isqrt;
use raycaster::trig::{cos_deg_milli, sin_deg_milli, wrap_deg};

fn cyan() -> Color {
    Color { r: 0, g: 255, b: 255, a: 255 }
}

fn clear() -> Color {
    Color { r: 0, g: 0, b: 0, a: 0 }
}

/// The demonstration scene: a thin box ten units ahead and a larger box
/// further out, in thousandths of a world unit.
fn demo_scene() -> Vec<Shape> {
    vec![
        Cube::new(10_000, 0, -500, 5_000, 5_000, 1_000, cyan()),
        Cube::new(50_000, -5_000, -5_000, 10_000, 10_000, 10_000, clear()),
    ]
}

fn origin() -> Vec3 {
    Vec3 { x: 0, y: 0, z: 0 }
}

fn straight_ahead() -> Angle3D {
    Angle3D { roll: 0, yaw: 0, pitch: 0 }
}

#[test]
fn march_converges_on_near_face() {
    let scene = demo_scene();
    let total = fire_ray(origin(), straight_ahead(), 127_000, &scene);
    assert!(total >= 9_900 && total <= 10_100);
    assert_eq!(total, 10_000);
}

#[test]
fn march_stays_within_limit() {
    let scene = demo_scene();
    let angles = [
        Angle3D { roll: 0, yaw: 0, pitch: 0 },
        Angle3D { roll: 0, yaw: 45_000, pitch: -10_000 },
        Angle3D { roll: 0, yaw: -120_000, pitch: 90_000 },
        Angle3D { roll: 0, yaw: 359_000, pitch: 181_000 },
    ];
    for angle in angles {
        let total = fire_ray(origin(), angle, 127_000, &scene);
        assert!(total >= 0);
        assert!(total <= 127_000);
    }
}

#[test]
fn march_with_zero_limit_returns_zero() {
    let scene = demo_scene();
    let total = fire_ray(origin(), straight_ahead(), 0, &scene);
    assert_eq!(total, 0);
}

#[test]
fn ray_aimed_away_returns_exactly_the_limit() {
    let scene = demo_scene();
    let away = Angle3D { roll: 0, yaw: 180_000, pitch: 0 };
    let total = fire_ray(origin(), away, 127_000, &scene);
    assert_eq!(total, 127_000);
}

#[test]
fn inside_point_is_its_own_closest_point() {
    let shape = Cube::new(10_000, 0, -500, 5_000, 5_000, 1_000, cyan());
    let Shape::Cube(cube) = shape;
    let inside = Vec3 { x: 12_000, y: 2_000, z: 0 };
    let closest = cube.closest_point_on_cube(inside);
    assert_eq!(closest, inside);
    assert_eq!(distance_squared(inside, closest), 0);
    assert_eq!(distance(inside, closest), 0);
}

#[test]
fn quarter_turn_yaw_flattens_direction() {
    for pitch in [0, 37_000, -123_456] {
        let dir = direction_from_angles(&Angle3D { roll: 0, yaw: 90_000, pitch });
        assert_eq!(dir.x, 0);
        assert_eq!(dir.y, 0);
        assert_eq!(dir.z, -1000);
    }
}

#[test]
fn rendering_twice_is_byte_identical() {
    let wall = vec![Cube::new(5_000, -50_000, -50_000, 1_000, 100_000, 100_000, cyan())];
    let camera = Camera::new(origin(), 90, straight_ahead(), 4, 4);
    let first = camera.draw(&wall).unwrap();
    let second = camera.draw(&wall).unwrap();
    assert_eq!(first, second);
    assert_eq!(first.len(), 16);
}

#[test]
fn center_pixel_shades_the_wall_distance() {
    let wall = vec![Cube::new(5_000, -50_000, -50_000, 1_000, 100_000, 100_000, cyan())];
    let camera = Camera::new(origin(), 90, straight_ahead(), 4, 4);
    let frame = camera.draw(&wall).unwrap();
    let center = frame[10];
    assert_eq!(center.x, 2);
    assert_eq!(center.y, 2);
    assert_eq!(center.color, Color { r: 10, g: 10, b: 10, a: 255 });
}

#[test]
fn frame_is_emitted_columns_outermost() {
    let wall = vec![Cube::new(5_000, -50_000, -50_000, 1_000, 100_000, 100_000, cyan())];
    let camera = Camera::new(origin(), 90, straight_ahead(), 3, 2);
    let frame = camera.draw(&wall).unwrap();
    let coords: Vec<(u32, u32)> = frame.iter().map(|p| (p.x, p.y)).collect();
    assert_eq!(coords, vec![(0, 0), (0, 1), (1, 0), (1, 1), (2, 0), (2, 1)]);
}

#[test]
fn empty_scene_is_rejected() {
    let camera = Camera::new(origin(), 90, straight_ahead(), 4, 4);
    let empty: Vec<Shape> = Vec::new();
    assert_eq!(camera.draw(&empty), Err(ConfigError::EmptyScene));
}

#[test]
fn zero_image_dimension_is_rejected() {
    let camera = Camera::new(origin(), 90, straight_ahead(), 0, 4);
    assert_eq!(camera.draw(&demo_scene()), Err(ConfigError::InvalidImageDimensions));
}

#[test]
fn out_of_range_fov_is_rejected() {
    let wide = Camera::new(origin(), 400, straight_ahead(), 4, 4);
    assert_eq!(wide.draw(&demo_scene()), Err(ConfigError::InvalidCameraParameters));
    let negative = Camera::new(origin(), -1, straight_ahead(), 4, 4);
    assert_eq!(negative.draw(&demo_scene()), Err(ConfigError::InvalidCameraParameters));
}

#[test]
fn malformed_primitive_is_rejected() {
    let bad = vec![
        Shape::Cube(
            Cube {
                position: Vec3 { x: 0, y: 0, z: 0 },
                dimensions: Vec3 { x: -1_000, y: 0, z: 0 },
                color: cyan(),
            },
        ),
    ];
    assert!(!check_scene(&bad));
    let camera = Camera::new(origin(), 90, straight_ahead(), 4, 4);
    assert_eq!(camera.draw(&bad), Err(ConfigError::InvalidPrimitive));
}

#[test]
fn well_formed_scene_passes_the_check() {
    assert!(check_scene(&demo_scene()));
}

#[test]
fn sine_is_exact_at_the_calibration_angles() {
    assert_eq!(sin_deg_milli(0), 0);
    assert_eq!(sin_deg_milli(30_000), 500);
    assert_eq!(sin_deg_milli(90_000), 1000);
    assert_eq!(sin_deg_milli(150_000), 500);
    assert_eq!(sin_deg_milli(180_000), 0);
    assert_eq!(sin_deg_milli(-90_000), -1000);
    assert_eq!(cos_deg_milli(0), 1000);
    assert_eq!(cos_deg_milli(90_000), 0);
}

#[test]
fn angles_wrap_into_one_turn() {
    assert_eq!(wrap_deg(0), 0);
    assert_eq!(wrap_deg(725_000), 5_000);
    assert_eq!(wrap_deg(-90_000), 270_000);
    assert_eq!(wrap_deg(-720_000), 0);
}

#[test]
fn distances_match_the_euclidean_formula() {
    let a = Vec3 { x: 1_000, y: 2_000, z: 2_000 };
    let b = Vec3 { x: 0, y: 0, z: 0 };
    assert_eq!(distance_squared(a, b), 9_000_000);
    assert_eq!(distance(a, b), 3_000);
}

#[test]
fn integer_square_root_rounds_down() {
    assert_eq!(isqrt(0), 0);
    assert_eq!(isqrt(10), 3);
    assert_eq!(isqrt(99), 9);
    assert_eq!(isqrt(100), 10);
    assert_eq!(isqrt(100_000_000), 10_000);
}

#[test]
fn nearest_shape_scan_finds_the_minimum() {
    let scene = vec![
        Cube::new(2_000, 0, 0, 1_000, 1_000, 1_000, cyan()),
        Cube::new(-1_500, 0, 0, 1_000, 1_000, 1_000, clear()),
    ];
    let (dist, idx) = nearest_distance(&scene, origin());
    assert_eq!(dist, 500);
    assert_eq!(idx, 1);
}

#[test]
fn equidistant_shapes_tie_break_to_the_first() {
    let scene = vec![
        Cube::new(2_000, 0, 0, 1_000, 1_000, 1_000, cyan()),
        Cube::new(-3_000, 0, 0, 1_000, 1_000, 1_000, clear()),
    ];
    let (dist, idx) = nearest_distance(&scene, origin());
    assert_eq!(dist, 2_000);
    assert_eq!(idx, 0);
}

#[test]
fn shading_bands_wrap_at_two_hundred_fifty_five() {
    assert_eq!(shade_distance(0), 0);
    assert_eq!(shade_distance(10_000), 20);
    assert_eq!(shade_distance(127_000), 254);
    assert_eq!(shade_distance(127_500), 0);
}
