use rand::rngs::StdRng;
use rand::SeedableRng;
use wellspring::shape::get_particle_position_offset;
use wellspring::shape::EmitterShape;
use wellspring::trig::HALF_PI;
use wellspring::trig::PI;
use wellspring::trig::QUARTER_PI;
use wellspring::vector::Vector2;

const ONE: i64 = 1_000_000;
const HALF: i64 = 500_000;

fn size() -> Vector2 {
    Vector2::new(100 * ONE, 50 * ONE)
}

#[test]
fn point_offset_is_zero() {
    let shape = EmitterShape::Point;
    assert_eq!(shape.offset_at(0, 0), Vector2::zero());
    assert_eq!(shape.offset_at(999_999, 123_456), Vector2::zero());
    let mut rng = StdRng::seed_from_u64(1);
    for _ in 0..100 {
        assert_eq!(get_particle_position_offset(&shape, &mut rng), Vector2::zero());
    }
}

#[test]
fn rectangle_offset_spans_the_rectangle() {
    let shape = EmitterShape::Rectangle(size(), 0);
    assert_eq!(shape.offset_at(0, 0), Vector2::new(-50 * ONE, -25 * ONE));
    assert_eq!(shape.offset_at(HALF, HALF), Vector2::zero());
    assert_eq!(shape.offset_at(999_999, 999_999), Vector2::new(49_999_900, 24_999_950));
    assert_eq!(shape.offset_at(250_000, 750_000), Vector2::new(-25 * ONE, 12_500_000));
}

#[test]
fn rectangle_offset_is_rotated() {
    let shape = EmitterShape::Rectangle(size(), HALF_PI);
    assert_eq!(shape.offset_at(250_000, 750_000), Vector2::new(-12_500_025, -24_999_988));
}

#[test]
fn rectangle_of_odd_size_rounds_its_half_down() {
    let shape = EmitterShape::Rectangle(Vector2::new(7, 3), 0);
    assert_eq!(shape.offset_at(0, 999_999), Vector2::new(-3, 0));
}

#[test]
fn ellipse_offset_scales_distance_by_size() {
    let shape = EmitterShape::Ellipse(size(), 0);
    assert_eq!(shape.offset_at(0, 0), Vector2::zero());
    assert_eq!(shape.offset_at(0, HALF), Vector2::new(50 * ONE, 0));
    assert_eq!(shape.offset_at(250_000, HALF), Vector2::new(0, 25 * ONE));
    assert_eq!(shape.offset_at(HALF, 999_999), Vector2::new(-99_999_900, 0));
}

#[test]
fn ellipse_offset_is_rotated() {
    let shape = EmitterShape::Ellipse(size(), QUARTER_PI);
    assert_eq!(shape.offset_at(125_000, HALF), Vector2::new(12_500_096, 37_500_057));
}

#[test]
fn rectangle_border_walks_the_four_sides_in_turn() {
    let shape = EmitterShape::RectangleBorder(size(), 0);
    assert_eq!(shape.offset_at(0, 0), Vector2::new(-50 * ONE, -25 * ONE));
    assert_eq!(shape.offset_at(100_000, 0), Vector2::new(-20 * ONE, -25 * ONE));
    assert_eq!(shape.offset_at(333_333, 0), Vector2::new(49_999_900, -25 * ONE));
    assert_eq!(shape.offset_at(333_334, 0), Vector2::new(50 * ONE, -24_999_800));
    assert_eq!(shape.offset_at(400_000, 0), Vector2::new(50 * ONE, -5 * ONE));
    assert_eq!(shape.offset_at(HALF, 0), Vector2::new(50 * ONE, 25 * ONE));
    assert_eq!(shape.offset_at(600_000, 0), Vector2::new(20 * ONE, 25 * ONE));
    assert_eq!(shape.offset_at(666_666, 0), Vector2::new(200, 25 * ONE));
    assert_eq!(shape.offset_at(666_667, 0), Vector2::new(-100, 25 * ONE));
    assert_eq!(shape.offset_at(800_000, 0), Vector2::new(-40 * ONE, 25 * ONE));
    assert_eq!(shape.offset_at(900_000, 0), Vector2::new(-50 * ONE, 5 * ONE));
    assert_eq!(shape.offset_at(999_999, 0), Vector2::new(-50 * ONE, -24_999_700));
}

#[test]
fn rectangle_border_ignores_the_second_fraction() {
    let shape = EmitterShape::RectangleBorder(size(), 0);
    assert_eq!(shape.offset_at(400_000, 0), shape.offset_at(400_000, 999_999));
}

#[test]
fn rectangle_border_is_rotated() {
    let shape = EmitterShape::RectangleBorder(size(), PI);
    assert_eq!(shape.offset_at(100_000, 0), Vector2::new(20 * ONE, 25 * ONE));
}

#[test]
fn rectangle_border_without_width_does_not_divide_by_zero() {
    let flat = EmitterShape::RectangleBorder(Vector2::new(0, 50 * ONE), 0);
    assert_eq!(flat.offset_at(0, 0), Vector2::new(0, -25 * ONE));
    assert_eq!(flat.offset_at(250_000, 0), Vector2::zero());
    assert_eq!(flat.offset_at(750_000, 0), Vector2::zero());
    let empty = EmitterShape::RectangleBorder(Vector2::zero(), 0);
    assert_eq!(empty.offset_at(HALF, 0), Vector2::zero());
}

#[test]
fn ellipse_border_lies_on_the_ellipse() {
    let shape = EmitterShape::EllipseBorder(size(), 0);
    assert_eq!(shape.offset_at(0, 0), Vector2::new(100 * ONE, 0));
    assert_eq!(shape.offset_at(125_000, 0), Vector2::new(70_710_800, 35_355_350));
    assert_eq!(shape.offset_at(250_000, 0), Vector2::new(100, 50 * ONE));
    assert_eq!(shape.offset_at(HALF, 0), Vector2::new(-100 * ONE, 50));
    assert_eq!(shape.offset_at(750_000, 0), Vector2::new(-200, -50 * ONE));
    assert_eq!(shape.offset_at(999_999, 0), Vector2::new(100 * ONE, -400));
}

#[test]
fn ellipse_border_is_rotated() {
    let shape = EmitterShape::EllipseBorder(size(), HALF_PI);
    assert_eq!(shape.offset_at(0, 0), Vector2::new(100, 100 * ONE));
}

#[test]
fn random_rectangle_offsets_stay_inside() {
    let shape = EmitterShape::Rectangle(size(), 0);
    let mut rng = StdRng::seed_from_u64(2);
    let mut left = false;
    let mut right = false;
    for _ in 0..2_000 {
        let v = get_particle_position_offset(&shape, &mut rng);
        assert!(-50 * ONE <= v.x && v.x < 50 * ONE);
        assert!(-25 * ONE <= v.y && v.y < 25 * ONE);
        left = left || v.x < 0;
        right = right || v.x > 0;
    }
    assert!(left && right);
}

#[test]
fn random_ellipse_offsets_stay_inside() {
    let shape = EmitterShape::Ellipse(size(), 0);
    let mut rng = StdRng::seed_from_u64(3);
    for _ in 0..2_000 {
        let v = get_particle_position_offset(&shape, &mut rng);
        let x = v.x as f64 / (100.0 * 1e6);
        let y = v.y as f64 / (50.0 * 1e6);
        assert!(x * x + y * y < 1.0001);
    }
}

#[test]
fn random_rectangle_border_offsets_lie_on_the_border() {
    let shape = EmitterShape::RectangleBorder(size(), 0);
    let mut rng = StdRng::seed_from_u64(4);
    for _ in 0..2_000 {
        let v = get_particle_position_offset(&shape, &mut rng);
        let on_side = v.x == -50 * ONE || v.x == 50 * ONE;
        let on_top_or_bottom = v.y == -25 * ONE || v.y == 25 * ONE;
        assert!(on_side || on_top_or_bottom);
        assert!(-50 * ONE <= v.x && v.x <= 50 * ONE);
        assert!(-25 * ONE <= v.y && v.y <= 25 * ONE);
    }
}

#[test]
fn random_ellipse_border_offsets_lie_on_the_ellipse() {
    let shape = EmitterShape::EllipseBorder(size(), 0);
    let mut rng = StdRng::seed_from_u64(5);
    for _ in 0..2_000 {
        let v = get_particle_position_offset(&shape, &mut rng);
        let x = v.x as f64 / (100.0 * 1e6);
        let y = v.y as f64 / (50.0 * 1e6);
        assert!((x * x + y * y - 1.0).abs() < 0.0001);
    }
}
