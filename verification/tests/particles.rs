use wellspring::color::Color;
use wellspring::particle::DrawParam;
use wellspring::particle::Particle;
use wellspring::vector::Vector2;

const ONE: i64 = 1_000_000;
const HALF: i64 = 500_000;

fn resting() -> Particle {
    Particle {
        lifetime: ONE,
        sizes: vec![ONE],
        colors: vec![Color::new(ONE, ONE, ONE, ONE)],
        use_relative_angle: false,
        time: 0,
        position: Vector2::zero(),
        velocity: Vector2::zero(),
        damping: 0,
        acceleration: Vector2::zero(),
        radial_acceleration: 0,
        tangential_acceleration: 0,
        angle: 0,
        spin: 0,
        offset: Vector2::new(HALF, HALF),
    }
}

#[test]
fn update_integrates_every_force() {
    let mut p = Particle {
        lifetime: 2 * ONE,
        position: Vector2::new(10 * ONE, 0),
        velocity: Vector2::new(3 * ONE, 4 * ONE),
        damping: HALF,
        acceleration: Vector2::new(0, -9_800_000),
        radial_acceleration: 5 * ONE,
        tangential_acceleration: 2 * ONE,
        spin: ONE,
        ..resting()
    };
    p.update(100_000, Vector2::zero());
    assert_eq!(p.time, 50_000);
    assert_eq!(p.velocity, Vector2::new(3_333_330, 3_066_663));
    assert_eq!(p.position, Vector2::new(10_333_333, 306_666));
    assert_eq!(p.angle, 100_000);
    p.update(100_000, Vector2::zero());
    assert_eq!(p.time, 100_000);
    assert_eq!(p.velocity, Vector2::new(3_644_925, 2_191_813));
    assert_eq!(p.position, Vector2::new(10_697_825, 525_847));
    assert_eq!(p.angle, 200_000);
}

#[test]
fn update_pushes_along_and_around_the_radial_vector() {
    let mut p = Particle {
        lifetime: 3 * ONE,
        position: Vector2::new(3 * ONE, 4 * ONE),
        radial_acceleration: 10 * ONE,
        tangential_acceleration: -20 * ONE,
        angle: 250_000,
        spin: -2 * ONE,
        ..resting()
    };
    p.update(HALF, Vector2::zero());
    assert_eq!(p.time, 166_666);
    assert_eq!(p.velocity, Vector2::new(11 * ONE, -2 * ONE));
    assert_eq!(p.position, Vector2::new(8_500_000, 3 * ONE));
    assert_eq!(p.angle, -750_000);
}

#[test]
fn update_at_the_emitter_position_has_no_radial_force() {
    let emitter = Vector2::new(400 * ONE, 300 * ONE);
    let mut p = Particle {
        position: emitter,
        velocity: Vector2::new(-7 * ONE, 2_500_000),
        radial_acceleration: 100 * ONE,
        tangential_acceleration: 50 * ONE,
        ..resting()
    };
    p.update(16_667, emitter);
    assert_eq!(p.time, 16_667);
    assert_eq!(p.velocity, Vector2::new(-7 * ONE, 2_500_000));
    assert_eq!(p.position, Vector2::new(399_883_331, 300_041_667));
}

#[test]
fn update_at_rest_on_the_emitter_stays_at_rest() {
    let emitter = Vector2::new(-5 * ONE, 9 * ONE);
    let mut p = Particle {
        position: emitter,
        radial_acceleration: i64::MAX,
        tangential_acceleration: i64::MIN,
        ..resting()
    };
    for _ in 0..10 {
        p.update(16_667, emitter);
        assert_eq!(p.velocity, Vector2::zero());
        assert_eq!(p.position, emitter);
    }
}

#[test]
fn update_can_carry_time_past_one() {
    let mut p = Particle { lifetime: 250_000, ..resting() };
    p.update(300_000, Vector2::zero());
    assert_eq!(p.time, 1_200_000);
}

#[test]
fn update_leaves_the_spawned_attributes_alone() {
    let mut p = Particle {
        lifetime: 2 * ONE,
        sizes: vec![ONE, 3 * ONE],
        colors: vec![Color::new(ONE, 0, 0, ONE), Color::new(0, 0, ONE, 0)],
        use_relative_angle: true,
        damping: 250_000,
        acceleration: Vector2::new(ONE, -ONE),
        radial_acceleration: 7,
        tangential_acceleration: -7,
        spin: 3,
        offset: Vector2::new(1, 2),
        ..resting()
    };
    p.update(100_000, Vector2::new(ONE, ONE));
    assert_eq!(p.lifetime, 2 * ONE);
    assert_eq!(p.sizes, vec![ONE, 3 * ONE]);
    assert_eq!(p.colors, vec![Color::new(ONE, 0, 0, ONE), Color::new(0, 0, ONE, 0)]);
    assert!(p.use_relative_angle);
    assert_eq!(p.damping, 250_000);
    assert_eq!(p.acceleration, Vector2::new(ONE, -ONE));
    assert_eq!(p.radial_acceleration, 7);
    assert_eq!(p.tangential_acceleration, -7);
    assert_eq!(p.spin, 3);
    assert_eq!(p.offset, Vector2::new(1, 2));
}

#[test]
fn damping_that_cancels_the_denominator_saturates() {
    let mut p = Particle {
        velocity: Vector2::new(2 * ONE, -2 * ONE),
        damping: -2 * ONE,
        ..resting()
    };
    p.update(HALF, Vector2::zero());
    assert_eq!(p.velocity, Vector2::new(i64::MAX, i64::MIN));
    assert_eq!(p.position, Vector2::new(4_611_686_018_427_387_903, -4_611_686_018_427_387_904));
}

#[test]
fn size_follows_the_curve_over_the_life() {
    let mut p = Particle { sizes: vec![ONE, 3 * ONE, 0], ..resting() };
    assert_eq!(p.get_size(), ONE);
    p.time = 250_000;
    assert_eq!(p.get_size(), 2 * ONE);
    p.time = HALF;
    assert_eq!(p.get_size(), 3 * ONE);
    p.time = 750_000;
    assert_eq!(p.get_size(), 1_500_000);
    p.time = ONE;
    assert_eq!(p.get_size(), 0);
}

#[test]
fn size_and_color_hold_time_to_the_unit_interval() {
    let mut p = Particle {
        sizes: vec![ONE, 3 * ONE],
        colors: vec![Color::new(ONE, 0, 0, ONE), Color::new(0, 0, ONE, 0)],
        ..resting()
    };
    p.time = 1_200_000;
    assert_eq!(p.get_size(), 3 * ONE);
    assert_eq!(p.get_color(), Color::new(0, 0, ONE, 0));
    p.time = -1;
    assert_eq!(p.get_size(), ONE);
    assert_eq!(p.get_color(), Color::new(ONE, 0, 0, ONE));
}

#[test]
fn color_follows_the_curve_over_the_life() {
    let mut p = Particle {
        colors: vec![
            Color::new(ONE, ONE, ONE, ONE),
            Color::new(ONE, 0, 0, 666_667),
            Color::new(0, 0, ONE, 0),
        ],
        ..resting()
    };
    p.time = 250_000;
    assert_eq!(p.get_color(), Color::new(ONE, HALF, HALF, 833_333));
    p.time = 600_000;
    assert_eq!(p.get_color(), Color::new(800_000, 0, 200_000, 533_333));
}

#[test]
fn angle_is_the_own_angle_unless_relative() {
    let mut p = Particle {
        velocity: Vector2::new(0, 5 * ONE),
        angle: 123_456,
        ..resting()
    };
    assert_eq!(p.get_angle(), 123_456);
    p.use_relative_angle = true;
    assert_eq!(p.get_angle(), 1_570_796);
    p.velocity = Vector2::new(-3 * ONE, 0);
    assert_eq!(p.get_angle(), 3_141_593);
    p.velocity = Vector2::new(4 * ONE, 3 * ONE);
    assert_eq!(p.get_angle(), 643_502);
    p.velocity = Vector2::zero();
    assert_eq!(p.get_angle(), 0);
}

#[test]
fn draw_gives_place_scale_rotation_anchor_and_tint() {
    let p = Particle {
        sizes: vec![2 * ONE, 4 * ONE],
        colors: vec![Color::new(ONE, ONE, ONE, ONE), Color::new(0, 0, 0, 0)],
        time: HALF,
        position: Vector2::new(7 * ONE, -8 * ONE),
        angle: 250_000,
        offset: Vector2::new(HALF, 250_000),
        ..resting()
    };
    assert_eq!(
        p.draw(),
        DrawParam {
            dest: Vector2::new(7 * ONE, -8 * ONE),
            scale: Vector2::new(3 * ONE, 3 * ONE),
            rotation: 250_000,
            offset: Vector2::new(HALF, 250_000),
            color: Color::new(HALF, HALF, HALF, HALF),
        }
    );
}
