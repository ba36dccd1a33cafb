use wellspring::color::Color;
use wellspring::settings::EmitterLifetime;
use wellspring::settings::ParticleSystemSettings;
use wellspring::settings::SettingsError;
use wellspring::shape::EmitterShape;
use wellspring::vector::Vector2;

const ONE: i64 = 1_000_000;
const HALF: i64 = 500_000;

#[test]
fn default_settings_hold_the_documented_values() {
    let s = ParticleSystemSettings::default();
    assert_eq!(s.position, Vector2::zero());
    assert!(matches!(s.emitter_lifetime, EmitterLifetime::Infinite));
    assert_eq!(s.particle_lifetime, ONE..ONE);
    assert_eq!(s.emission_rate, 10 * ONE);
    assert!(matches!(s.shape, EmitterShape::Point));
    assert_eq!(s.speed, 10 * ONE..100 * ONE);
    assert_eq!(s.angle, 0);
    assert_eq!(s.spread, 6_283_185);
    assert_eq!(s.sizes, vec![ONE]);
    assert_eq!(s.colors, vec![Color::new(ONE, ONE, ONE, ONE)]);
    assert_eq!(s.spin, 0..0);
    assert!(!s.use_relative_angle);
    assert_eq!(s.damping, 0..0);
    assert_eq!(s.acceleration, Vector2::zero()..Vector2::zero());
    assert_eq!(s.radial_acceleration, 0..0);
    assert_eq!(s.tangential_acceleration, 0..0);
    assert_eq!(s.offset, Vector2::new(HALF, HALF));
}

#[test]
fn default_settings_are_valid() {
    assert_eq!(ParticleSystemSettings::default().validate(), Ok(()));
}

#[test]
fn settings_without_sizes_are_refused() {
    let s = ParticleSystemSettings { sizes: vec![], ..Default::default() };
    assert_eq!(s.validate(), Err(SettingsError::NoSizes));
    let both = ParticleSystemSettings { sizes: vec![], colors: vec![], ..Default::default() };
    assert_eq!(both.validate(), Err(SettingsError::NoSizes));
}

#[test]
fn settings_without_colors_are_refused() {
    let s = ParticleSystemSettings { colors: vec![], ..Default::default() };
    assert_eq!(s.validate(), Err(SettingsError::NoColors));
}

#[test]
fn settings_with_a_color_out_of_range_are_refused() {
    let s = ParticleSystemSettings {
        colors: vec![Color::new(ONE, ONE, ONE, ONE), Color::new(0, 0, ONE + 1, 0)],
        ..Default::default()
    };
    assert_eq!(s.validate(), Err(SettingsError::ColorOutOfRange));
    let negative = ParticleSystemSettings {
        colors: vec![Color::new(-1, 0, 0, 0)],
        particle_lifetime: 0..0,
        ..Default::default()
    };
    assert_eq!(negative.validate(), Err(SettingsError::ColorOutOfRange));
}

#[test]
fn settings_with_a_lifetime_that_is_not_positive_are_refused() {
    let zero = ParticleSystemSettings { particle_lifetime: 0..ONE, ..Default::default() };
    assert_eq!(zero.validate(), Err(SettingsError::LifetimeNotPositive));
    let negative = ParticleSystemSettings { particle_lifetime: ONE..-ONE, ..Default::default() };
    assert_eq!(negative.validate(), Err(SettingsError::LifetimeNotPositive));
    let both = ParticleSystemSettings { particle_lifetime: 0..0, ..Default::default() };
    assert_eq!(both.validate(), Err(SettingsError::LifetimeNotPositive));
}

#[test]
fn settings_with_several_keyframes_are_valid() {
    let s = ParticleSystemSettings {
        position: Vector2::new(400 * ONE, 300 * ONE),
        particle_lifetime: 250_000..ONE,
        emission_rate: 100 * ONE,
        colors: vec![
            Color::new(ONE, ONE, ONE, ONE),
            Color::new(ONE, 0, 0, 666_667),
            Color::new(0, 0, ONE, 0),
        ],
        sizes: vec![ONE, 0],
        speed: 100 * ONE..200 * ONE,
        damping: ONE..10 * ONE,
        use_relative_angle: true,
        tangential_acceleration: -200 * ONE..200 * ONE,
        ..Default::default()
    };
    assert_eq!(s.validate(), Ok(()));
}

#[test]
fn cloned_settings_hold_the_same_values() {
    let s = ParticleSystemSettings {
        position: Vector2::new(1, 2),
        emitter_lifetime: EmitterLifetime::Finite(3),
        particle_lifetime: 4..5,
        emission_rate: 6,
        shape: EmitterShape::Ellipse(Vector2::new(7, 8), 9),
        speed: 10..11,
        angle: 12,
        spread: 13,
        sizes: vec![14, 15],
        colors: vec![Color::new(16, 17, 18, 19)],
        spin: 20..21,
        use_relative_angle: true,
        damping: 22..23,
        acceleration: Vector2::new(24, 25)..Vector2::new(26, 27),
        radial_acceleration: 28..29,
        tangential_acceleration: 30..31,
        offset: Vector2::new(32, 33),
    };
    let c = s.clone();
    assert_eq!(c.position, Vector2::new(1, 2));
    assert!(matches!(c.emitter_lifetime, EmitterLifetime::Finite(3)));
    assert_eq!(c.particle_lifetime, 4..5);
    assert_eq!(c.emission_rate, 6);
    assert!(matches!(c.shape, EmitterShape::Ellipse(Vector2 { x: 7, y: 8 }, 9)));
    assert_eq!(c.speed, 10..11);
    assert_eq!(c.angle, 12);
    assert_eq!(c.spread, 13);
    assert_eq!(c.sizes, vec![14, 15]);
    assert_eq!(c.colors, vec![Color::new(16, 17, 18, 19)]);
    assert_eq!(c.spin, 20..21);
    assert!(c.use_relative_angle);
    assert_eq!(c.damping, 22..23);
    assert_eq!(c.acceleration, Vector2::new(24, 25)..Vector2::new(26, 27));
    assert_eq!(c.radial_acceleration, 28..29);
    assert_eq!(c.tangential_acceleration, 30..31);
    assert_eq!(c.offset, Vector2::new(32, 33));
}
