use rand::rngs::StdRng;
use rand::SeedableRng;
use wellspring::random::draw_fraction;
use wellspring::random::get_rand_in_range;
use wellspring::random::get_rand_vector_in_range;
use wellspring::vector::Vector2;

const ONE: i64 = 1_000_000;

#[test]
fn fractions_lie_in_the_half_open_unit_interval() {
    let mut rng = StdRng::seed_from_u64(11);
    for _ in 0..10_000 {
        let u = draw_fraction(&mut rng);
        assert!(0 <= u && u < ONE);
    }
}

#[test]
fn fractions_vary() {
    let mut rng = StdRng::seed_from_u64(12);
    let first = draw_fraction(&mut rng);
    let mut differs = false;
    let mut low = false;
    let mut high = false;
    for _ in 0..1_000 {
        let u = draw_fraction(&mut rng);
        differs = differs || u != first;
        low = low || u < 250_000;
        high = high || u >= 750_000;
    }
    assert!(differs && low && high);
}

#[test]
fn degenerate_range_always_yields_its_constant() {
    let mut rng = StdRng::seed_from_u64(13);
    for value in [0, 1, -1, 42 * ONE, i64::MIN, i64::MAX] {
        for _ in 0..200 {
            assert_eq!(get_rand_in_range(&(value..value), &mut rng), value);
        }
    }
}

#[test]
fn degenerate_vector_range_always_yields_its_constant() {
    let mut rng = StdRng::seed_from_u64(14);
    let v = Vector2::new(3 * ONE, -7);
    for _ in 0..200 {
        assert_eq!(get_rand_vector_in_range(&(v..v), &mut rng), v);
    }
}

#[test]
fn samples_stay_within_the_range() {
    let mut rng = StdRng::seed_from_u64(15);
    for _ in 0..5_000 {
        let value = get_rand_in_range(&(250_000..ONE), &mut rng);
        assert!(250_000 <= value && value < ONE);
    }
}

#[test]
fn samples_stay_short_of_the_end_of_a_narrow_range() {
    let mut rng = StdRng::seed_from_u64(16);
    for _ in 0..5_000 {
        let value = get_rand_in_range(&(5..10), &mut rng);
        assert!(5 <= value && value < 10);
    }
}

#[test]
fn samples_of_a_reversed_range_stay_between_its_ends() {
    let mut rng = StdRng::seed_from_u64(17);
    for _ in 0..5_000 {
        let value = get_rand_in_range(&(-150 * ONE..-300 * ONE), &mut rng);
        assert!(-300 * ONE <= value && value <= -150 * ONE);
    }
}

#[test]
fn samples_of_the_widest_range_do_not_overflow() {
    let mut rng = StdRng::seed_from_u64(18);
    let mut negative = false;
    let mut positive = false;
    for _ in 0..1_000 {
        let value = get_rand_in_range(&(i64::MIN..i64::MAX), &mut rng);
        negative = negative || value < 0;
        positive = positive || value > 0;
    }
    assert!(negative && positive);
}

#[test]
fn vector_samples_lie_on_the_segment_between_the_ends() {
    let mut rng = StdRng::seed_from_u64(19);
    let start = Vector2::new(0, -150 * ONE);
    let end = Vector2::new(10 * ONE, -300 * ONE);
    for _ in 0..2_000 {
        let v = get_rand_vector_in_range(&(start..end), &mut rng);
        assert!(0 <= v.x && v.x < 10 * ONE);
        assert!(-300 * ONE <= v.y && v.y <= -150 * ONE);
        let along_x = v.x / 10;
        let along_y = (-150 * ONE - v.y) / 150;
        assert!((along_x - along_y).abs() <= 1);
    }
}

#[test]
fn same_seed_gives_the_same_draws() {
    let mut a = StdRng::seed_from_u64(20);
    let mut b = StdRng::seed_from_u64(20);
    for _ in 0..100 {
        assert_eq!(draw_fraction(&mut a), draw_fraction(&mut b));
    }
}
