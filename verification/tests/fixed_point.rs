use particle_life::decay::decay_factor;
use particle_life::fixed::{isqrt, isqrt_up, mul_div, multiply, UNIT};

#[test]
fn square_roots_round_down() {
    assert_eq!(isqrt(0), 0);
    assert_eq!(isqrt(1), 1);
    assert_eq!(isqrt(3), 1);
    assert_eq!(isqrt(4), 2);
    assert_eq!(isqrt(17), 4);
    assert_eq!(isqrt(99), 9);
    assert_eq!(isqrt(100), 10);
    assert_eq!(isqrt(1_000_000_000_000), 1_000_000);
    assert_eq!(isqrt(999_999_999_999), 999_999);
    assert_eq!(isqrt(u128::MAX), u64::MAX);
}

#[test]
fn square_roots_round_up() {
    assert_eq!(isqrt_up(0), 0);
    assert_eq!(isqrt_up(1), 1);
    assert_eq!(isqrt_up(2), 2);
    assert_eq!(isqrt_up(16), 4);
    assert_eq!(isqrt_up(17), 5);
    assert_eq!(isqrt_up(250_000_000_000_000_000), 500_000_000);
    assert_eq!(isqrt_up(250_000_000_000_000_001), 500_000_001);
}

#[test]
fn square_root_brackets_its_argument() {
    let mut n: u128 = 1;
    for _ in 0..120 {
        let r = isqrt(n) as u128;
        assert!(r * r <= n);
        assert!(n < (r + 1) * (r + 1));
        n = n * 2 + 1;
    }
}

#[test]
fn division_rounds_toward_zero() {
    assert_eq!(mul_div(7, 1, 2), 3);
    assert_eq!(mul_div(-7, 1, 2), -3);
    assert_eq!(mul_div(7, -1, 2), -3);
    assert_eq!(mul_div(-7, -1, 2), 3);
    assert_eq!(mul_div(0, 5, 3), 0);
    assert_eq!(mul_div(10, 10, 3), 33);
    assert_eq!(mul_div(-10, 10, 3), -33);
}

#[test]
fn products_are_brought_back_to_scale() {
    assert_eq!(multiply(UNIT, UNIT), UNIT as i128);
    assert_eq!(multiply(2 * UNIT, 3 * UNIT), 6 * UNIT as i128);
    assert_eq!(multiply(500_000, 500_000), 250_000);
    assert_eq!(multiply(-500_000, 500_000), -250_000);
    assert_eq!(multiply(1, 1), 0);
    assert_eq!(multiply(-1, 1), 0);
    assert_eq!(multiply(1_500_000, -3), -4);
}

#[test]
fn no_time_no_friction() {
    assert_eq!(decay_factor(0, 43_000), 1_000_000);
    assert_eq!(decay_factor(0, 1), 1_000_000);
}

#[test]
fn one_half_life_halves() {
    assert_eq!(decay_factor(43_000, 43_000), 500_000);
    assert_eq!(decay_factor(86_000, 43_000), 250_000);
    assert_eq!(decay_factor(3, 1), 125_000);
    assert_eq!(decay_factor(1_000_000, 43_000), 0);
}

#[test]
fn decay_has_its_exact_values() {
    assert_eq!(decay_factor(16_667, 43_000), 764_398);
    assert_eq!(decay_factor(10_000, 43_000), 851_124);
    assert_eq!(decay_factor(21_500, 43_000), 707_106);
    assert_eq!(decay_factor(64_500, 43_000), 353_553);
    assert_eq!(decay_factor(1, 43_000), 999_984);
    assert_eq!(decay_factor(500_000, 1_000_000), 707_106);
}

#[test]
fn decay_follows_the_half_life_law() {
    let half_life: i64 = 43_000;
    let mut dt: i64 = 0;
    while dt <= 400_000 {
        let factor = decay_factor(dt, half_life) as f64 / 1_000_000.0;
        let exact = 0.5f64.powf(dt as f64 / half_life as f64);
        assert!((factor - exact).abs() < 0.000_003, "dt = {}", dt);
        dt += 777;
    }
}

#[test]
fn decay_never_grows_with_time() {
    let mut last = 1_000_000;
    let mut dt: i64 = 0;
    while dt <= 200_000 {
        let factor = decay_factor(dt, 43_000);
        assert!(0 <= factor && factor <= last);
        last = factor;
        dt += 500;
    }
}

#[test]
fn a_part_of_a_half_life_takes_less_than_half() {
    let mut dt: i64 = 0;
    while dt < 43_000 {
        let factor = decay_factor(dt, 43_000);
        assert!(500_000 <= factor && factor <= 1_000_000);
        let later = decay_factor(dt + 43_000, 43_000);
        assert!(250_000 <= later && later <= 500_000);
        dt += 97;
    }
}
