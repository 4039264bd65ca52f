use skirmish::chance::{centred_rand, centred_range, check_proba, proba_outcome, Dice};
use skirmish::math::UNIT;

#[test]
fn proba_outcome_compares_the_draw() {
    assert_eq!(proba_outcome(500_000, 499_999), Ok(true));
    assert_eq!(proba_outcome(500_000, 500_000), Ok(false));
    assert_eq!(proba_outcome(0, 0), Ok(false));
    assert_eq!(proba_outcome(UNIT, 999_999), Ok(true));
}

#[test]
fn proba_outcome_reads_percentages() {
    assert_eq!(proba_outcome(33_330_000, 333_299), Ok(true));
    assert_eq!(proba_outcome(33_330_000, 333_300), Ok(false));
    assert_eq!(proba_outcome(101_000_000, 999_999), Ok(true));
}

#[test]
fn proba_outcome_rejects_negative_probabilities() {
    assert_eq!(proba_outcome(-1, 0), Err(String::from("Value can't be less than zero")));
    assert_eq!(proba_outcome(-UNIT, 0), Err(String::from("Value can't be less than zero")));
}

#[test]
fn check_proba_rejects_negative_probabilities() {
    let mut dice = Dice::seeded(1);
    assert_eq!(check_proba(&mut dice, -UNIT), Err(String::from("Value can't be less than zero")));
    assert!(check_proba(&mut dice, -1).is_err());
}

#[test]
fn check_proba_draws_nothing_for_a_negative_probability() {
    let mut a = Dice::seeded(5);
    let mut b = Dice::seeded(5);
    assert!(check_proba(&mut a, -1).is_err());
    for _ in 0..20 {
        assert_eq!(a.roll(0, 1_000_000), b.roll(0, 1_000_000));
    }
}

#[test]
fn check_proba_of_zero_never_succeeds() {
    let mut dice = Dice::seeded(2);
    for _ in 0..2000 {
        assert_eq!(check_proba(&mut dice, 0), Ok(false));
    }
}

#[test]
fn check_proba_of_one_always_succeeds() {
    let mut dice = Dice::seeded(3);
    for _ in 0..2000 {
        assert_eq!(check_proba(&mut dice, UNIT), Ok(true));
        assert_eq!(check_proba(&mut dice, 100 * UNIT), Ok(true));
        assert_eq!(check_proba(&mut dice, 101 * UNIT), Ok(true));
    }
}

#[test]
fn check_proba_frequency_follows_the_probability() {
    let mut dice = Dice::seeded(4);
    for p in [100_000i64, 333_300, 500_000, 950_000] {
        let mut hits = 0;
        let trials = 20_000;
        for _ in 0..trials {
            if check_proba(&mut dice, p).unwrap() {
                hits += 1;
            }
        }
        let frequency = hits as f64 / trials as f64;
        assert!((frequency - p as f64 / 1e6).abs() < 0.02, "{} gave {}", p, frequency);
    }
}

#[test]
fn check_proba_percentage_frequency() {
    let mut dice = Dice::seeded(40);
    let mut hits = 0;
    for _ in 0..20_000 {
        if check_proba(&mut dice, 25_000_000).unwrap() {
            hits += 1;
        }
    }
    assert!((hits as f64 / 20_000.0 - 0.25).abs() < 0.02);
}

#[test]
fn range_is_the_centre_over_the_fraction_to_either_side() {
    assert_eq!(centred_range(10_000_000, 2_000_000), (5_000_000, 15_000_000));
    assert_eq!(centred_range(45_000_000, 8_000_000), (39_375_000, 50_625_000));
    assert_eq!(centred_range(1_000_000, 1_000_000), (0, 2_000_000));
    assert_eq!(centred_range(3_000_000, 500_000), (-3_000_000, 9_000_000));
}

#[test]
fn half_range_below_one_is_rounded_up() {
    assert_eq!(centred_range(500_000, 8_000_000), (-500_000, 1_500_000));
    assert_eq!(centred_range(7_999_999, 8_000_000), (6_999_999, 8_999_999));
    assert_eq!(centred_range(1, i64::MAX), (-999_999, 1_000_001));
    assert_eq!(centred_range(1, 1_000_001), (-999_999, 1_000_001));
    assert_eq!(centred_range(1, 1_000_000), (-999_999, 1_000_001));
}

#[test]
fn half_range_of_a_centre_of_zero_is_zero() {
    assert_eq!(centred_range(0, 8_000_000), (0, 0));
    assert_eq!(centred_range(0, 1), (0, 0));
    assert_eq!(centred_range(0, i64::MAX), (0, 0));
}

#[test]
fn range_ends_are_held_to_what_fits() {
    assert_eq!(centred_range(i64::MAX, 1_000_000), (0, i64::MAX));
    assert_eq!(centred_range(i64::MAX, 2_000_000), (i64::MAX / 2 + 1, i64::MAX));
    assert_eq!(centred_range(10_000_000_000_000, 1), (i64::MIN, i64::MAX));
    assert_eq!(centred_range(i64::MAX / 2, 1_000_000), (0, i64::MAX - 1));
    assert_eq!(centred_range(i64::MAX, i64::MAX), (i64::MAX - 1_000_000, i64::MAX));
}

#[test]
fn centred_rand_where_the_range_does_not_fit() {
    let mut dice = Dice::seeded(10);
    for _ in 0..200 {
        assert!(centred_rand(&mut dice, i64::MAX, 1_000_000) >= 0);
        assert!(centred_rand(&mut dice, i64::MAX, i64::MAX) >= i64::MAX - 1_000_000);
        centred_rand(&mut dice, i64::MAX, 1);
    }
}

#[test]
fn centred_rand_stays_in_its_range() {
    let mut dice = Dice::seeded(6);
    let mut low_half = false;
    let mut high_half = false;
    for _ in 0..5000 {
        let v = centred_rand(&mut dice, 10_000_000, 2_000_000);
        assert!(5_000_000 <= v && v <= 15_000_000);
        low_half |= v < 10_000_000;
        high_half |= v > 10_000_000;
    }
    assert!(low_half && high_half);
}

#[test]
fn centred_rand_with_a_small_centre() {
    let mut dice = Dice::seeded(7);
    let mut negative = false;
    for _ in 0..2000 {
        let v = centred_rand(&mut dice, 500_000, 8_000_000);
        assert!(-500_000 <= v && v <= 1_500_000);
        negative |= v < 0;
    }
    assert!(negative);
}

#[test]
fn centred_rand_of_zero_is_zero() {
    let mut dice = Dice::seeded(8);
    for _ in 0..100 {
        assert_eq!(centred_rand(&mut dice, 0, 8_000_000), 0);
    }
}

#[test]
fn roll_stays_in_its_range_and_varies() {
    let mut dice = Dice::seeded(9);
    let mut seen_low = false;
    let mut seen_other = false;
    for _ in 0..1000 {
        let v = dice.roll(-3, 3);
        assert!(-3 <= v && v <= 3);
        seen_low |= v == -3;
        seen_other |= v != -3;
    }
    assert!(seen_low && seen_other);
    assert_eq!(dice.roll(17, 17), 17);
    let wide = dice.roll(i64::MIN, i64::MAX);
    assert!(i64::MIN <= wide);
}

#[test]
fn equal_seeds_give_equal_draws() {
    let mut a = Dice::seeded(2024);
    let mut b = Dice::seeded(2024);
    let mut c = Dice::seeded(2025);
    let mut differs = false;
    for _ in 0..200 {
        let x = a.roll(0, 1_000_000_000);
        assert_eq!(x, b.roll(0, 1_000_000_000));
        differs |= x != c.roll(0, 1_000_000_000);
    }
    assert!(differs);
}

#[test]
fn entropy_dice_roll_in_range() {
    let mut dice = Dice::from_entropy().unwrap();
    for _ in 0..100 {
        let v = dice.roll(1, 6);
        assert!(1 <= v && v <= 6);
    }
}

#[test]
fn check_proba_makes_one_draw() {
    let mut a = Dice::seeded(31);
    let mut b = Dice::seeded(31);
    for p in [0i64, 1, 250_000, 999_999, 1_000_000, 40_000_000, 500_000_000] {
        let threshold = if p > 100_000_000 {
            1_000_000
        } else if p > 1_000_000 {
            p / 100
        } else {
            p
        };
        for _ in 0..50 {
            let draw = b.roll(0, 999_999);
            assert_eq!(check_proba(&mut a, p), Ok(draw < threshold));
        }
    }
    assert_eq!(a.roll(0, 1_000_000), b.roll(0, 1_000_000));
}

#[test]
fn centred_rand_makes_one_draw() {
    let mut a = Dice::seeded(32);
    let mut b = Dice::seeded(32);
    for _ in 0..100 {
        assert_eq!(centred_rand(&mut a, 45_000_000, 8_000_000), b.roll(39_375_000, 50_625_000));
        assert_eq!(centred_rand(&mut a, 500_000, 8_000_000), b.roll(-500_000, 1_500_000));
        assert_eq!(centred_rand(&mut a, 0, 1), b.roll(0, 0));
    }
    assert_eq!(a.roll(0, 1_000_000), b.roll(0, 1_000_000));
}
