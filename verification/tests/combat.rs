use skirmish::chance::Dice;
use skirmish::game_mechanics::{
    attack, battle, blow_from, defense, strike, take_hit, whole_part, BattleReport, Blow, Outcome,
};
use skirmish::mobs::{get_mob, Mob, MoveCategory};
use skirmish::player::{Player, PlayerClass};
use skirmish::spatial::Pos;
use skirmish::traits::{Mortal, Stats};

fn base() -> Stats {
    Stats {
        hp: 100,
        armor: 100_000_000,
        armor_decay_rate: 40_000,
        precision: 1_000_000,
        damage: 40_000_000,
        damage_variation: 8_000_000,
        crit_proba: 0,
        crit_multiplier: 2_000_000,
        dodge_proba: 0,
        in_alert: false,
        is_attacking: false,
        is_alive: true,
    }
}

fn fighter(name: &str, stats: Stats) -> Mob {
    Mob::new(String::from(name), MoveCategory::Terrestrial, Pos::default(), 250_000, stats)
}

fn state<T: Mortal>(c: &T) -> (i32, i64, bool) {
    (c.get_hp(), c.get_armor(), c.get_is_alive())
}

#[test]
fn armor_absorbs_partial_hit() {
    let mut d = fighter("a", base());
    let mut dice = Dice::seeded(1);
    assert!(!defense(&mut dice, &mut d, 50_000_000));
    assert_eq!(state(&d), (100, 100_000_000 - 915_781, true));
    assert!((d.get_armor() as f64 / 1e6 - 99.084).abs() < 1e-3);
}

#[test]
fn armor_breaks_and_hp_takes_the_rest() {
    let mut d = fighter("b", Stats { armor: 1_000_000, ..base() });
    let mut dice = Dice::seeded(1);
    assert!(!defense(&mut dice, &mut d, 100_000_000));
    assert_eq!(state(&d), (5, 0, true));
}

#[test]
fn naked_hit_kills() {
    let mut d = fighter("c", Stats { armor: 0, hp: 30, in_alert: true, ..base() });
    let mut dice = Dice::seeded(1);
    assert!(!defense(&mut dice, &mut d, 50_000_000));
    assert_eq!(state(&d), (0, 0, false));
    assert!(!d.get_in_alert());
}

#[test]
fn naked_hit_of_exactly_the_hit_points_kills() {
    let mut d = fighter("c", Stats { armor: 0, hp: 30, ..base() });
    take_hit(&mut d, 30_000_000);
    assert_eq!(state(&d), (0, 0, false));
    let mut d = fighter("c", Stats { armor: 0, hp: 30, ..base() });
    take_hit(&mut d, 29_999_999);
    assert_eq!(state(&d), (1, 0, true));
}

#[test]
fn naked_hit_is_rounded_down() {
    let mut d = fighter("c", Stats { armor: 0, hp: 30, ..base() });
    take_hit(&mut d, 12_700_000);
    assert_eq!(state(&d), (18, 0, true));
    take_hit(&mut d, 999_999);
    assert_eq!(state(&d), (18, 0, true));
    take_hit(&mut d, 0);
    assert_eq!(state(&d), (18, 0, true));
}

#[test]
fn dodge_skips_mitigation() {
    let mut d = fighter("d", Stats { dodge_proba: 1_000_000, armor: 3_000_000, hp: 7, ..base() });
    let mut dice = Dice::seeded(11);
    for damage in [0, 1, 50_000_000, i64::MAX] {
        assert!(defense(&mut dice, &mut d, damage));
        assert_eq!(state(&d), (7, 3_000_000, true));
    }
}

#[test]
fn armor_overflow_that_uses_up_the_hit_points_kills() {
    let mut d = fighter("e", Stats { armor: 1_000_000, hp: 95, is_attacking: true, ..base() });
    take_hit(&mut d, 100_000_000);
    assert_eq!(state(&d), (0, 0, false));
    assert!(!d.get_is_attacking());
    let mut d = fighter("e", Stats { armor: 1_000_000, hp: 96, ..base() });
    take_hit(&mut d, 100_000_000);
    assert_eq!(state(&d), (1, 0, true));
}

#[test]
fn armor_equal_to_the_weakened_damage_is_used_up() {
    let mut d = fighter("e", Stats { armor: 1, hp: 10, ..base() });
    take_hit(&mut d, 1);
    assert_eq!(state(&d), (10, 0, true));
}

#[test]
fn hit_on_a_dead_defender() {
    let dead = Stats { hp: 0, armor: 0, is_alive: false, ..base() };
    let mut d = fighter("f", dead);
    take_hit(&mut d, 0);
    assert_eq!(state(&d), (0, 0, false));
    let mut d = fighter("f", Stats { armor: 5_000_000, ..dead });
    take_hit(&mut d, 1_000_000);
    assert_eq!(state(&d), (0, 5_000_000 - 818_731, false));
    take_hit(&mut d, 100_000_000);
    assert_eq!(state(&d), (0, 0, false));
}

#[test]
fn negative_damage_is_taken_as_the_rules_say() {
    let mut d = fighter("g", Stats { armor: 0, hp: 30, ..base() });
    take_hit(&mut d, -1_500_000);
    assert_eq!(state(&d), (31, 0, true));
    take_hit(&mut d, -999_999);
    assert_eq!(state(&d), (31, 0, true));
    take_hit(&mut d, -1_000_000);
    assert_eq!(state(&d), (32, 0, true));
    take_hit(&mut d, i64::MIN);
    assert_eq!(state(&d), (i32::MAX, 0, true));
    let mut d = fighter("g", Stats { armor: i64::MAX, ..base() });
    take_hit(&mut d, i64::MIN);
    assert_eq!(state(&d), (100, i64::MAX, true));
}

#[test]
fn defense_keeps_the_invariant() {
    let mut dice = Dice::seeded(12);
    let mut d = fighter("h", Stats { dodge_proba: 300_000, ..base() });
    let mut dodges = 0;
    for _ in 0..200 {
        let before = state(&d);
        let dodged = defense(&mut dice, &mut d, 37_500_000);
        let (hp, armor, alive) = state(&d);
        assert!(hp >= 0 && armor >= 0 && alive == (hp > 0));
        if dodged {
            dodges += 1;
            assert_eq!(state(&d), before);
        } else {
            assert!(hp <= before.0 && armor <= before.1);
        }
    }
    assert_eq!(state(&d), (0, 0, false));
    assert!(dodges > 0);
}

#[test]
fn whole_part_cuts_toward_zero() {
    assert_eq!(whole_part(0), 0);
    assert_eq!(whole_part(999_999), 0);
    assert_eq!(whole_part(1_000_000), 1);
    assert_eq!(whole_part(1_999_999), 1);
    assert_eq!(whole_part(-1), 0);
    assert_eq!(whole_part(-999_999), 0);
    assert_eq!(whole_part(-1_000_000), -1);
    assert_eq!(whole_part(-1_000_001), -1);
    assert_eq!(whole_part(i64::MAX), 9_223_372_036_854);
    assert_eq!(whole_part(i64::MIN), -9_223_372_036_854);
}

#[test]
fn missed_attack_yields_zero() {
    let mut dice = Dice::seeded(13);
    let attacker = fighter("i", Stats { precision: 0, crit_proba: 1_000_000, ..base() });
    let mut defender = fighter("j", base());
    for _ in 0..200 {
        let blow = attack(&mut dice, &attacker);
        assert_eq!(blow, Blow::Missed);
        assert_eq!(blow.damage(), 0);
    }
    let before = state(&defender);
    defense(&mut dice, &mut defender, 0);
    assert_eq!(state(&defender), before);
}

#[test]
fn sure_hit_rolls_in_the_damage_range() {
    let mut dice = Dice::seeded(14);
    let attacker = fighter("k", base());
    let mut varies = false;
    for _ in 0..500 {
        match attack(&mut dice, &attacker) {
            Blow::Hit { damage } => {
                assert!(35_000_000 <= damage && damage <= 45_000_000);
                varies |= damage != 35_000_000;
            }
            other => panic!("{:?}", other),
        }
    }
    assert!(varies);
}

#[test]
fn sure_critical_hit_multiplies_the_roll() {
    let mut dice = Dice::seeded(15);
    let attacker =
        fighter("l", Stats { crit_proba: 1_000_000, crit_multiplier: 2_500_000, ..base() });
    for _ in 0..500 {
        match attack(&mut dice, &attacker) {
            Blow::Critical { damage } => {
                assert!(87_500_000 <= damage && damage <= 112_500_000);
            }
            other => panic!("{:?}", other),
        }
    }
}

#[test]
fn attack_draws_in_order() {
    let mut a = Dice::seeded(16);
    let mut b = Dice::seeded(16);
    let attacker = fighter("m", Stats { precision: 600_000, crit_proba: 400_000, ..base() });
    for _ in 0..300 {
        let blow = attack(&mut a, &attacker);
        let connects = b.roll(0, 999_999) < 600_000;
        if !connects {
            assert_eq!(blow, Blow::Missed);
            continue;
        }
        let roll = b.roll(35_000_000, 45_000_000);
        let critical = b.roll(0, 999_999) < 400_000;
        assert_eq!(blow, blow_from(true, roll, critical, 2_000_000));
    }
}

#[test]
fn blow_from_draws() {
    assert_eq!(blow_from(false, 40_000_000, true, 2_000_000), Blow::Missed);
    assert_eq!(blow_from(true, 40_000_000, false, 2_000_000), Blow::Hit { damage: 40_000_000 });
    assert_eq!(
        blow_from(true, 40_000_000, true, 2_500_000),
        Blow::Critical { damage: 100_000_000 }
    );
    assert_eq!(blow_from(true, -3, true, 1_500_000), Blow::Critical { damage: -4 });
    assert_eq!(blow_from(true, 3, true, 1_500_000), Blow::Critical { damage: 4 });
    assert_eq!(blow_from(true, i64::MAX, true, 2_000_000), Blow::Critical { damage: i64::MAX });
    assert_eq!(blow_from(true, i64::MIN, true, 2_000_000), Blow::Critical { damage: i64::MIN });
    assert_eq!(blow_from(true, i64::MIN, true, 1_000_000), Blow::Critical { damage: i64::MIN });
    assert_eq!(blow_from(true, 5, true, 0), Blow::Critical { damage: 0 });
}

#[test]
fn strike_records_the_defender() {
    let mut dice = Dice::seeded(17);
    let attacker = fighter("n", base());
    let mut defender = fighter("o", Stats { armor: 0, ..base() });
    let record = strike(&mut dice, &attacker, &mut defender, true);
    assert!(record.by_first && !record.dodged);
    let damage = record.blow.damage();
    assert!(35_000_000 <= damage && damage <= 45_000_000);
    assert_eq!(record.hp_left, 100 - (damage / 1_000_000) as i32);
    assert_eq!((record.hp_left, record.armor_left), (defender.get_hp(), defender.get_armor()));
}

fn check_report<T: Mortal, U: Mortal>(report: &BattleReport, first: &T, second: &U) {
    let n = report.strikes.len();
    for (i, s) in report.strikes.iter().enumerate() {
        assert_eq!(s.by_first, i % 2 == 0);
        let last = report.outcome != Outcome::Undecided && i == n - 1;
        assert_eq!(s.hp_left <= 0, last);
    }
    match report.outcome {
        Outcome::FirstWins => {
            assert_eq!(n as u32, 2 * report.rounds - 1);
            assert_eq!(second.get_hp(), 0);
            assert!(!second.get_is_alive());
        }
        Outcome::SecondWins => {
            assert_eq!(n as u32, 2 * report.rounds);
            assert_eq!(first.get_hp(), 0);
            assert!(second.get_hp() > 0);
        }
        Outcome::Undecided => assert_eq!(n as u32, 2 * report.rounds),
    }
    if let Some(s) = report.strikes.iter().rev().find(|s| s.by_first) {
        assert_eq!((s.hp_left, s.armor_left), (second.get_hp(), second.get_armor()));
    }
    if let Some(s) = report.strikes.iter().rev().find(|s| !s.by_first) {
        assert_eq!((s.hp_left, s.armor_left), (first.get_hp(), first.get_armor()));
    }
}

#[test]
fn battle_runs_to_a_winner() {
    for seed in 0..50 {
        let mut dice = Dice::seeded(seed);
        let mut player = Player::new(String::from("Lost"), PlayerClass::Warrior, Pos::new(50, 50));
        let mut gobelin = get_mob("gobelin").unwrap();
        let report = battle(&mut dice, &mut player, &mut gobelin, 10_000);
        assert!(report.outcome != Outcome::Undecided);
        assert!(report.rounds >= 1 && report.rounds < 10_000);
        check_report(&report, &player, &gobelin);
        assert_eq!(player.get_name(), "Lost");
    }
}

#[test]
fn battle_between_all_stock_templates() {
    let mut dice = Dice::seeded(77);
    for a in ["dragon", "gobelin", "shark"] {
        for b in ["dragon", "gobelin", "shark"] {
            let mut first = get_mob(a).unwrap();
            let mut second = get_mob(b).unwrap();
            let report = battle(&mut dice, &mut first, &mut second, 100_000);
            assert!(report.outcome != Outcome::Undecided);
            check_report(&report, &first, &second);
        }
        for class in [PlayerClass::Warrior, PlayerClass::Archer] {
            let mut first = get_mob(a).unwrap();
            let mut second = Player::new(String::from("P"), class, Pos::default());
            let report = battle(&mut dice, &mut first, &mut second, 100_000);
            assert!(report.outcome != Outcome::Undecided);
            check_report(&report, &first, &second);
        }
    }
}

#[test]
fn battle_is_decided_by_the_seed() {
    let run = |seed: u64| {
        let mut dice = Dice::seeded(seed);
        let mut gobelin = get_mob("gobelin").unwrap();
        let mut player = Player::new(String::from("Lost"), PlayerClass::Warrior, Pos::new(50, 50));
        let report = battle(&mut dice, &mut gobelin, &mut player, 1_000);
        let trace: Vec<(bool, Blow, bool, i64, i32)> = report
            .strikes
            .iter()
            .map(|s| (s.by_first, s.blow, s.dodged, s.armor_left, s.hp_left))
            .collect();
        (report.outcome, report.rounds, trace, state(&gobelin), state(&player))
    };
    for seed in [0, 1, 42, u64::MAX] {
        assert_eq!(run(seed), run(seed));
    }
}

#[test]
fn battle_without_rounds_changes_nothing() {
    let mut dice = Dice::seeded(18);
    let mut a = fighter("p", base());
    let mut b = fighter("q", Stats { hp: 0, armor: 0, is_alive: false, ..base() });
    let report = battle(&mut dice, &mut a, &mut b, 0);
    assert_eq!(report.outcome, Outcome::Undecided);
    assert_eq!(report.rounds, 0);
    assert!(report.strikes.is_empty());
    assert_eq!(state(&a), (100, 100_000_000, true));
    assert_eq!(state(&b), (0, 0, false));
}

#[test]
fn battle_that_cannot_end_runs_out_of_rounds() {
    let mut dice = Dice::seeded(19);
    let mut a = fighter("r", Stats { precision: 0, ..base() });
    let mut b = fighter("s", Stats { dodge_proba: 1_000_000, precision: 0, ..base() });
    let report = battle(&mut dice, &mut a, &mut b, 25);
    assert_eq!(report.outcome, Outcome::Undecided);
    assert_eq!(report.rounds, 25);
    assert_eq!(report.strikes.len(), 50);
    assert_eq!(state(&a), (100, 100_000_000, true));
    assert_eq!(state(&b), (100, 100_000_000, true));
    check_report(&report, &a, &b);
}

#[test]
fn small_damage_can_roll_below_zero() {
    let mut dice = Dice::seeded(23);
    let attacker = fighter("aa", Stats { damage: 1, damage_variation: i64::MAX, ..base() });
    let mut below = false;
    for _ in 0..200 {
        match attack(&mut dice, &attacker) {
            Blow::Hit { damage } => {
                assert!(-999_999 <= damage && damage <= 1_000_001);
                below |= damage < 0;
            }
            other => panic!("{:?}", other),
        }
    }
    assert!(below);
}

#[test]
fn first_fighter_strikes_first() {
    let mut dice = Dice::seeded(20);
    let strong = Stats { damage: 500_000_000, armor: 0, hp: 1, ..base() };
    let mut a = fighter("t", strong);
    let mut b = fighter("u", strong);
    let report = battle(&mut dice, &mut a, &mut b, 5);
    assert_eq!(report.outcome, Outcome::FirstWins);
    assert_eq!(report.rounds, 1);
    assert_eq!(report.strikes.len(), 1);
    assert_eq!(state(&a), (1, 0, true));
    assert_eq!(state(&b), (0, 0, false));
}

#[test]
fn second_fighter_wins_when_the_first_cannot_hit() {
    let mut dice = Dice::seeded(21);
    let mut a = fighter("v", Stats { precision: 0, armor: 0, hp: 50, ..base() });
    let mut b = fighter("w", base());
    let report = battle(&mut dice, &mut a, &mut b, 5);
    assert_eq!(report.outcome, Outcome::SecondWins);
    assert_eq!(report.rounds, 2);
    assert_eq!(report.strikes.len(), 4);
    assert_eq!(state(&a), (0, 0, false));
    assert_eq!(state(&b), (100, 100_000_000, true));
    check_report(&report, &a, &b);
}

#[test]
fn dead_first_fighter_still_strikes_first() {
    let mut dice = Dice::seeded(22);
    let mut a = fighter("x", Stats { hp: 0, armor: 0, is_alive: false, ..base() });
    let mut b = fighter("y", Stats { precision: 0, ..base() });
    let report = battle(&mut dice, &mut a, &mut b, 3);
    assert_eq!(report.outcome, Outcome::SecondWins);
    assert_eq!(report.rounds, 1);
    assert_eq!(report.strikes.len(), 2);
    assert_eq!(report.strikes[1].blow, Blow::Missed);
    assert!(b.get_armor() < 100_000_000);
}

#[test]
fn deterministic_duel() {
    let mut dice = Dice::seeded(7);
    let mut gobelin = get_mob("gobelin").unwrap();
    let mut warrior = Player::new(String::from("Lost"), PlayerClass::Warrior, Pos::new(50, 50));
    let report = battle(&mut dice, &mut gobelin, &mut warrior, 1_000);
    assert_eq!((report.outcome, report.rounds), (Outcome::FirstWins, 39));
    assert_eq!(report.strikes.len(), 77);
    assert_eq!(state(&gobelin), (100, 44_538_418, true));
    assert_eq!(state(&warrior), (0, 0, false));
    check_report(&report, &gobelin, &warrior);
}

#[test]
fn defense_makes_one_draw() {
    let mut a = Dice::seeded(33);
    let mut b = Dice::seeded(33);
    let mut d = fighter("z", Stats { dodge_proba: 500_000, hp: i32::MAX, ..base() });
    for _ in 0..200 {
        let dodged = defense(&mut a, &mut d, 1_000_000);
        assert_eq!(dodged, b.roll(0, 999_999) < 500_000);
    }
    assert_eq!(a.roll(0, 1_000_000), b.roll(0, 1_000_000));
}

#[test]
fn strike_draws_for_the_attack_and_then_for_the_dodge() {
    let mut a = Dice::seeded(34);
    let mut b = Dice::seeded(34);
    let attacker = fighter("n", Stats { precision: 700_000, crit_proba: 300_000, ..base() });
    let mut defender = fighter("o", Stats { dodge_proba: 400_000, hp: i32::MAX, ..base() });
    for _ in 0..200 {
        let record = strike(&mut a, &attacker, &mut defender, false);
        let blow = if b.roll(0, 999_999) < 700_000 {
            let roll = b.roll(35_000_000, 45_000_000);
            let critical = b.roll(0, 999_999) < 300_000;
            blow_from(true, roll, critical, 2_000_000)
        } else {
            Blow::Missed
        };
        let dodged = b.roll(0, 999_999) < 400_000;
        assert_eq!((record.blow, record.dodged, record.by_first), (blow, dodged, false));
    }
}

#[test]
fn battle_is_its_strikes_in_turn() {
    for seed in [3u64, 35, 36] {
        let mut a = Dice::seeded(seed);
        let mut b = Dice::seeded(seed);
        let mut first = get_mob("dragon").unwrap();
        let mut second = get_mob("shark").unwrap();
        let report = battle(&mut a, &mut first, &mut second, 1_000);
        let mut one = get_mob("dragon").unwrap();
        let mut two = get_mob("shark").unwrap();
        for s in report.strikes.iter() {
            let again = if s.by_first {
                strike(&mut b, &one, &mut two, true)
            } else {
                strike(&mut b, &two, &mut one, false)
            };
            assert_eq!(
                (again.blow, again.dodged, again.armor_left, again.hp_left),
                (s.blow, s.dodged, s.armor_left, s.hp_left)
            );
        }
        assert_eq!(state(&one), state(&first));
        assert_eq!(state(&two), state(&second));
        assert_eq!(a.roll(0, 1_000_000), b.roll(0, 1_000_000));
    }
}
