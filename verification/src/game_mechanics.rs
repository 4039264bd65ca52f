//! The rules of a fight: one attack, one defence, and the duel that alternates
//! them until a fighter is down.

use crate::chance::{
    centred_draw, centred_rand, check_proba, drawn_since, drew, half_range, is_trial,
    lemma_drawn_since, lemma_drew_chain, trial_threshold, Dice, Draw,
};
use crate::math::{
    exp_decay, exp_decay_value, lemma_exp_decay_at_most, magnitude, magnitude_of, saturated,
    signed_like, with_sign_of, UNIT,
};
use crate::traits::{Mortal, Stats};
use vstd::prelude::*;

verus! {

/// What an attack came to.
#[derive(Debug, Clone, Copy, PartialEq, Eq, Structural)]
pub enum Blow {
    /// The attack did not connect.
    Missed,
    /// The attack connected and deals the damage that was rolled.
    Hit { damage: i64 },
    /// The attack connected critically and deals the multiplied damage.
    Critical { damage: i64 },
}

impl Blow {
    /// The damage that the blow deals: none for a miss.
    pub open spec fn dealt(self) -> int {
        match self {
            Blow::Missed => 0,
            Blow::Hit { damage } => damage as int,
            Blow::Critical { damage } => damage as int,
        }
    }

    /// The damage that the blow deals: none for a miss.
    pub fn damage(&self) -> (damage: i64)
        ensures
            damage == self.dealt(),
    {
        match self {
            Blow::Missed => 0,
            Blow::Hit { damage } => *damage,
            Blow::Critical { damage } => *damage,
        }
    }
}

/// The damage of a critical hit: the rolled damage times the multiplier,
/// truncated toward zero and held to the range of `i64`.
pub open spec fn critical_damage(roll: int, multiplier: int) -> int {
    saturated(with_sign_of(roll, magnitude(roll) * multiplier / (UNIT as int)))
}

/// The blow that an attack comes to, given what was drawn for it: a miss
/// where the attack does not connect, else the rolled damage, multiplied
/// where the hit is critical.
pub open spec fn blow_of(connects: bool, roll: int, critical: bool, multiplier: int) -> Blow {
    if !connects {
        Blow::Missed
    } else if critical {
        Blow::Critical { damage: critical_damage(roll, multiplier) as i64 }
    } else {
        Blow::Hit { damage: roll as i64 }
    }
}

/// Whether `roll` lies in the range that the damage of a combatant is rolled
/// from.
pub open spec fn in_damage_range(stats: Stats, roll: int) -> bool {
    let h = half_range(stats.damage as int, stats.damage_variation as int);
    stats.damage - h <= roll <= stats.damage + h
}

/// Whether the damage of `blow` can come from a damage roll of a combatant
/// with these abilities: for a hit the damage lies in the range of the roll,
/// for a critical hit it is the critical damage of a roll in that range.
pub open spec fn rolled_by(stats: Stats, blow: Blow) -> bool {
    match blow {
        Blow::Missed => true,
        Blow::Hit { damage } => in_damage_range(stats, damage as int),
        Blow::Critical { damage } => exists|roll: int|
            in_damage_range(stats, roll) && damage == #[trigger] critical_damage(
                roll,
                stats.crit_multiplier as int,
            ),
    }
}

/// Turns what was drawn for an attack into its blow. The multiplier is not
/// negative.
pub fn blow_from(connects: bool, roll: i64, critical: bool, multiplier: i64) -> (blow: Blow)
    requires
        multiplier >= 0,
    ensures
        blow == blow_of(connects, roll as int, critical, multiplier as int),
{
    if !connects {
        Blow::Missed
    } else if critical {
        let m: u128 = magnitude_of(roll);
        assert(0 <= m * multiplier <= 0x8000_0000_0000_0000 * 0x8000_0000_0000_0000)
            by (nonlinear_arith)
            requires
                0 <= m <= 0x8000_0000_0000_0000,
                0 <= multiplier <= 0x8000_0000_0000_0000,
        ;
        let damage: i64 = signed_like(roll, m * (multiplier as u128) / 1_000_000);
        Blow::Critical { damage: damage }
    } else {
        Blow::Hit { damage: roll }
    }
}

/// Whether `drawn` can be the draws of one attack of a combatant with these
/// abilities, in their order: the trial on its precision, and where that
/// succeeds, the roll of its damage and then the trial on its critical
/// probability. A missed attack draws nothing more.
pub open spec fn attack_draws(stats: Stats, drawn: Seq<Draw>) -> bool {
    &&& drawn.len() >= 1
    &&& is_trial(drawn[0])
    &&& if drawn[0].value < trial_threshold(stats.precision as int) {
        &&& drawn.len() == 3
        &&& drawn[1] == centred_draw(stats.damage, stats.damage_variation, drawn[1].value)
        &&& in_damage_range(stats, drawn[1].value as int)
        &&& is_trial(drawn[2])
    } else {
        drawn.len() == 1
    }
}

/// The blow that an attack comes to, given its draws.
pub open spec fn attack_blow(stats: Stats, drawn: Seq<Draw>) -> Blow {
    if drawn[0].value < trial_threshold(stats.precision as int) {
        blow_of(
            true,
            drawn[1].value as int,
            drawn[2].value < trial_threshold(stats.crit_proba as int),
            stats.crit_multiplier as int,
        )
    } else {
        Blow::Missed
    }
}

/// Resolves one attack of `attacker`: a trial on its precision, then, where
/// the attack connects, a roll of its damage and a trial on its critical
/// probability. A missed attack rolls no damage and cannot be critical.
pub fn attack<T: Mortal>(rng: &mut Dice, attacker: &T) -> (blow: Blow)
    requires
        attacker.stats().valid(),
    ensures
        blow is Missed ==> attacker.stats().precision < UNIT,
        !(blow is Missed) ==> attacker.stats().precision > 0,
        blow is Hit ==> attacker.stats().crit_proba < UNIT,
        blow is Critical ==> attacker.stats().crit_proba > 0,
        rolled_by(attacker.stats(), blow),
        drew(*old(rng), *final(rng), drawn_since(*old(rng), *final(rng))),
        attack_draws(attacker.stats(), drawn_since(*old(rng), *final(rng))),
        blow == attack_blow(attacker.stats(), drawn_since(*old(rng), *final(rng))),
{
    let connects: bool = match check_proba(rng, attacker.get_precision()) {
        Ok(b) => b,
        Err(_) => false,
    };
    let ghost after_trial = *rng;
    let ghost trial = seq![rng.draws().last()];
    if !connects {
        proof {
            lemma_drawn_since(*old(rng), *rng, trial);
        }
        return Blow::Missed;
    }
    let roll: i64 = centred_rand(rng, attacker.get_damage(), attacker.get_damage_variation());
    let ghost after_roll = *rng;
    let ghost rolled = seq![
        centred_draw(attacker.stats().damage, attacker.stats().damage_variation, roll),
    ];
    let critical: bool = match check_proba(rng, attacker.get_crit_proba()) {
        Ok(b) => b,
        Err(_) => false,
    };
    proof {
        let last = seq![rng.draws().last()];
        lemma_drew_chain(*old(rng), after_trial, after_roll, trial, rolled);
        lemma_drew_chain(*old(rng), after_roll, *rng, trial + rolled, last);
        assert(trial + rolled + last =~= seq![trial[0], rolled[0], last[0]]);
    }
    blow_from(true, roll, critical, attacker.get_crit_multiplier())
}

/// `x`, held to the range of `i32`.
pub open spec fn saturated_hp(x: int) -> int {
    if x > i32::MAX {
        i32::MAX as int
    } else if x < i32::MIN {
        i32::MIN as int
    } else {
        x
    }
}

/// The whole part of a fixed-point value: the value without its fraction, so
/// that a negative value is cut toward zero as a positive one is.
pub open spec fn whole(value: int) -> int {
    with_sign_of(value, magnitude(value) / (UNIT as int))
}

/// The state of a defender after it has taken `damage` without dodging.
///
/// While armour is left, the damage is first weakened by it. Weakened damage
/// below the armour is taken off the armour alone. Otherwise the armour is
/// gone, and what exceeds it, cut to a whole number, is taken off
/// the hit points; a defender left without hit points is killed. Without
/// armour, damage below the hit points is taken off them, cut to a whole number, and
/// any other damage kills.
pub open spec fn mitigated(s: Stats, damage: int) -> Stats {
    if s.armor > 0 {
        let weakened = exp_decay_value(damage, s.armor as int, s.armor_decay_rate as int);
        if weakened < s.armor {
            Stats { armor: saturated(s.armor - weakened) as i64, ..s }
        } else {
            let hp = s.hp - whole(weakened - s.armor);
            if hp <= 0 {
                s.killed()
            } else {
                Stats { armor: 0, hp: hp as i32, ..s }
            }
        }
    } else if s.hp > 0 && damage < s.hp * UNIT {
        Stats { hp: saturated_hp(s.hp - whole(damage)) as i32, ..s }
    } else {
        s.killed()
    }
}

/// Taking damage keeps the invariant of a combatant and its abilities: hit
/// points and armour stay at zero or above, and the defender is alive exactly
/// while it has hit points.
pub proof fn lemma_mitigated_valid(s: Stats, damage: int)
    requires
        s.valid(),
    ensures
        mitigated(s, damage).valid(),
        mitigated(s, damage).same_abilities(s),
        mitigated(s, damage).hp >= 0,
        mitigated(s, damage).armor >= 0,
        mitigated(s, damage).is_alive == (mitigated(s, damage).hp > 0),
{
    if s.armor > 0 {
        let weakened = exp_decay_value(damage, s.armor as int, s.armor_decay_rate as int);
        if weakened >= s.armor {
            let extra = weakened - s.armor;
            assert(whole(extra) >= 0) by (nonlinear_arith)
                requires
                    extra >= 0,
                    whole(extra) == extra / 1_000_000,
            ;
        }
    } else if s.hp > 0 && damage < s.hp * UNIT {
        let hp = s.hp as int;
        let m = magnitude(damage);
        assert(m / 1_000_000 >= 0 && (damage >= 0 ==> m / 1_000_000 < hp)) by (nonlinear_arith)
            requires
                m >= 0,
                damage >= 0 ==> m == damage,
                damage < hp * 1_000_000,
        ;
    }
}

/// Damage that is not negative never adds hit points or armour.
pub proof fn lemma_mitigated_never_heals(s: Stats, damage: int)
    requires
        s.valid(),
        damage >= 0,
    ensures
        mitigated(s, damage).hp <= s.hp,
        mitigated(s, damage).armor <= s.armor,
{
    if s.armor > 0 {
        assert(s.armor_decay_rate * s.armor >= 0) by (nonlinear_arith)
            requires
                s.armor_decay_rate > 0,
                s.armor > 0,
        ;
        lemma_exp_decay_at_most(damage, s.armor as int, s.armor_decay_rate as int);
        let weakened = exp_decay_value(damage, s.armor as int, s.armor_decay_rate as int);
        if weakened >= s.armor {
            let extra = weakened - s.armor;
            assert(whole(extra) >= 0) by (nonlinear_arith)
                requires
                    extra >= 0,
                    whole(extra) == extra / 1_000_000,
            ;
        }
    } else if s.hp > 0 && damage < s.hp * UNIT {
        assert(whole(damage) >= 0) by (nonlinear_arith)
            requires
                damage >= 0,
                whole(damage) == damage / 1_000_000,
        ;
    }
}

/// The whole part of a fixed-point value, cut toward zero.
pub fn whole_part(value: i64) -> (res: i64)
    ensures
        res == whole(value as int),
{
    signed_like(value, magnitude_of(value) / 1_000_000)
}

/// Applies `damage` to a defender that does not dodge: the armour weakens the
/// damage and takes it first, and what the armour cannot take goes to the hit
/// points.
pub fn take_hit<T: Mortal>(defender: &mut T, damage: i64)
    requires
        old(defender).stats().valid(),
    ensures
        final(defender).stats() == mitigated(old(defender).stats(), damage as int),
        final(defender).stats().valid(),
        final(defender).name() == old(defender).name(),
{
    proof {
        lemma_mitigated_valid(defender.stats(), damage as int);
    }
    let armor: i64 = defender.get_armor();
    let hp: i32 = defender.get_hp();
    if armor > 0 {
        let weakened: i64 = exp_decay(damage, armor, defender.get_armor_decay_rate());
        if weakened < armor {
            let left: i128 = (armor as i128) - (weakened as i128);
            let new_armor: i64 = if left > 0x7fff_ffff_ffff_ffff {
                i64::MAX
            } else {
                left as i64
            };
            defender.set_armor(new_armor);
        } else {
            let left: i64 = (hp as i64) - whole_part(weakened - armor);
            if left <= 0 {
                defender.kill();
            } else {
                defender.set_armor(0);
                defender.set_hp(left as i32);
            }
        }
    } else if hp > 0 && (damage as i128) < (hp as i128) * 1_000_000 {
        let left: i128 = (hp as i128) - (whole_part(damage) as i128);
        let new_hp: i32 = if left > 0x7fff_ffff {
            i32::MAX
        } else {
            left as i32
        };
        defender.set_hp(new_hp);
    } else {
        defender.kill();
    }
}

/// Resolves the defence of `defender` against `damage`: a trial on its dodge
/// probability, and where the dodge fails, the damage is taken as `take_hit`
/// takes it. A successful dodge changes nothing. The result says whether the
/// defender dodged.
pub fn defense<T: Mortal>(rng: &mut Dice, defender: &mut T, damage: i64) -> (dodged: bool)
    requires
        old(defender).stats().valid(),
    ensures
        dodged ==> final(defender).stats() == old(defender).stats(),
        dodged ==> old(defender).stats().dodge_proba > 0,
        !dodged ==> final(defender).stats() == mitigated(old(defender).stats(), damage as int),
        !dodged ==> old(defender).stats().dodge_proba < UNIT,
        final(defender).stats().valid(),
        final(defender).stats().hp >= 0,
        final(defender).stats().armor >= 0,
        final(defender).stats().is_alive == (final(defender).stats().hp > 0),
        final(defender).stats().same_abilities(old(defender).stats()),
        damage >= 0 ==> final(defender).stats().hp <= old(defender).stats().hp,
        damage >= 0 ==> final(defender).stats().armor <= old(defender).stats().armor,
        final(defender).name() == old(defender).name(),
        drew(*old(rng), *final(rng), seq![final(rng).draws().last()]),
        is_trial(final(rng).draws().last()),
        dodged == (final(rng).draws().last().value < trial_threshold(
            old(defender).stats().dodge_proba as int,
        )),
{
    proof {
        lemma_mitigated_valid(defender.stats(), damage as int);
        if damage >= 0 {
            lemma_mitigated_never_heals(defender.stats(), damage as int);
        }
    }
    let dodged: bool = match check_proba(rng, defender.get_dodge_proba()) {
        Ok(b) => b,
        Err(_) => false,
    };
    if !dodged {
        take_hit(defender, damage);
    }
    dodged
}

/// How a duel ended.
#[derive(Debug, Clone, Copy, PartialEq, Eq, Structural)]
pub enum Outcome {
    /// The second fighter has no hit points left.
    FirstWins,
    /// The first fighter has no hit points left.
    SecondWins,
    /// The rounds ran out before either fighter was down.
    Undecided,
}

/// One strike of a duel: the attack of one fighter and the defence of the
/// other.
#[derive(Debug, Clone, Copy)]
pub struct Strike {
    /// Whether the first fighter attacked.
    pub by_first: bool,
    /// What the attack came to.
    pub blow: Blow,
    /// Whether the defender dodged.
    pub dodged: bool,
    /// The armour of the defender after the strike.
    pub armor_left: i64,
    /// The hit points of the defender after the strike.
    pub hp_left: i32,
}

/// The course and the end of a duel.
#[derive(Debug)]
pub struct BattleReport {
    /// How the duel ended.
    pub outcome: Outcome,
    /// The number of rounds that were begun.
    pub rounds: u32,
    /// The strikes in the order in which they were made.
    pub strikes: Vec<Strike>,
}

/// The states of the two fighters after `record`, from their states before it.
pub open spec fn after_strike(before: (Stats, Stats), record: Strike) -> (Stats, Stats) {
    let defender = if record.by_first {
        before.1
    } else {
        before.0
    };
    let hit = if record.dodged {
        defender
    } else {
        mitigated(defender, record.blow.dealt())
    };
    if record.by_first {
        (before.0, hit)
    } else {
        (hit, before.1)
    }
}

/// The states of the two fighters after all of `strikes`, from their states
/// at the start.
pub open spec fn replay(start: (Stats, Stats), strikes: Seq<Strike>) -> (Stats, Stats)
    decreases strikes.len(),
{
    if strikes.len() == 0 {
        start
    } else {
        after_strike(replay(start, strikes.drop_last()), strikes.last())
    }
}

/// Whether `record` fits the states of the fighters before it: the blow can
/// come from the attacker, a miss or a hit is possible at its precision, a
/// plain or a critical hit at its critical probability, a dodge or a failed
/// dodge at the dodge probability of the defender, and the
/// armour and hit points that the record gives are those of the defender
/// after the strike.
pub open spec fn fits(before: (Stats, Stats), record: Strike) -> bool {
    let attacker = if record.by_first {
        before.0
    } else {
        before.1
    };
    let defender = if record.by_first {
        before.1
    } else {
        before.0
    };
    let after = after_strike(before, record);
    let hit = if record.by_first {
        after.1
    } else {
        after.0
    };
    &&& rolled_by(attacker, record.blow)
    &&& record.blow is Missed ==> attacker.precision < UNIT
    &&& !(record.blow is Missed) ==> attacker.precision > 0
    &&& record.blow is Hit ==> attacker.crit_proba < UNIT
    &&& record.blow is Critical ==> attacker.crit_proba > 0
    &&& record.dodged ==> defender.dodge_proba > 0
    &&& !record.dodged ==> defender.dodge_proba < UNIT
    &&& record.armor_left == hit.armor
    &&& record.hp_left == hit.hp
}

/// Whether every strike fits the states that the strikes before it lead to.
pub open spec fn faithful(start: (Stats, Stats), strikes: Seq<Strike>) -> bool
    decreases strikes.len(),
{
    strikes.len() > 0 ==> {
        &&& faithful(start, strikes.drop_last())
        &&& fits(replay(start, strikes.drop_last()), strikes.last())
    }
}

/// The states of the two fighters, the first fighter's first, from those of
/// the attacker and the defender of a strike.
pub open spec fn sides(attacker: Stats, defender: Stats, by_first: bool) -> (Stats, Stats) {
    if by_first {
        (attacker, defender)
    } else {
        (defender, attacker)
    }
}

/// Whether `drawn` can be the draws of the strike `record`, in their order:
/// those of the attack, which decide the blow, and then the trial on the
/// dodge probability of the defender, which decides the dodge.
pub open spec fn strike_draws(attacker: Stats, defender: Stats, drawn: Seq<Draw>, record: Strike)
    -> bool {
    &&& drawn.len() >= 2
    &&& attack_draws(attacker, drawn.drop_last())
    &&& record.blow == attack_blow(attacker, drawn.drop_last())
    &&& is_trial(drawn.last())
    &&& record.dodged == (drawn.last().value < trial_threshold(defender.dodge_proba as int))
}

/// The number of draws that a strike takes: the trial on the precision and
/// the trial on the dodge, and for an attack that connects, the roll of the
/// damage and the trial on the critical probability.
pub open spec fn draws_of(record: Strike) -> nat {
    if record.blow is Missed {
        2
    } else {
        4
    }
}

/// One strike: `attacker` attacks and `defender` defends itself against the
/// damage of the blow.
pub fn strike<A: Mortal, D: Mortal>(
    rng: &mut Dice,
    attacker: &A,
    defender: &mut D,
    by_first: bool,
) -> (record: Strike)
    requires
        attacker.stats().valid(),
        old(defender).stats().valid(),
    ensures
        record.by_first == by_first,
        fits(sides(attacker.stats(), old(defender).stats(), by_first), record),
        sides(attacker.stats(), final(defender).stats(), by_first) == after_strike(
            sides(attacker.stats(), old(defender).stats(), by_first),
            record,
        ),
        record.hp_left == final(defender).stats().hp,
        record.armor_left == final(defender).stats().armor,
        final(defender).stats().valid(),
        final(defender).stats().same_abilities(old(defender).stats()),
        final(defender).name() == old(defender).name(),
        drew(*old(rng), *final(rng), drawn_since(*old(rng), *final(rng))),
        drawn_since(*old(rng), *final(rng)).len() == draws_of(record),
        strike_draws(
            attacker.stats(),
            old(defender).stats(),
            drawn_since(*old(rng), *final(rng)),
            record,
        ),
{
    let blow: Blow = attack(rng, attacker);
    let ghost after_attack = *rng;
    let dodged: bool = defense(rng, defender, blow.damage());
    proof {
        let first = drawn_since(*old(rng), after_attack);
        let last = seq![rng.draws().last()];
        lemma_drew_chain(*old(rng), after_attack, *rng, first, last);
        assert((first + last).drop_last() =~= first);
    }
    Strike {
        by_first: by_first,
        blow: blow,
        dodged: dodged,
        armor_left: defender.get_armor(),
        hp_left: defender.get_hp(),
    }
}

/// Whether `drawn` can be the draws of a duel with these strikes, in their
/// order: strike by strike, the draws of each strike, which decide its blow
/// and its dodge from the states that the strikes before it led to.
pub open spec fn duel_draws(start: (Stats, Stats), strikes: Seq<Strike>, drawn: Seq<Draw>) -> bool
    decreases strikes.len(),
{
    if strikes.len() == 0 {
        drawn.len() == 0
    } else {
        let record = strikes.last();
        let before = replay(start, strikes.drop_last());
        let cut = drawn.len() - draws_of(record);
        &&& cut >= 0
        &&& duel_draws(start, strikes.drop_last(), drawn.take(cut))
        &&& strike_draws(
            if record.by_first {
                before.0
            } else {
                before.1
            },
            if record.by_first {
                before.1
            } else {
                before.0
            },
            drawn.skip(cut),
            record,
        )
    }
}

/// The draws of one more strike continue the draws of a duel.
pub proof fn lemma_duel_draws_push(
    start: (Stats, Stats),
    strikes: Seq<Strike>,
    drawn: Seq<Draw>,
    record: Strike,
    more: Seq<Draw>,
)
    requires
        duel_draws(start, strikes, drawn),
        more.len() == draws_of(record),
        strike_draws(
            if record.by_first {
                replay(start, strikes).0
            } else {
                replay(start, strikes).1
            },
            if record.by_first {
                replay(start, strikes).1
            } else {
                replay(start, strikes).0
            },
            more,
            record,
        ),
    ensures
        duel_draws(start, strikes.push(record), drawn + more),
{
    let all = drawn + more;
    let cut = all.len() - draws_of(record);
    assert(strikes.push(record).drop_last() == strikes);
    assert(all.take(cut) =~= drawn);
    assert(all.skip(cut) =~= more);
}

/// One more strike continues a replay, and a faithful record stays faithful
/// where the strike fits the states that the record led to.
pub proof fn lemma_replay_push(start: (Stats, Stats), strikes: Seq<Strike>, record: Strike)
    ensures
        replay(start, strikes.push(record)) == after_strike(replay(start, strikes), record),
        faithful(start, strikes.push(record)) == (faithful(start, strikes) && fits(
            replay(start, strikes),
            record,
        )),
{
    assert(strikes.push(record).drop_last() == strikes);
}

/// Whether the strikes are those of a duel that ended as `outcome` says:
/// the fighters strike in turn, the first fighter first, and the duel stops
/// with the first strike that leaves its target without hit points.
pub open spec fn well_fought(strikes: Seq<Strike>, outcome: Outcome) -> bool {
    &&& forall|i: int| 0 <= i < strikes.len() ==> (#[trigger] strikes[i]).by_first == (i % 2 == 0)
    &&& forall|i: int|
        0 <= i < strikes.len() ==> ((#[trigger] strikes[i]).hp_left <= 0 <==> (outcome
            != Outcome::Undecided && i == strikes.len() - 1))
}

/// Whether a duel that began with the fighters in the states `start` and the
/// generator as `origin` has come by `strikes` to the states `now` and the
/// generator `rng`, and stands as `outcome` says.
#[verifier::opaque]
spec fn on_course(
    start: (Stats, Stats),
    origin: Dice,
    now: (Stats, Stats),
    rng: Dice,
    strikes: Seq<Strike>,
    outcome: Outcome,
) -> bool {
    &&& now.0.valid()
    &&& now.1.valid()
    &&& now.0.same_abilities(start.0)
    &&& now.1.same_abilities(start.1)
    &&& now == replay(start, strikes)
    &&& faithful(start, strikes)
    &&& drew(origin, rng, drawn_since(origin, rng))
    &&& duel_draws(start, strikes, drawn_since(origin, rng))
    &&& well_fought(strikes, outcome)
}

/// Makes one strike of a duel that is on course and undecided, and adds its
/// record to `strikes`. The duel stays on course: undecided where the
/// defender has hit points left, and won by the attacker where it has not.
fn strike_on_record<A: Mortal, D: Mortal>(
    rng: &mut Dice,
    attacker: &A,
    defender: &mut D,
    by_first: bool,
    strikes: &mut Vec<Strike>,
    Ghost(start): Ghost<(Stats, Stats)>,
    Ghost(origin): Ghost<Dice>,
)
    requires
        by_first == (old(strikes)@.len() % 2 == 0),
        on_course(
            start,
            origin,
            sides(attacker.stats(), old(defender).stats(), by_first),
            *old(rng),
            old(strikes)@,
            Outcome::Undecided,
        ),
    ensures
        final(strikes)@.len() == old(strikes)@.len() + 1,
        final(defender).name() == old(defender).name(),
        final(defender).stats().hp >= 0,
        on_course(
            start,
            origin,
            sides(attacker.stats(), final(defender).stats(), by_first),
            *final(rng),
            final(strikes)@,
            if final(defender).stats().hp > 0 {
                Outcome::Undecided
            } else if by_first {
                Outcome::FirstWins
            } else {
                Outcome::SecondWins
            },
        ),
{
    reveal(on_course);
    let ghost before = *rng;
    let record: Strike = strike(rng, attacker, defender, by_first);
    proof {
        let so_far = drawn_since(origin, before);
        let more = drawn_since(before, *rng);
        lemma_drew_chain(origin, before, *rng, so_far, more);
        lemma_duel_draws_push(start, strikes@, so_far, record, more);
        lemma_replay_push(start, strikes@, record);
    }
    strikes.push(record);
}

/// Lets two fighters fight: round by round the first strikes the second,
/// and the second, if it still has hit points, strikes back. The duel ends
/// when a fighter has no hit points left, or undecided after `max_rounds`
/// rounds.
pub fn battle<T: Mortal, U: Mortal>(
    rng: &mut Dice,
    fighter_1: &mut T,
    fighter_2: &mut U,
    max_rounds: u32,
) -> (report: BattleReport)
    requires
        old(fighter_1).stats().valid(),
        old(fighter_2).stats().valid(),
    ensures
        final(fighter_1).stats().valid(),
        final(fighter_2).stats().valid(),
        final(fighter_1).stats().same_abilities(old(fighter_1).stats()),
        final(fighter_2).stats().same_abilities(old(fighter_2).stats()),
        final(fighter_1).name() == old(fighter_1).name(),
        final(fighter_2).name() == old(fighter_2).name(),
        report.rounds <= max_rounds,
        well_fought(report.strikes@, report.outcome),
        faithful((old(fighter_1).stats(), old(fighter_2).stats()), report.strikes@),
        (final(fighter_1).stats(), final(fighter_2).stats()) == replay(
            (old(fighter_1).stats(), old(fighter_2).stats()),
            report.strikes@,
        ),
        drew(*old(rng), *final(rng), drawn_since(*old(rng), *final(rng))),
        duel_draws(
            (old(fighter_1).stats(), old(fighter_2).stats()),
            report.strikes@,
            drawn_since(*old(rng), *final(rng)),
        ),
        report.outcome == Outcome::FirstWins ==> {
            &&& final(fighter_2).stats().hp == 0
            &&& report.rounds > 1 || old(fighter_1).stats().hp > 0 ==> final(fighter_1).stats().hp
                > 0
            &&& report.rounds >= 1
            &&& report.strikes@.len() == 2 * report.rounds - 1
        },
        report.outcome == Outcome::SecondWins ==> {
            &&& final(fighter_1).stats().hp == 0
            &&& final(fighter_2).stats().hp > 0
            &&& report.rounds >= 1
            &&& report.strikes@.len() == 2 * report.rounds
        },
        report.outcome == Outcome::Undecided ==> {
            &&& report.rounds == max_rounds
            &&& report.strikes@.len() == 2 * report.rounds
            &&& max_rounds > 0 ==> final(fighter_1).stats().hp > 0
            &&& max_rounds > 0 ==> final(fighter_2).stats().hp > 0
            &&& max_rounds == 0 ==> final(fighter_1).stats() == old(fighter_1).stats()
            &&& max_rounds == 0 ==> final(fighter_2).stats() == old(fighter_2).stats()
        },
{
    let ghost start = (fighter_1.stats(), fighter_2.stats());
    let ghost origin = *rng;
    let mut strikes: Vec<Strike> = Vec::new();
    let mut rounds: u32 = 0;
    proof {
        reveal(on_course);
        assert(rng.draws() + Seq::<Draw>::empty() =~= rng.draws());
        lemma_drawn_since(*rng, *rng, Seq::empty());
    }
    while rounds < max_rounds
        invariant
            rounds <= max_rounds,
            start == (old(fighter_1).stats(), old(fighter_2).stats()),
            origin == *old(rng),
            fighter_1.name() == old(fighter_1).name(),
            fighter_2.name() == old(fighter_2).name(),
            strikes@.len() == 2 * rounds,
            on_course(
                start,
                origin,
                (fighter_1.stats(), fighter_2.stats()),
                *rng,
                strikes@,
                Outcome::Undecided,
            ),
            rounds > 0 ==> fighter_1.stats().hp > 0 && fighter_2.stats().hp > 0,
            rounds == 0 ==> (fighter_1.stats(), fighter_2.stats()) == start,
        decreases max_rounds - rounds,
    {
        rounds = rounds + 1;
        strike_on_record(rng, fighter_1, fighter_2, true, &mut strikes, Ghost(start), Ghost(origin));
        if fighter_2.get_hp() <= 0 {
            proof {
                reveal(on_course);
            }
            return BattleReport { outcome: Outcome::FirstWins, rounds: rounds, strikes: strikes };
        }
        strike_on_record(
            rng,
            fighter_2,
            fighter_1,
            false,
            &mut strikes,
            Ghost(start),
            Ghost(origin),
        );
        if fighter_1.get_hp() <= 0 {
            proof {
                reveal(on_course);
            }
            return BattleReport { outcome: Outcome::SecondWins, rounds: rounds, strikes: strikes };
        }
    }
    proof {
        reveal(on_course);
    }
    BattleReport { outcome: Outcome::Undecided, rounds: rounds, strikes: strikes }
}

} // verus!
