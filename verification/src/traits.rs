//! What a participant of a fight has to offer, whatever kind of entity it is.

use crate::math::UNIT;
use crate::spatial::{is_floor_sqrt, squared_distance, Pos};
use vstd::prelude::*;

verus! {

/// The combat state of a combatant, as contracts speak of it. Real-valued
/// entries are fixed-point numbers.
#[derive(Debug, Clone, Copy, PartialEq, Eq, Structural)]
pub struct Stats {
    /// Hit points left.
    pub hp: i32,
    /// Armour left.
    pub armor: i64,
    /// The rate at which armour weakens incoming damage.
    pub armor_decay_rate: i64,
    /// The probability that an attack connects.
    pub precision: i64,
    /// The centre of the damage roll.
    pub damage: i64,
    /// The fraction of the damage that is the half-width of the roll.
    pub damage_variation: i64,
    /// The probability of a critical hit.
    pub crit_proba: i64,
    /// The factor by which a critical hit multiplies the damage.
    pub crit_multiplier: i64,
    /// The probability of evading an attack.
    pub dodge_proba: i64,
    /// Whether the combatant is on its guard.
    pub in_alert: bool,
    /// Whether the combatant is attacking.
    pub is_attacking: bool,
    /// Whether the combatant is alive.
    pub is_alive: bool,
}

impl Stats {
    /// The invariant of a combatant: hit points and armour are not negative,
    /// it is alive exactly while it has hit points, its probabilities lie
    /// between zero and one, its damage is not negative, its variation and its
    /// decay rate are positive, and a critical hit does not weaken.
    pub open spec fn valid(self) -> bool {
        &&& self.hp >= 0
        &&& self.is_alive == (self.hp > 0)
        &&& self.armor >= 0
        &&& self.armor_decay_rate > 0
        &&& 0 <= self.precision <= UNIT
        &&& 0 <= self.crit_proba <= UNIT
        &&& 0 <= self.dodge_proba <= UNIT
        &&& self.damage >= 0
        &&& self.damage_variation > 0
        &&& self.crit_multiplier >= UNIT
    }

    /// Whether a strike of `self` at `target` can do damage at all: its
    /// attacks connect with some probability, and the target does not dodge
    /// every time.
    pub open spec fn can_wound(self, target: Stats) -> bool {
        self.precision > 0 && target.dodge_proba < UNIT
    }

    /// The state after the combatant has been killed.
    pub open spec fn killed(self) -> Stats {
        Stats { hp: 0, armor: 0, in_alert: false, is_attacking: false, is_alive: false, ..self }
    }

    /// Whether `self` and `other` agree on everything that a fight never
    /// changes.
    pub open spec fn same_abilities(self, other: Stats) -> bool {
        &&& self.armor_decay_rate == other.armor_decay_rate
        &&& self.precision == other.precision
        &&& self.damage == other.damage
        &&& self.damage_variation == other.damage_variation
        &&& self.crit_proba == other.crit_proba
        &&& self.crit_multiplier == other.crit_multiplier
        &&& self.dodge_proba == other.dodge_proba
    }
}

/// Anything that can attack, defend and die.
pub trait Mortal {
    /// The combat state of the combatant.
    spec fn stats(&self) -> Stats;

    /// The name of the combatant.
    spec fn name(&self) -> Seq<char>;

    fn get_name(&self) -> (name: String)
        ensures
            name@ == self.name(),
    ;

    fn get_hp(&self) -> (hp: i32)
        ensures
            hp == self.stats().hp,
    ;

    fn get_armor(&self) -> (armor: i64)
        ensures
            armor == self.stats().armor,
    ;

    fn get_armor_decay_rate(&self) -> (rate: i64)
        ensures
            rate == self.stats().armor_decay_rate,
    ;

    fn get_precision(&self) -> (precision: i64)
        ensures
            precision == self.stats().precision,
    ;

    fn get_damage(&self) -> (damage: i64)
        ensures
            damage == self.stats().damage,
    ;

    fn get_damage_variation(&self) -> (variation: i64)
        ensures
            variation == self.stats().damage_variation,
    ;

    fn get_crit_proba(&self) -> (proba: i64)
        ensures
            proba == self.stats().crit_proba,
    ;

    fn get_crit_multiplier(&self) -> (multiplier: i64)
        ensures
            multiplier == self.stats().crit_multiplier,
    ;

    fn get_dodge_proba(&self) -> (proba: i64)
        ensures
            proba == self.stats().dodge_proba,
    ;

    fn get_in_alert(&self) -> (flag: bool)
        ensures
            flag == self.stats().in_alert,
    ;

    fn get_is_attacking(&self) -> (flag: bool)
        ensures
            flag == self.stats().is_attacking,
    ;

    fn get_is_alive(&self) -> (flag: bool)
        ensures
            flag == self.stats().is_alive,
    ;

    fn set_hp(&mut self, new_hp: i32)
        ensures
            final(self).stats() == (Stats { hp: new_hp, ..old(self).stats() }),
            final(self).name() == old(self).name(),
    ;

    fn set_armor(&mut self, new_armor: i64)
        ensures
            final(self).stats() == (Stats { armor: new_armor, ..old(self).stats() }),
            final(self).name() == old(self).name(),
    ;

    fn set_in_alert(&mut self, new_bool: bool)
        ensures
            final(self).stats() == (Stats { in_alert: new_bool, ..old(self).stats() }),
            final(self).name() == old(self).name(),
    ;

    fn set_is_attacking(&mut self, new_bool: bool)
        ensures
            final(self).stats() == (Stats { is_attacking: new_bool, ..old(self).stats() }),
            final(self).name() == old(self).name(),
    ;

    fn set_is_alive(&mut self, new_bool: bool)
        ensures
            final(self).stats() == (Stats { is_alive: new_bool, ..old(self).stats() }),
            final(self).name() == old(self).name(),
    ;

    /// Takes the combatant out of the fight: no hit points, no armour, not
    /// alert, not attacking, not alive.
    fn kill(&mut self)
        ensures
            final(self).stats() == old(self).stats().killed(),
            final(self).name() == old(self).name(),
    ;
}

/// Everything that has a place on the plane.
pub trait Located {
    /// The place of the carrier.
    spec fn position(&self) -> Pos;

    fn get_pos(&self) -> (pos: Pos)
        ensures
            pos == self.position(),
    ;

    /// The Euclidean distance from the carrier to the place `other`, in fixed
    /// point and rounded down to a millionth.
    fn get_distance(&self, other: &Pos) -> (distance: i64)
        ensures
            is_floor_sqrt(
                squared_distance(self.position(), *other) * 1_000_000_000_000,
                distance as int,
            ),
    ;

    fn set_pos(&mut self, new_pos: Pos)
        ensures
            final(self).position() == new_pos,
    ;
}

/// Whether a combatant meets the invariant of a combatant, so that it can
/// attack and defend itself.
pub fn is_fit<T: Mortal>(combatant: &T) -> (fit: bool)
    ensures
        fit == combatant.stats().valid(),
{
    let hp: i32 = combatant.get_hp();
    let precision: i64 = combatant.get_precision();
    let crit_proba: i64 = combatant.get_crit_proba();
    let dodge_proba: i64 = combatant.get_dodge_proba();
    hp >= 0 && combatant.get_is_alive() == (hp > 0) && combatant.get_armor() >= 0
        && combatant.get_armor_decay_rate() > 0 && 0 <= precision && precision <= UNIT && 0
        <= crit_proba && crit_proba <= UNIT && 0 <= dodge_proba && dodge_proba <= UNIT
        && combatant.get_damage() >= 0 && combatant.get_damage_variation() > 0
        && combatant.get_crit_multiplier() >= UNIT
}

/// The Euclidean distance between two carriers, in fixed point and rounded
/// down to a millionth.
pub fn distance_between<A: Located, B: Located>(a: &A, b: &B) -> (distance: i64)
    ensures
        is_floor_sqrt(
            squared_distance(a.position(), b.position()) * 1_000_000_000_000,
            distance as int,
        ),
{
    let place: Pos = b.get_pos();
    a.get_distance(&place)
}

/// Killing twice is killing once, and a killed combatant has neither hit
/// points nor armour and is not alive.
pub proof fn lemma_kill_idempotent(s: Stats)
    ensures
        s.killed().killed() == s.killed(),
        s.killed().hp == 0,
        s.killed().armor == 0,
        !s.killed().is_alive,
        s.valid() ==> s.killed().valid(),
{
}

} // verus!
