//! Creatures, and the bestiary that they are spawned from.

use crate::spatial::Pos;
use crate::traits::{Located, Mortal, Stats};
use vstd::prelude::*;

verus! {

/// The ways in which a creature moves.
#[derive(Debug, Clone, Copy, PartialEq, Eq, Structural)]
pub enum MoveCategory {
    Terrestrial,
    Aerian,
    Aquatic,
}

impl Default for MoveCategory {
    fn default() -> (category: MoveCategory)
        ensures
            category == MoveCategory::Terrestrial,
    {
        MoveCategory::Terrestrial
    }
}

/// An enemy of the player.
#[derive(Debug, Clone)]
pub struct Mob {
    name: String,
    category: MoveCategory,
    pos: Pos,
    speed: i64,
    hp: i32,
    armor: i64,
    armor_decay_rate: i64,
    precision: i64,
    damage: i64,
    damage_variation: i64,
    crit_proba: i64,
    crit_multiplier: i64,
    dodge_proba: i64,
    in_alert: bool,
    is_attacking: bool,
    is_alive: bool,
}

/// The combat state that every creature of the bestiary starts with, but for
/// the five entries that tell the creatures apart.
pub open spec fn template_stats(hp: i32, armor: i64, precision: i64, damage: i64, dodge_proba: i64)
    -> Stats {
    Stats {
        hp: hp,
        armor: armor,
        armor_decay_rate: 40_000,
        precision: precision,
        damage: damage,
        damage_variation: 8_000_000,
        crit_proba: 100_000,
        crit_multiplier: 2_000_000,
        dodge_proba: dodge_proba,
        in_alert: false,
        is_attacking: false,
        is_alive: true,
    }
}

/// The combat state of a fresh dragon.
pub open spec fn dragon_stats() -> Stats {
    template_stats(230, 0, 950_000, 40_000_000, 50_000)
}

/// The combat state of a fresh gobelin.
pub open spec fn gobelin_stats() -> Stats {
    template_stats(100, 100_000_000, 950_000, 45_000_000, 150_000)
}

/// The combat state of a fresh shark.
pub open spec fn shark_stats() -> Stats {
    template_stats(70, 0, 850_000, 40_000_000, 50_000)
}

/// The message of the error that `get_mob` gives for a key that the bestiary
/// does not hold.
pub open spec fn unknown_mob_error(key: Seq<char>) -> Seq<char> {
    "Mob '"@ + key + "' not found in bestiary"@
}

/// Whether the bestiary holds an entry under `key`.
pub open spec fn in_bestiary(key: Seq<char>) -> bool {
    key == "dragon"@ || key == "gobelin"@ || key == "shark"@
}

impl Mob {
    /// The kind of movement of the creature.
    pub closed spec fn category(&self) -> MoveCategory {
        self.category
    }

    /// The speed of the creature, in fixed point.
    pub closed spec fn speed(&self) -> int {
        self.speed as int
    }

    /// Whether the creature is a fresh copy of a bestiary entry with this
    /// name, kind of movement and combat state: at the origin, at the speed of
    /// a quarter.
    pub open spec fn is_fresh(&self, name: Seq<char>, category: MoveCategory, stats: Stats) -> bool {
        &&& self.name() == name
        &&& self.category() == category
        &&& self.stats() == stats
        &&& self.position() == (Pos { x: 0, y: 0 })
        &&& self.speed() == 250_000
    }

    /// A creature with the given name, kind of movement, place, speed and
    /// combat state.
    pub fn new(name: String, category: MoveCategory, pos: Pos, speed: i64, stats: Stats) -> (mob:
        Mob)
        ensures
            mob.name() == name@,
            mob.category() == category,
            mob.position() == pos,
            mob.speed() == speed,
            mob.stats() == stats,
    {
        Mob {
            name: name,
            category: category,
            pos: pos,
            speed: speed,
            hp: stats.hp,
            armor: stats.armor,
            armor_decay_rate: stats.armor_decay_rate,
            precision: stats.precision,
            damage: stats.damage,
            damage_variation: stats.damage_variation,
            crit_proba: stats.crit_proba,
            crit_multiplier: stats.crit_multiplier,
            dodge_proba: stats.dodge_proba,
            in_alert: stats.in_alert,
            is_attacking: stats.is_attacking,
            is_alive: stats.is_alive,
        }
    }

    /// The place of the creature.
    pub closed spec fn place(&self) -> Pos {
        self.pos
    }

    /// Whether the creature is where `before` was, and of its kind of movement and
    /// speed: all that a fight leaves alone besides the name.
    pub open spec fn unmoved(&self, before: &Mob) -> bool {
        &&& self.place() == before.place()
        &&& self.category() == before.category()
        &&& self.speed() == before.speed()
    }

    pub fn get_category(&self) -> (category: MoveCategory)
        ensures
            category == self.category(),
    {
        self.category
    }

    pub fn get_speed(&self) -> (speed: i64)
        ensures
            speed == self.speed(),
    {
        self.speed
    }

    /// Kills the creature: no hit points, no armour, not alert, not
    /// attacking, not alive.
    pub fn kill(&mut self)
        ensures
            final(self).stats() == old(self).stats().killed(),
            final(self).name() == old(self).name(),
            final(self).unmoved(old(self)),
    {
        self.armor = 0;
        self.hp = 0;
        self.in_alert = false;
        self.is_attacking = false;
        self.is_alive = false;
    }
}

impl Mortal for Mob {
    closed spec fn stats(&self) -> Stats {
        Stats {
            hp: self.hp,
            armor: self.armor,
            armor_decay_rate: self.armor_decay_rate,
            precision: self.precision,
            damage: self.damage,
            damage_variation: self.damage_variation,
            crit_proba: self.crit_proba,
            crit_multiplier: self.crit_multiplier,
            dodge_proba: self.dodge_proba,
            in_alert: self.in_alert,
            is_attacking: self.is_attacking,
            is_alive: self.is_alive,
        }
    }

    closed spec fn name(&self) -> Seq<char> {
        self.name@
    }

    fn get_name(&self) -> (name: String) {
        self.name.clone()
    }

    fn get_hp(&self) -> (hp: i32) {
        self.hp
    }

    fn get_armor(&self) -> (armor: i64) {
        self.armor
    }

    fn get_armor_decay_rate(&self) -> (rate: i64) {
        self.armor_decay_rate
    }

    fn get_precision(&self) -> (precision: i64) {
        self.precision
    }

    fn get_damage(&self) -> (damage: i64) {
        self.damage
    }

    fn get_damage_variation(&self) -> (variation: i64) {
        self.damage_variation
    }

    fn get_crit_proba(&self) -> (proba: i64) {
        self.crit_proba
    }

    fn get_crit_multiplier(&self) -> (multiplier: i64) {
        self.crit_multiplier
    }

    fn get_dodge_proba(&self) -> (proba: i64) {
        self.dodge_proba
    }

    fn get_in_alert(&self) -> (flag: bool) {
        self.in_alert
    }

    fn get_is_attacking(&self) -> (flag: bool) {
        self.is_attacking
    }

    fn get_is_alive(&self) -> (flag: bool) {
        self.is_alive
    }

    fn set_hp(&mut self, new_hp: i32)
        ensures
            final(self).unmoved(old(self)),
    {
        self.hp = new_hp;
    }

    fn set_armor(&mut self, new_armor: i64)
        ensures
            final(self).unmoved(old(self)),
    {
        self.armor = new_armor;
    }

    fn set_in_alert(&mut self, new_bool: bool)
        ensures
            final(self).unmoved(old(self)),
    {
        self.in_alert = new_bool;
    }

    fn set_is_attacking(&mut self, new_bool: bool)
        ensures
            final(self).unmoved(old(self)),
    {
        self.is_attacking = new_bool;
    }

    fn set_is_alive(&mut self, new_bool: bool)
        ensures
            final(self).unmoved(old(self)),
    {
        self.is_alive = new_bool;
    }

    fn kill(&mut self)
        ensures
            final(self).unmoved(old(self)),
    {
        self.armor = 0;
        self.hp = 0;
        self.in_alert = false;
        self.is_attacking = false;
        self.is_alive = false;
    }
}

impl Located for Mob {
    open spec fn position(&self) -> Pos {
        self.place()
    }

    fn get_pos(&self) -> (pos: Pos) {
        self.pos
    }

    fn get_distance(&self, other: &Pos) -> (distance: i64) {
        self.pos.dist(other)
    }

    fn set_pos(&mut self, new_pos: Pos)
        ensures
            final(self).stats() == old(self).stats(),
            final(self).name() == old(self).name(),
            final(self).category() == old(self).category(),
            final(self).speed() == old(self).speed(),
    {
        self.pos = new_pos;
    }
}

/// A fresh creature of the bestiary with the given name, kind of movement and
/// the five entries that tell its creatures apart.
fn spawn(
    name: &str,
    category: MoveCategory,
    hp: i32,
    armor: i64,
    precision: i64,
    damage: i64,
    dodge_proba: i64,
) -> (mob: Mob)
    ensures
        mob.is_fresh(name@, category, template_stats(hp, armor, precision, damage, dodge_proba)),
{
    let stats: Stats = Stats {
        hp: hp,
        armor: armor,
        armor_decay_rate: 40_000,
        precision: precision,
        damage: damage,
        damage_variation: 8_000_000,
        crit_proba: 100_000,
        crit_multiplier: 2_000_000,
        dodge_proba: dodge_proba,
        in_alert: false,
        is_attacking: false,
        is_alive: true,
    };
    Mob::new(String::from_str(name), category, Pos::default(), 250_000, stats)
}

/// Looks a creature up in the bestiary and returns a fresh copy of it. The
/// bestiary holds a dragon, a gobelin and a shark; any other key is an error
/// whose message names the key.
pub fn get_mob(mob_name: &str) -> (res: Result<Mob, String>)
    ensures
        in_bestiary(mob_name@) <==> res is Ok,
        mob_name@ == "dragon"@ ==> res is Ok && res->Ok_0.is_fresh(
            "Drago"@,
            MoveCategory::Aerian,
            dragon_stats(),
        ),
        mob_name@ == "gobelin"@ ==> res is Ok && res->Ok_0.is_fresh(
            "Gobee"@,
            MoveCategory::Terrestrial,
            gobelin_stats(),
        ),
        mob_name@ == "shark"@ ==> res is Ok && res->Ok_0.is_fresh(
            "Sharky"@,
            MoveCategory::Aquatic,
            shark_stats(),
        ),
        res matches Ok(mob) ==> mob.stats().valid(),
        res matches Err(message) ==> message@ == unknown_mob_error(mob_name@),
{
    proof {
        lemma_templates_valid();
        reveal_strlit("dragon");
        reveal_strlit("gobelin");
        reveal_strlit("shark");
    }
    let key: String = String::from_str(mob_name);
    if key == String::from_str("dragon") {
        assert("dragon"@ != "gobelin"@ && "dragon"@ != "shark"@) by {
            assert("dragon"@[0] == 'd' && "gobelin"@[0] == 'g' && "shark"@[0] == 's');
        }
        Ok(spawn("Drago", MoveCategory::Aerian, 230, 0, 950_000, 40_000_000, 50_000))
    } else if key == String::from_str("gobelin") {
        assert("gobelin"@ != "shark"@) by {
            assert("gobelin"@[0] == 'g' && "shark"@[0] == 's');
        }
        Ok(spawn("Gobee", MoveCategory::Terrestrial, 100, 100_000_000, 950_000, 45_000_000, 150_000))
    } else if key == String::from_str("shark") {
        Ok(spawn("Sharky", MoveCategory::Aquatic, 70, 0, 850_000, 40_000_000, 50_000))
    } else {
        Err(String::from_str("Mob '").concat(mob_name).concat("' not found in bestiary"))
    }
}

/// Every creature of the bestiary starts in a state that meets the invariant
/// of a combatant.
pub proof fn lemma_templates_valid()
    ensures
        dragon_stats().valid(),
        gobelin_stats().valid(),
        shark_stats().valid(),
{
}

} // verus!
