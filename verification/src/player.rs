//! The character that the player controls.

use crate::mobs::{dragon_stats, gobelin_stats, shark_stats};
use crate::spatial::Pos;
use crate::traits::{Located, Mortal, Stats};
use vstd::prelude::*;

verus! {

/// The classes that a player can choose from. A class decides the abilities
/// that a character starts with.
#[derive(Debug, Clone, Copy, PartialEq, Eq, Structural)]
pub enum PlayerClass {
    Archer,
    Warrior,
}

/// The character controlled by the player.
#[derive(Debug)]
pub struct Player {
    name: String,
    class: PlayerClass,
    pub pos: Pos,
    speed: i64,
    hp: i32,
    armor: i64,
    armor_decay_rate: i64,
    precision: i64,
    damage: i64,
    damage_variation: i64,
    crit_proba: i64,
    crit_multiplier: i64,
    dodge_proba: i64,
    in_alert: bool,
    is_attacking: bool,
    is_alive: bool,
}

/// The combat state of a fresh warrior.
pub open spec fn warrior_stats() -> Stats {
    Stats {
        hp: 100,
        armor: 100_000_000,
        armor_decay_rate: 40_000,
        precision: 900_000,
        damage: 45_000_000,
        damage_variation: 8_000_000,
        crit_proba: 50_000,
        crit_multiplier: 2_000_000,
        dodge_proba: 80_000,
        in_alert: false,
        is_attacking: false,
        is_alive: true,
    }
}

/// The combat state of a fresh archer.
pub open spec fn archer_stats() -> Stats {
    Stats {
        hp: 100,
        armor: 60_000_000,
        armor_decay_rate: 40_000,
        precision: 750_000,
        damage: 50_000_000,
        damage_variation: 8_000_000,
        crit_proba: 50_000,
        crit_multiplier: 2_500_000,
        dodge_proba: 150_000,
        in_alert: false,
        is_attacking: false,
        is_alive: true,
    }
}

/// The combat state that a character of the given class starts with.
pub open spec fn class_stats(class: PlayerClass) -> Stats {
    match class {
        PlayerClass::Warrior => warrior_stats(),
        PlayerClass::Archer => archer_stats(),
    }
}

/// The speed that a character of the given class starts with, in fixed point.
pub open spec fn class_speed(class: PlayerClass) -> int {
    match class {
        PlayerClass::Warrior => 250_000,
        PlayerClass::Archer => 400_000,
    }
}

/// Whether `stats` is the combat state of a fresh creature of the bestiary or
/// of a fresh character of either class.
pub open spec fn is_stock(stats: Stats) -> bool {
    ||| stats == dragon_stats()
    ||| stats == gobelin_stats()
    ||| stats == shark_stats()
    ||| stats == warrior_stats()
    ||| stats == archer_stats()
}

/// Any two stock fighters meet the invariant of a combatant, and each can
/// wound the other: no duel between them is stuck from the start.
pub proof fn lemma_stock_fighters_can_wound(a: Stats, b: Stats)
    requires
        is_stock(a),
        is_stock(b),
    ensures
        a.valid(),
        b.valid(),
        a.can_wound(b),
        b.can_wound(a),
{
}

impl Player {
    /// The class of the character.
    pub closed spec fn class(&self) -> PlayerClass {
        self.class
    }

    /// The speed of the character, in fixed point.
    pub closed spec fn speed(&self) -> int {
        self.speed as int
    }

    /// Creates a character of the given class at the given place, with the
    /// abilities of its class.
    pub fn new(name: String, class: PlayerClass, pos: Pos) -> (player: Player)
        ensures
            player.name() == name@,
            player.class() == class,
            player.position() == pos,
            player.speed() == class_speed(class),
            player.stats() == class_stats(class),
            player.stats().valid(),
    {
        match class {
            PlayerClass::Warrior => Player {
                name: name,
                class: class,
                pos: pos,
                speed: 250_000,
                hp: 100,
                armor: 100_000_000,
                armor_decay_rate: 40_000,
                precision: 900_000,
                damage: 45_000_000,
                damage_variation: 8_000_000,
                crit_proba: 50_000,
                crit_multiplier: 2_000_000,
                dodge_proba: 80_000,
                in_alert: false,
                is_attacking: false,
                is_alive: true,
            },
            PlayerClass::Archer => Player {
                name: name,
                class: class,
                pos: pos,
                speed: 400_000,
                hp: 100,
                armor: 60_000_000,
                armor_decay_rate: 40_000,
                precision: 750_000,
                damage: 50_000_000,
                damage_variation: 8_000_000,
                crit_proba: 50_000,
                crit_multiplier: 2_500_000,
                dodge_proba: 150_000,
                in_alert: false,
                is_attacking: false,
                is_alive: true,
            },
        }
    }

    /// The place of the character.
    pub closed spec fn place(&self) -> Pos {
        self.pos
    }

    /// Whether the character is where `before` was, and of its class and
    /// speed: all that a fight leaves alone besides the name.
    pub open spec fn unmoved(&self, before: &Player) -> bool {
        &&& self.place() == before.place()
        &&& self.class() == before.class()
        &&& self.speed() == before.speed()
    }

    pub fn get_class(&self) -> (class: PlayerClass)
        ensures
            class == self.class(),
    {
        self.class
    }

    pub fn get_speed(&self) -> (speed: i64)
        ensures
            speed == self.speed(),
    {
        self.speed
    }
}

impl Mortal for Player {
    closed spec fn stats(&self) -> Stats {
        Stats {
            hp: self.hp,
            armor: self.armor,
            armor_decay_rate: self.armor_decay_rate,
            precision: self.precision,
            damage: self.damage,
            damage_variation: self.damage_variation,
            crit_proba: self.crit_proba,
            crit_multiplier: self.crit_multiplier,
            dodge_proba: self.dodge_proba,
            in_alert: self.in_alert,
            is_attacking: self.is_attacking,
            is_alive: self.is_alive,
        }
    }

    closed spec fn name(&self) -> Seq<char> {
        self.name@
    }

    fn get_name(&self) -> (name: String) {
        self.name.clone()
    }

    fn get_hp(&self) -> (hp: i32) {
        self.hp
    }

    fn get_armor(&self) -> (armor: i64) {
        self.armor
    }

    fn get_armor_decay_rate(&self) -> (rate: i64) {
        self.armor_decay_rate
    }

    fn get_precision(&self) -> (precision: i64) {
        self.precision
    }

    fn get_damage(&self) -> (damage: i64) {
        self.damage
    }

    fn get_damage_variation(&self) -> (variation: i64) {
        self.damage_variation
    }

    fn get_crit_proba(&self) -> (proba: i64) {
        self.crit_proba
    }

    fn get_crit_multiplier(&self) -> (multiplier: i64) {
        self.crit_multiplier
    }

    fn get_dodge_proba(&self) -> (proba: i64) {
        self.dodge_proba
    }

    fn get_in_alert(&self) -> (flag: bool) {
        self.in_alert
    }

    fn get_is_attacking(&self) -> (flag: bool) {
        self.is_attacking
    }

    fn get_is_alive(&self) -> (flag: bool) {
        self.is_alive
    }

    fn set_hp(&mut self, new_hp: i32)
        ensures
            final(self).unmoved(old(self)),
    {
        self.hp = new_hp;
    }

    fn set_armor(&mut self, new_armor: i64)
        ensures
            final(self).unmoved(old(self)),
    {
        self.armor = new_armor;
    }

    fn set_in_alert(&mut self, new_bool: bool)
        ensures
            final(self).unmoved(old(self)),
    {
        self.in_alert = new_bool;
    }

    fn set_is_attacking(&mut self, new_bool: bool)
        ensures
            final(self).unmoved(old(self)),
    {
        self.is_attacking = new_bool;
    }

    fn set_is_alive(&mut self, new_bool: bool)
        ensures
            final(self).unmoved(old(self)),
    {
        self.is_alive = new_bool;
    }

    fn kill(&mut self)
        ensures
            final(self).unmoved(old(self)),
    {
        self.armor = 0;
        self.hp = 0;
        self.in_alert = false;
        self.is_attacking = false;
        self.is_alive = false;
    }
}

impl Located for Player {
    open spec fn position(&self) -> Pos {
        self.place()
    }

    fn get_pos(&self) -> (pos: Pos) {
        self.pos
    }

    fn get_distance(&self, other: &Pos) -> (distance: i64) {
        self.pos.dist(other)
    }

    fn set_pos(&mut self, new_pos: Pos)
        ensures
            final(self).stats() == old(self).stats(),
            final(self).name() == old(self).name(),
            final(self).class() == old(self).class(),
            final(self).speed() == old(self).speed(),
    {
        self.pos = new_pos;
    }
}

} // verus!
