//! The rules of an attack: three tests in a row, each decided by one roll.
use vstd::prelude::*;
use crate::dice::{lemma_step_in_circle, Dice, ROLL_HIGH, ROLL_LOW};
use crate::object_types::{UnitType, UnitTypeView, WeaponType, WeaponTypeView};

verus! {

/// What a roll has to stay below in each of the three tests of an attack.
#[derive(Clone, Copy, Debug, PartialEq, Eq, Structural)]
pub struct Thresholds {
    pub hit: i64,
    pub pierce: i64,
    pub wound: i64,
}

/// Threshold of the hit test: a large target, an accurate weapon and a
/// skilled attacker are each easier to hit with.
pub open spec fn hit_threshold(
    attacker: UnitTypeView,
    defender: UnitTypeView,
    weapon: WeaponTypeView,
) -> int {
    -15 + defender.size + weapon.accuracy + attacker.weapon_skill
}

/// Threshold of the pierce test: the weapon's penetration against the
/// defender's armor.
pub open spec fn pierce_threshold(defender: UnitTypeView, weapon: WeaponTypeView) -> int {
    5 - defender.armor + weapon.ap
}

/// Threshold of the wound test: the weapon's damage against the defender's
/// toughness.
pub open spec fn wound_threshold(defender: UnitTypeView, weapon: WeaponTypeView) -> int {
    -defender.toughness + weapon.damage
}

/// The thresholds of an attack as mathematical values.
pub struct ThresholdsView {
    pub hit: int,
    pub pierce: int,
    pub wound: int,
}

impl View for Thresholds {
    type V = ThresholdsView;

    open spec fn view(&self) -> ThresholdsView {
        ThresholdsView {
            hit: self.hit as int,
            pierce: self.pierce as int,
            wound: self.wound as int,
        }
    }
}

/// The three thresholds of an attack by a unit of type `attacker`, armed
/// with `weapon`, on a unit of type `defender`.
pub open spec fn spec_thresholds(
    attacker: UnitTypeView,
    defender: UnitTypeView,
    weapon: WeaponTypeView,
) -> ThresholdsView {
    ThresholdsView {
        hit: hit_threshold(attacker, defender, weapon),
        pierce: pierce_threshold(defender, weapon),
        wound: wound_threshold(defender, weapon),
    }
}

/// A test is passed by a roll below what is needed.
pub open spec fn passes(roll: int, needed: int) -> bool {
    roll < needed
}

/// Whether an attack read off a script kills: the three coming rolls pass
/// the hit test, the pierce test and the wound test.
pub open spec fn scripted_kill(t: ThresholdsView, dice: Dice) -> bool {
    &&& passes(dice.upcoming(0), t.hit)
    &&& passes(dice.upcoming(1), t.pierce)
    &&& passes(dice.upcoming(2), t.wound)
}

/// Number of rolls that an attack read off a script takes: the tests stop at
/// the first one that fails.
pub open spec fn scripted_rolls(t: ThresholdsView, dice: Dice) -> int {
    if !passes(dice.upcoming(0), t.hit) {
        1
    } else if !passes(dice.upcoming(1), t.pierce) {
        2
    } else {
        3
    }
}

/// Whether some rolls of the random source pass all three tests.
pub open spec fn may_kill(t: ThresholdsView) -> bool {
    t.hit > ROLL_LOW && t.pierce > ROLL_LOW && t.wound > ROLL_LOW
}

/// Whether all rolls of the random source pass all three tests.
pub open spec fn must_kill(t: ThresholdsView) -> bool {
    t.hit >= ROLL_HIGH && t.pierce >= ROLL_HIGH && t.wound >= ROLL_HIGH
}

/// What an attack with thresholds `t` does to a source of rolls and what can
/// come of it.
///
/// With a script the outcome is a function of the coming rolls, and the
/// script is read on by the number of tests made. With the random source the
/// outcome is open wherever the thresholds leave it open.
pub open spec fn resolves(t: ThresholdsView, before: Dice, killed: bool, after: Dice) -> bool {
    if before.is_random() {
        &&& before.advances_to(0, after)
        &&& killed ==> may_kill(t)
        &&& must_kill(t) ==> killed
    } else {
        &&& killed == scripted_kill(t, before)
        &&& before.advances_to(scripted_rolls(t, before), after)
    }
}

/// The thresholds of an attack by a unit of type `attacker_type`, armed with
/// `weapon_type`, on a unit of type `defender_type`.
pub fn thresholds(
    attacker_type: &UnitType,
    defender_type: &UnitType,
    weapon_type: &WeaponType,
) -> (t: Thresholds)
    ensures
        t@ == spec_thresholds(attacker_type@, defender_type@, weapon_type@),
{
    let size: i64 = defender_type.size as i64;
    let accuracy: i64 = weapon_type.accuracy as i64;
    let weapon_skill: i64 = attacker_type.weapon_skill as i64;
    let armor: i64 = defender_type.armor as i64;
    let ap: i64 = weapon_type.ap as i64;
    let toughness: i64 = defender_type.toughness as i64;
    let damage: i64 = weapon_type.damage as i64;
    Thresholds {
        hit: -15 + size + accuracy + weapon_skill,
        pierce: 5 + -armor + ap,
        wound: -toughness + damage,
    }
}

/// One test: rolls once and says whether the roll stays below `needed`.
pub fn roll_test(needed: i64, dice: &mut Dice) -> (passed: bool)
    ensures
        old(dice).advances_to(1, *final(dice)),
        !old(dice).is_random() ==> passed == passes(old(dice).upcoming(0), needed as int),
        old(dice).is_random() ==> (passed ==> needed > ROLL_LOW) && (needed >= ROLL_HIGH
            ==> passed),
        !old(dice).is_random() ==> 0 <= old(dice).cursor() < old(dice).script().unwrap().len(),
{
    let rolled: i64 = dice.roll() as i64;
    rolled < needed
}

/// Resolves an attack with thresholds `t`: the hit test, the pierce test and
/// the wound test, each on a roll of its own. The first test that fails ends
/// the attack, and no roll is made for the tests after it.
pub fn resolve_attack(t: &Thresholds, dice: &mut Dice) -> (killed: bool)
    ensures
        resolves(t@, *old(dice), killed, *final(dice)),
{
    let ghost start = *dice;
    let hit: bool = roll_test(t.hit, dice);
    let ghost second = *dice;
    if !hit {
        return false;
    }
    let pierced: bool = roll_test(t.pierce, dice);
    let ghost third = *dice;
    proof {
        if !start.is_random() {
            lemma_rolls_in_a_row(start, second, 1);
        }
    }
    if !pierced {
        return false;
    }
    let wounded: bool = roll_test(t.wound, dice);
    proof {
        if !start.is_random() {
            lemma_rolls_in_a_row(start, third, 2);
        }
    }
    wounded
}

/// A scripted source that has made `n` rolls since `start` gives as its
/// coming roll what `start` gives after `n` rolls, and one more roll leaves
/// it `n + 1` rolls after `start`.
proof fn lemma_rolls_in_a_row(start: Dice, now: Dice, n: int)
    requires
        !start.is_random(),
        0 <= n,
        0 <= start.cursor() < start.script().unwrap().len(),
        start.advances_to(n, now),
    ensures
        0 <= now.cursor() < now.script().unwrap().len(),
        now.upcoming(0) == start.upcoming(n),
        forall|later: Dice| #[trigger]
            now.advances_to(1, later) ==> start.advances_to(n + 1, later),
{
    let len = start.script().unwrap().len() as int;
    lemma_step_in_circle(start.cursor(), n, len);
    lemma_step_in_circle(now.cursor(), 0, len);
}

} // verus!
