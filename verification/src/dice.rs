//! Where the rolls of the combat rules come from.
//!
//! A source of rolls is either the random generator of the running thread or
//! a script: a list of rolls that is read in order and starts over after its
//! last entry. A script makes a game repeatable.
use vstd::prelude::*;
use rand::Rng;

verus! {

/// Lowest roll of the random generator.
pub const ROLL_LOW: i32 = -5;

/// Bound that every roll of the random generator stays below.
pub const ROLL_HIGH: i32 = 5;

/// A number drawn by `rand::Rng::gen_range` from the generator that
/// `rand::thread_rng` hands to the running thread.
///
/// Trusted, not proved: the number is at least `low` and below `high`. Which
/// number it is differs from call to call, so nothing more is said. The
/// sampler stops the program unless `low < high`, and so does the generator
/// if the system cannot seed it.
#[verifier::external_body]
fn gen_range(low: i32, high: i32) -> (roll: i32)
    requires
        low < high,
    ensures
        low <= roll < high,
{
    rand::thread_rng().gen_range(low, high)
}

/// A source of rolls.
#[derive(Debug)]
pub struct Dice {
    script: Vec<i32>,
    next: usize,
}

impl Dice {
    /// The place of the coming roll lies in the script. A source without a
    /// script is the random one.
    #[verifier::type_invariant]
    pub closed spec fn wf(self) -> bool {
        self.script@.len() == 0 || self.next < self.script@.len()
    }

    /// The script that the rolls are read from; `None` for the random source.
    pub closed spec fn script(self) -> Option<Seq<i32>> {
        if self.script@.len() == 0 {
            None
        } else {
            Some(self.script@)
        }
    }

    /// Place in the script of the coming roll; 0 for the random source.
    pub closed spec fn cursor(self) -> int {
        if self.script@.len() == 0 {
            0
        } else {
            self.next as int
        }
    }

    /// Whether the rolls come from the random generator.
    pub open spec fn is_random(self) -> bool {
        self.script().is_none()
    }

    /// The roll that a scripted source gives after `i` other rolls.
    pub open spec fn upcoming(self, i: int) -> int {
        let script = self.script().unwrap();
        script[(self.cursor() + i) % (script.len() as int)] as int
    }

    /// Whether `later` is this source after `n` rolls: the same script, read
    /// `n` places further on. The random source has no state to change.
    pub open spec fn advances_to(self, n: int, later: Dice) -> bool {
        &&& later.script() == self.script()
        &&& match self.script() {
            Some(script) => later.cursor() == (self.cursor() + n) % (script.len() as int),
            None => later.cursor() == 0,
        }
    }

    /// The random source.
    pub fn random() -> (dice: Dice)
        ensures
            dice.is_random(),
            dice.cursor() == 0,
    {
        Dice { script: Vec::new(), next: 0 }
    }

    /// A source that reads its rolls off `script`, round and round. There is
    /// no such source for a script without rolls.
    pub fn scripted(script: Vec<i32>) -> (dice: Option<Dice>)
        ensures
            script@.len() == 0 <==> dice.is_none(),
            match dice {
                Some(dice) => dice.script() == Some(script@) && dice.cursor() == 0,
                None => true,
            },
    {
        if script.len() == 0 {
            None
        } else {
            Some(Dice { script: script, next: 0 })
        }
    }

    /// Number of rolls in the script; 0 for the random source.
    pub fn script_len(&self) -> (len: usize)
        ensures
            match self.script() {
                Some(script) => len == script.len() && len >= 1,
                None => len == 0,
            },
    {
        self.script.len()
    }

    /// Place in the script of the coming roll.
    pub fn position(&self) -> (place: usize)
        ensures
            place == self.cursor(),
            self.script().is_some() ==> place < self.script().unwrap().len(),
    {
        proof {
            use_type_invariant(self);
        }
        if self.script.len() == 0 {
            0
        } else {
            self.next
        }
    }

    /// One roll. The random source gives a number from `ROLL_LOW` up to, not
    /// reaching, `ROLL_HIGH`; a scripted source gives the coming entry of
    /// its script and moves on by one place.
    pub fn roll(&mut self) -> (roll: i32)
        ensures
            old(self).advances_to(1, *final(self)),
            old(self).is_random() ==> ROLL_LOW <= roll < ROLL_HIGH,
            !old(self).is_random() ==> roll == old(self).upcoming(0),
            !old(self).is_random() ==> 0 <= old(self).cursor() < old(self).script().unwrap().len(),
    {
        proof {
            use_type_invariant(&*self);
        }
        let len: usize = self.script.len();
        if len == 0 {
            gen_range(ROLL_LOW, ROLL_HIGH)
        } else {
            let place: usize = self.next;
            let roll: i32 = self.script[place];
            let after: usize = if place + 1 == len {
                0
            } else {
                place + 1
            };
            proof {
                lemma_step_in_circle(place as int, 1, len as int);
                lemma_step_in_circle(place as int, 0, len as int);
            }
            self.next = after;
            roll
        }
    }
}

/// Moving on by `n` places on a circle of `len` places, from a place on it.
pub proof fn lemma_step_in_circle(place: int, n: int, len: int)
    requires
        0 <= place < len,
        0 <= n,
    ensures
        0 <= (place + n) % len < len,
        n == 0 ==> (place + n) % len == place,
        n == 1 ==> (place + n) % len == if place + 1 == len {
            0
        } else {
            place + 1
        },
        ((place + n) % len + 1) % len == (place + n + 1) % len,
{
    vstd::arithmetic::div_mod::lemma_mod_bound(place + n, len);
    vstd::arithmetic::div_mod::lemma_small_mod(place as nat, len as nat);
    if place + 1 == len {
        vstd::arithmetic::div_mod::lemma_mod_self_0(len);
    } else {
        vstd::arithmetic::div_mod::lemma_small_mod((place + 1) as nat, len as nat);
    }
    vstd::arithmetic::div_mod::lemma_add_mod_noop(place + n, 1, len);
    vstd::arithmetic::div_mod::lemma_mod_twice(place + n, len);
    vstd::arithmetic::div_mod::lemma_add_mod_noop((place + n) % len, 1, len);
}

} // verus!
