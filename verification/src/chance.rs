//! Random draws: the generator, the probability trial and the centred roll.
//!
//! The generator is `rand`'s `StdRng`. Nothing is proved of that crate: what
//! this module believes of it is written on the three private functions at
//! the end of the file, and every contract here holds whatever value a draw
//! gives within its range.

use crate::math::{normalized, saturated, UNIT};
use crate::math::normalize;
use rand::rngs::StdRng;
use vstd::prelude::*;

verus! {

#[verifier::external_type_specification]
#[verifier::external_body]
pub struct ExStdRng(StdRng);

/// One draw of a generator: the range that was asked for, both ends
/// included, and the value that came.
pub struct Draw {
    pub low: i64,
    pub high: i64,
    pub value: i64,
}

/// A source of random draws. `rand` lets two generators of the same seed give
/// the same draws in the same order; no contract here rests on that.
///
/// Contracts speak of a generator by what is known of it from outside: the
/// seed that it was made from, if any, and the draws that were made from it,
/// oldest first.
pub struct Dice {
    rng: StdRng,
    seed: Ghost<Option<u64>>,
    draws: Ghost<Seq<Draw>>,
}

/// Whether `after` is the generator `before` once `drawn` has been drawn from
/// it, in this order, and nothing else.
pub open spec fn drew(before: Dice, after: Dice, drawn: Seq<Draw>) -> bool {
    after.seed() == before.seed() && after.draws() == before.draws() + drawn
}

/// What was drawn from the generator between `before` and `after`.
pub open spec fn drawn_since(before: Dice, after: Dice) -> Seq<Draw> {
    after.draws().skip(before.draws().len() as int)
}

/// Draws made one after the other add up.
pub proof fn lemma_drew_chain(a: Dice, b: Dice, c: Dice, first: Seq<Draw>, then: Seq<Draw>)
    requires
        drew(a, b, first),
        drew(b, c, then),
    ensures
        drew(a, c, first + then),
        drawn_since(a, c) == first + then,
{
    assert(a.draws() + (first + then) =~= a.draws() + first + then);
    assert((a.draws() + (first + then)).skip(a.draws().len() as int) =~= first + then);
}

/// What was drawn since `before` is what `drew` speaks of.
pub proof fn lemma_drawn_since(before: Dice, after: Dice, drawn: Seq<Draw>)
    requires
        drew(before, after, drawn),
    ensures
        drawn_since(before, after) == drawn,
{
    assert((before.draws() + drawn).skip(before.draws().len() as int) =~= drawn);
}

impl Dice {
    /// The seed that the generator was made from; none where the operating
    /// system seeded it.
    pub closed spec fn seed(&self) -> Option<u64> {
        self.seed@
    }

    /// The draws that were made from the generator, oldest first.
    pub closed spec fn draws(&self) -> Seq<Draw> {
        self.draws@
    }

    /// A generator that is determined by `seed`, with no draw made yet.
    pub fn seeded(seed: u64) -> (dice: Dice)
        ensures
            dice.seed() == Some(seed),
            dice.draws() == Seq::<Draw>::empty(),
    {
        Dice { rng: rng_from_seed(seed), seed: Ghost(Some(seed)), draws: Ghost(Seq::empty()) }
    }

    /// A generator seeded by the operating system, with no draw made yet;
    /// nothing where the operating system gives no random bytes.
    pub fn from_entropy() -> (dice: Option<Dice>)
        ensures
            dice matches Some(d) ==> d.seed() is None && d.draws() == Seq::<Draw>::empty(),
    {
        match rng_from_os() {
            Some(rng) => Some(Dice { rng: rng, seed: Ghost(None), draws: Ghost(Seq::empty()) }),
            None => None,
        }
    }

    /// Draws a whole number between `low` and `high`, both included: one draw
    /// from the generator, whose value is the result.
    pub fn roll(&mut self, low: i64, high: i64) -> (value: i64)
        requires
            low <= high,
        ensures
            low <= value <= high,
            drew(*old(self), *final(self), seq![Draw { low: low, high: high, value: value }]),
    {
        let value: i64 = sample_inclusive(&mut self.rng, low, high);
        let ghost draw = Draw { low: low, high: high, value: value };
        self.draws = Ghost(self.draws@.push(draw));
        assert(old(self).draws() + seq![draw] =~= old(self).draws().push(draw));
        value
    }
}

/// The message of the error that `check_proba` gives for a negative
/// probability.
pub open spec fn negative_proba_error() -> Seq<char> {
    "Value can't be less than zero"@
}

/// The probability that a trial is run at: `proba` itself up to one, and a
/// larger value read as a percentage.
pub open spec fn trial_threshold(proba: int) -> int {
    normalized(proba)
}

/// Decides a probability trial from a draw in `[0, 1)`: the trial succeeds
/// where the draw lies below the probability. A probability above one is read
/// as a percentage first; a negative one is rejected.
pub fn proba_outcome(proba: i64, draw: i64) -> (res: Result<bool, String>)
    ensures
        proba >= 0 ==> res == Ok::<bool, String>(draw < trial_threshold(proba as int)),
        proba < 0 ==> res is Err && res->Err_0@ == negative_proba_error(),
{
    if proba < 0 {
        return Err(String::from_str("Value can't be less than zero"));
    }
    let threshold: i64 = if proba > UNIT {
        match normalize(proba) {
            Ok(p) => p,
            Err(_) => 0,
        }
    } else {
        proba
    };
    Ok(draw < threshold)
}

/// Whether `draw` is the draw of a probability trial: a millionth of
/// `[0, 1)`.
pub open spec fn is_trial(draw: Draw) -> bool {
    draw.low == 0 && draw.high == UNIT - 1 && 0 <= draw.value < UNIT
}

/// Runs a probability trial: makes one draw from `[0, 1)` and succeeds where
/// the draw lies below `proba`. So a probability of zero never succeeds and
/// one of one (or of a hundred percent and more) always does. A negative
/// probability is rejected, and nothing is drawn for it.
pub fn check_proba(rng: &mut Dice, proba: i64) -> (res: Result<bool, String>)
    ensures
        proba < 0 ==> res is Err && res->Err_0@ == negative_proba_error(),
        proba < 0 ==> drew(*old(rng), *final(rng), Seq::empty()),
        proba >= 0 ==> ({
            let draw = final(rng).draws().last();
            &&& drew(*old(rng), *final(rng), seq![draw])
            &&& is_trial(draw)
            &&& res == Ok::<bool, String>(draw.value < trial_threshold(proba as int))
        }),
{
    if proba < 0 {
        assert(rng.draws() + Seq::<Draw>::empty() =~= rng.draws());
        return proba_outcome(proba, 0);
    }
    let draw: i64 = rng.roll(0, UNIT - 1);
    proba_outcome(proba, draw)
}

/// Half the width of the range that `centred_rand` draws from: the centre
/// divided by the fraction, and where that is below one, rounded up to a whole
/// number: one for any centre above zero, zero for a centre of zero.
pub open spec fn half_range(central_value: int, fraction: int) -> int {
    let h = central_value * UNIT / fraction;
    if h >= UNIT || central_value == 0 {
        h
    } else {
        UNIT as int
    }
}

/// The draw that `centred_rand` makes for this centre and fraction, where
/// `value` is what came: from the centre less the half range to the centre
/// plus the half range, each end held to the range of `i64`.
pub open spec fn centred_draw(central_value: i64, fraction: i64, value: i64) -> Draw {
    let h = half_range(central_value as int, fraction as int);
    Draw {
        low: saturated(central_value - h) as i64,
        high: saturated(central_value + h) as i64,
        value: value,
    }
}

/// Computes the two ends of the range that `centred_rand` draws from.
pub fn centred_range(central_value: i64, fraction: i64) -> (range: (i64, i64))
    requires
        central_value >= 0,
        fraction > 0,
    ensures
        range.0 == saturated(central_value - half_range(central_value as int, fraction as int)),
        range.1 == saturated(central_value + half_range(central_value as int, fraction as int)),
        range.0 <= central_value <= range.1,
        half_range(central_value as int, fraction as int) >= 0,
{
    let scaled: u128 = (central_value as u128) * 1_000_000;
    let h: u128 = scaled / (fraction as u128);
    let half: i128 = if h >= 1_000_000 || central_value == 0 {
        h as i128
    } else {
        1_000_000
    };
    let low: i128 = (central_value as i128) - half;
    let high: i128 = (central_value as i128) + half;
    (
        if low < -0x8000_0000_0000_0000 {
            i64::MIN
        } else {
            low as i64
        },
        if high > 0x7fff_ffff_ffff_ffff {
            i64::MAX
        } else {
            high as i64
        },
    )
}

/// Draws a value around `central_value`: one draw from the generator,
/// anywhere from `central_value - h` to `central_value + h`, both ends
/// included, where `h` is `half_range(central_value, fraction)`: a smaller
/// fraction gives a wider range. An end of the range that no `i64` holds is
/// moved to the nearest that one does. The centre is not negative and the
/// fraction is positive.
pub fn centred_rand(rng: &mut Dice, central_value: i64, fraction: i64) -> (value: i64)
    requires
        central_value >= 0,
        fraction > 0,
    ensures
        central_value - half_range(central_value as int, fraction as int) <= value,
        value <= central_value + half_range(central_value as int, fraction as int),
        drew(*old(rng), *final(rng), seq![centred_draw(central_value, fraction, value)]),
{
    let range: (i64, i64) = centred_range(central_value, fraction);
    rng.roll(range.0, range.1)
}

/// Builds `StdRng` from a seed with `SeedableRng::seed_from_u64`, which
/// accepts every seed. Nothing is claimed of the generator that comes back.
#[verifier::external_body]
fn rng_from_seed(seed: u64) -> StdRng {
    rand::SeedableRng::seed_from_u64(seed)
}

/// Builds `StdRng` with `SeedableRng::from_rng` from `OsRng`, the random
/// bytes of the operating system. That function hands back the error of
/// `OsRng::try_fill_bytes` where the bytes cannot be had, and does not panic;
/// the error becomes `None` here. Nothing is claimed of the generator that
/// comes back, nor of when one does.
#[verifier::external_body]
fn rng_from_os() -> Option<StdRng> {
    match <StdRng as rand::SeedableRng>::from_rng(rand::rngs::OsRng) {
        Ok(rng) => Some(rng),
        Err(_) => None,
    }
}

/// Calls `Rng::gen_range` with the inclusive range `low..=high`. That function
/// panics on an empty range, which `requires` leaves out, and returns `low`
/// plus an offset that is at most `high - low`: a value of the range.
#[verifier::external_body]
fn sample_inclusive(rng: &mut StdRng, low: i64, high: i64) -> (value: i64)
    requires
        low <= high,
    ensures
        low <= value <= high,
{
    rand::Rng::gen_range(rng, low..=high)
}

} // verus!
