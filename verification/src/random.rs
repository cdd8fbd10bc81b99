//! The random stream: the generator of the `rand_xoshiro` crate behind two
//! trusted calls, and what the simulation makes of a draw.
//!
//! The generator is deterministic. What is trusted of it is no more than
//! that: the state after seeding is a function of the seed, and a draw and
//! the state it leaves are functions of the state before.

use vstd::prelude::*;
use rand::Rng;
use rand_xoshiro::rand_core::SeedableRng;
use rand_xoshiro::Xoshiro256Plus;
use crate::angles::{abs_int, div_trunc};
use crate::consts::{DRAW_RANGE, TWO_PI};

verus! {

/// The generator `rand_xoshiro::Xoshiro256Plus`, as an opaque value.
#[verifier::external_type_specification]
#[verifier::external_body]
pub struct ExXoshiro256Plus(Xoshiro256Plus);

/// The state of a `Xoshiro256Plus`: the four words it holds.
pub uninterp spec fn rng_words(rng: Xoshiro256Plus) -> Seq<u64>;

/// The state words of the generator that `Xoshiro256Plus::seed_from_u64`
/// makes from `seed`.
pub uninterp spec fn seeded_words(seed: u64) -> Seq<u64>;

/// One draw of 32 bits from a `Xoshiro256Plus` in the state `words`: the
/// value that its `next_u32` hands out, and the state words it leaves.
pub uninterp spec fn xoshiro_step(words: Seq<u64>) -> (u32, Seq<u64>);

/// Calls `Xoshiro256Plus::seed_from_u64`, which fills the state from a
/// second generator run on the seed. Trusted: the state of the new generator
/// is a function of the seed alone.
#[verifier::external_body]
pub(crate) fn seed_generator(seed: u64) -> (rng: Xoshiro256Plus)
    ensures
        rng_words(rng) == seeded_words(seed),
{
    Xoshiro256Plus::seed_from_u64(seed)
}

/// Calls `Rng::gen::<u32>` on the generator, which hands the call on to its
/// `next_u32`. Trusted: the value handed out and the state left behind are
/// functions of the state before the call.
#[verifier::external_body]
pub(crate) fn next_draw(rng: &mut Xoshiro256Plus) -> (draw: u32)
    ensures
        draw == xoshiro_step(rng_words(*old(rng))).0,
        rng_words(*final(rng)) == xoshiro_step(rng_words(*old(rng))).1,
{
    rng.gen::<u32>()
}

/// The state words of a generator after `n` draws from the state `words`.
pub open spec fn words_after(words: Seq<u64>, n: nat) -> Seq<u64>
    decreases n,
{
    if n == 0 {
        words
    } else {
        xoshiro_step(words_after(words, (n - 1) as nat)).1
    }
}

/// The draw that a generator hands out after `n` earlier draws from the
/// state `words`.
pub open spec fn draw_at(words: Seq<u64>, n: nat) -> u32 {
    xoshiro_step(words_after(words, n)).0
}

/// The uniform fraction in `[0, 1)` that a draw stands for, as a count of
/// `DRAW_RANGE`-ths: its upper 24 bits.
pub open spec fn draw_fraction(draw: u32) -> int {
    draw as int / 256
}

/// The random turn that a draw adds to a heading: the fraction, less one
/// half, times the wander coefficient, rounded toward zero.
pub open spec fn wander_noise_spec(draw: u32, wander: i64) -> int {
    div_trunc((draw_fraction(draw) - DRAW_RANGE / 2) * wander, DRAW_RANGE as int)
}

/// The heading that a draw gives a new agent: the fraction of a full turn.
pub open spec fn initial_heading_spec(draw: u32) -> int {
    (draw_fraction(draw) * TWO_PI) / (DRAW_RANGE as int)
}

/// The noise is at most half the wander coefficient in magnitude.
pub proof fn lemma_wander_noise_bounds(draw: u32, wander: i64)
    ensures
        -abs_int(wander as int) <= 2 * wander_noise_spec(draw, wander) <= abs_int(wander as int),
        wander == 0 ==> wander_noise_spec(draw, wander) == 0,
{
    let f = draw_fraction(draw) - DRAW_RANGE / 2;
    let m = abs_int(wander as int);
    assert(-8_388_608 <= f < 8_388_608);
    assert(-(8_388_608 * m) <= f * wander <= 8_388_608 * m) by (nonlinear_arith)
        requires
            -8_388_608 <= f <= 8_388_608,
            m == if wander < 0 { -wander } else { wander as int },
    ;
    assert(wander == 0 ==> f * wander == 0) by (nonlinear_arith);
}

/// The random turn that a draw adds to a heading.
pub fn wander_noise(draw: u32, wander: i64) -> (noise: i64)
    ensures
        noise == wander_noise_spec(draw, wander),
        -abs_int(wander as int) <= 2 * noise <= abs_int(wander as int),
{
    proof {
        lemma_wander_noise_bounds(draw, wander);
    }
    let fraction: i128 = (draw / 256) as i128;
    let centred: i128 = fraction - (DRAW_RANGE as i128) / 2;
    assert(-8_388_608 <= centred < 8_388_608);
    assert(-0x4000_0000_0000_0000_0000_0000 <= centred * wander <= 0x4000_0000_0000_0000_0000_0000)
        by (nonlinear_arith)
        requires
            -8_388_608 <= centred < 8_388_608,
            -0x8000_0000_0000_0000 <= wander <= 0x8000_0000_0000_0000,
    ;
    let product: i128 = centred * (wander as i128);
    (product / (DRAW_RANGE as i128)) as i64
}

/// The heading that a draw gives a new agent, in `[0, TWO_PI)`.
pub fn initial_heading(draw: u32) -> (heading: i64)
    ensures
        heading == initial_heading_spec(draw),
        0 <= heading < TWO_PI,
{
    let fraction: i64 = (draw / 256) as i64;
    assert(0 <= fraction < 16_777_216);
    (fraction * TWO_PI) / DRAW_RANGE
}

} // verus!
