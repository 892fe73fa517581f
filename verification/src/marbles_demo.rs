//! The marble experiment: a bag holds the same number of red and green
//! marbles, two are drawn without putting the first back, and the demo
//! counts how often the two have the same colour.

use vstd::prelude::*;
use crate::random::{generate_random_ints, RandomError};

verus! {

/// Options of the marble demo.
#[derive(Debug, Clone, Copy, PartialEq, Eq, Structural)]
pub struct MarblesDemoOpts {
    /// The number of marbles of each colour in the bag.
    pub color_count: u32,
    /// How many two-marble draws to make.
    pub trial_count: u32,
    pub dark_mode: bool,
}

/// The colour of a marble.
#[derive(Debug, Clone, Copy, PartialEq, Eq, Hash, Structural)]
pub enum RedGreen {
    Red,
    Green,
}

/// The colour that the random word `rand` picks from a bag of `total_red`
/// red and `total_green` green marbles: its remainder modulo the number of
/// marbles numbers a marble, the red ones first.
pub open spec fn draw_color(rand: u32, total_red: u32, total_green: u32) -> RedGreen {
    if (rand as int) % (total_red + total_green) < total_red {
        RedGreen::Red
    } else {
        RedGreen::Green
    }
}

/// The colours of the two marbles drawn by `rand_1` and `rand_2` from a bag
/// of `count_per_color` marbles of each colour, without putting the first
/// one back.
pub open spec fn marble_trial(rand_1: u32, rand_2: u32, count_per_color: u32) -> (
    RedGreen,
    RedGreen,
) {
    let first = draw_color(rand_1, count_per_color, count_per_color);
    let second = if first == RedGreen::Red {
        draw_color(rand_2, (count_per_color - 1) as u32, count_per_color)
    } else {
        draw_color(rand_2, count_per_color, (count_per_color - 1) as u32)
    };
    (first, second)
}

/// A bag with this many marbles of each colour allows two draws, and its
/// marbles can be counted in a `u32`.
pub open spec fn can_draw_two(count_per_color: u32) -> bool {
    1 <= count_per_color && count_per_color + count_per_color <= u32::MAX
}

impl RedGreen {
    /// The colour that `rand` picks from a bag of `total_red` red and
    /// `total_green` green marbles.
    pub fn from_random(rand: u32, total_red: u32, total_green: u32) -> (c: Self)
        requires
            0 < total_red + total_green <= u32::MAX,
        ensures
            c == draw_color(rand, total_red, total_green),
            (c == RedGreen::Red) == ((rand as int) % (total_red + total_green) < total_red),
    {
        let mod_rand = rand % (total_red + total_green);
        if mod_rand < total_red {
            RedGreen::Red
        } else {
            RedGreen::Green
        }
    }
}

/// The first marble is the one that the first word's remainder modulo the
/// whole bag of `2c` marbles numbers, red ones first. The second is picked
/// from the `2c - 1` marbles left by the second word's own remainder modulo
/// `2c - 1`: it is red exactly when that remainder is below the number of
/// red marbles left, `c - 1` after a red first marble and `c` after a green
/// one. So adding `2c - 1` to the second word never changes the trial.
pub proof fn second_marble_from_remaining_bag(rand_1: u32, rand_2: u32, c: u32)
    requires
        can_draw_two(c),
    ensures
        (marble_trial(rand_1, rand_2, c).0 == RedGreen::Red) == ((rand_1 as int) % (2 * c) < c),
        (marble_trial(rand_1, rand_2, c).1 == RedGreen::Red) == ((rand_2 as int) % (2 * c - 1)
            < if marble_trial(rand_1, rand_2, c).0 == RedGreen::Red {
            c - 1
        } else {
            c as int
        }),
        rand_2 + (2 * c - 1) <= u32::MAX ==> marble_trial(
            rand_1,
            (rand_2 + (2 * c - 1)) as u32,
            c,
        ) == marble_trial(rand_1, rand_2, c),
{
    let m: int = 2 * c - 1;
    if rand_2 + m <= u32::MAX {
        vstd::arithmetic::div_mod::lemma_mod_add_multiples_vanish(rand_2 as int, m);
        assert(((rand_2 + m) as u32) as int == rand_2 + m);
    }
    assert((c - 1) as u32 + c == m);
    assert(c + (c - 1) as u32 == m);
}

/// One trial: the colours of two marbles drawn in turn, by `rand_1` and
/// `rand_2`, from a bag of `count_per_color` marbles of each colour.
pub fn single_marble_trial(rand_1: u32, rand_2: u32, count_per_color: u32) -> (r: (
    RedGreen,
    RedGreen,
))
    requires
        can_draw_two(count_per_color),
    ensures
        r == marble_trial(rand_1, rand_2, count_per_color),
        (r.0 == RedGreen::Red) == ((rand_1 as int) % (2 * count_per_color) < count_per_color),
        (r.1 == RedGreen::Red) == ((rand_2 as int) % (2 * count_per_color - 1) < if r.0
            == RedGreen::Red {
            count_per_color - 1
        } else {
            count_per_color as int
        }),
{
    proof {
        second_marble_from_remaining_bag(rand_1, rand_2, count_per_color);
    }
    let mut total_red = count_per_color;
    let mut total_green = count_per_color;
    let first = RedGreen::from_random(rand_1, total_red, total_green);
    match first {
        RedGreen::Red => total_red = total_red - 1,
        RedGreen::Green => total_green = total_green - 1,
    }
    let second = RedGreen::from_random(rand_2, total_red, total_green);
    (first, second)
}

/// Trial `j` drawn by the random words `rands`: it takes words `2 * j` and
/// `2 * j + 1`.
pub open spec fn trial_of(rands: Seq<u32>, count_per_color: u32, j: int) -> (RedGreen, RedGreen) {
    marble_trial(rands[2 * j], rands[2 * j + 1], count_per_color)
}

/// How many of the first `m` trials drawn by `rands` came out as `outcome`.
pub open spec fn count_outcome(
    rands: Seq<u32>,
    count_per_color: u32,
    outcome: (RedGreen, RedGreen),
    m: nat,
) -> nat
    decreases m,
{
    if m == 0 {
        0
    } else {
        count_outcome(rands, count_per_color, outcome, (m - 1) as nat) + if trial_of(
            rands,
            count_per_color,
            (m - 1) as int,
        ) == outcome {
            1nat
        } else {
            0nat
        }
    }
}

/// How often each pair of colours came out.
#[derive(Debug, Clone, Copy, PartialEq, Eq, Structural)]
pub struct MarbleTally {
    pub red_red: usize,
    pub red_green: usize,
    pub green_red: usize,
    pub green_green: usize,
}

/// `t` counts the outcomes of the first `m` trials drawn by `rands`.
pub open spec fn tallies(t: MarbleTally, rands: Seq<u32>, count_per_color: u32, m: nat) -> bool {
    &&& t.red_red == count_outcome(rands, count_per_color, (RedGreen::Red, RedGreen::Red), m)
    &&& t.red_green == count_outcome(rands, count_per_color, (RedGreen::Red, RedGreen::Green), m)
    &&& t.green_red == count_outcome(rands, count_per_color, (RedGreen::Green, RedGreen::Red), m)
    &&& t.green_green == count_outcome(
        rands,
        count_per_color,
        (RedGreen::Green, RedGreen::Green),
        m,
    )
}

/// Every trial has exactly one of the four outcomes, so the four counts add
/// up to the number of trials.
pub proof fn tally_counts_every_trial(rands: Seq<u32>, count_per_color: u32, m: nat)
    ensures
        count_outcome(rands, count_per_color, (RedGreen::Red, RedGreen::Red), m) + count_outcome(
            rands,
            count_per_color,
            (RedGreen::Red, RedGreen::Green),
            m,
        ) + count_outcome(rands, count_per_color, (RedGreen::Green, RedGreen::Red), m)
            + count_outcome(rands, count_per_color, (RedGreen::Green, RedGreen::Green), m) == m,
    decreases m,
{
    if m > 0 {
        tally_counts_every_trial(rands, count_per_color, (m - 1) as nat);
    }
}

/// With one marble of each colour, the second marble is always the other
/// colour, so no trial draws two marbles of the same colour.
pub proof fn one_of_each_never_matches(rands: Seq<u32>, m: nat)
    ensures
        count_outcome(rands, 1, (RedGreen::Red, RedGreen::Red), m) == 0,
        count_outcome(rands, 1, (RedGreen::Green, RedGreen::Green), m) == 0,
    decreases m,
{
    if m > 0 {
        one_of_each_never_matches(rands, (m - 1) as nat);
        let r1 = rands[2 * (m - 1)];
        let r2 = rands[2 * (m - 1) + 1];
        assert(r2 % 1 == 0);
        assert(r1 % 2 < 2);
    }
}

/// How many of the second words `0 .. m`, after the first word `rand_1`,
/// give a trial with `outcome`.
pub open spec fn count_second_draws(
    rand_1: u32,
    count_per_color: u32,
    outcome: (RedGreen, RedGreen),
    m: nat,
) -> nat
    decreases m,
{
    if m == 0 {
        0
    } else {
        count_second_draws(rand_1, count_per_color, outcome, (m - 1) as nat) + if marble_trial(
            rand_1,
            (m - 1) as u32,
            count_per_color,
        ) == outcome {
            1nat
        } else {
            0nat
        }
    }
}

/// How many pairs of words, the first among `0 .. m1` and the second among
/// `0 .. 2 * count_per_color - 1`, give a trial with `outcome`.
pub open spec fn count_period_draws(
    count_per_color: u32,
    outcome: (RedGreen, RedGreen),
    m1: nat,
) -> nat
    decreases m1,
{
    if m1 == 0 {
        0
    } else {
        count_period_draws(count_per_color, outcome, (m1 - 1) as nat) + count_second_draws(
            (m1 - 1) as u32,
            count_per_color,
            outcome,
            (2 * count_per_color - 1) as nat,
        )
    }
}

/// With the first word fixed, the second words `0 .. m` first give the
/// remaining red marbles, then the green ones.
proof fn lemma_second_draw_counts(rand_1: u32, c: u32, m: nat)
    requires
        can_draw_two(c),
        rand_1 < 2 * c,
        m <= 2 * c - 1,
    ensures
        ({
            let red_first = rand_1 < c;
            let t: nat = if red_first { (c - 1) as nat } else { c as nat };
            let reds: nat = if m <= t { m } else { t };
            let greens: nat = (m - reds) as nat;
            &&& count_second_draws(rand_1, c, (RedGreen::Red, RedGreen::Red), m) == if red_first {
                reds
            } else {
                0
            }
            &&& count_second_draws(rand_1, c, (RedGreen::Red, RedGreen::Green), m) == if red_first {
                greens
            } else {
                0
            }
            &&& count_second_draws(rand_1, c, (RedGreen::Green, RedGreen::Red), m) == if red_first {
                0
            } else {
                reds
            }
            &&& count_second_draws(rand_1, c, (RedGreen::Green, RedGreen::Green), m)
                == if red_first {
                0
            } else {
                greens
            }
        }),
    decreases m,
{
    if m > 0 {
        lemma_second_draw_counts(rand_1, c, (m - 1) as nat);
        let r2 = (m - 1) as u32;
        vstd::arithmetic::div_mod::lemma_small_mod(rand_1 as nat, (c + c) as nat);
        vstd::arithmetic::div_mod::lemma_small_mod(r2 as nat, (c + c - 1) as nat);
        assert((rand_1 as int) % (c + c) == rand_1);
        assert((r2 as int) % ((c - 1) as u32 + c) == r2);
        assert((r2 as int) % (c + (c - 1) as u32) == r2);
    }
}

/// Over the first words `0 .. m1` (at most one full period `2c`) the counts
/// grow by `c - 1` and `c` per red first marble, then by `c` and `c - 1` per
/// green one.
proof fn lemma_period_draw_counts(c: u32, m1: nat)
    requires
        can_draw_two(c),
        m1 <= 2 * c,
    ensures
        ({
            let a: nat = if m1 <= c { m1 } else { c as nat };
            let b: nat = (m1 - a) as nat;
            &&& count_period_draws(c, (RedGreen::Red, RedGreen::Red), m1) == a * (c - 1)
            &&& count_period_draws(c, (RedGreen::Red, RedGreen::Green), m1) == a * c
            &&& count_period_draws(c, (RedGreen::Green, RedGreen::Red), m1) == b * c
            &&& count_period_draws(c, (RedGreen::Green, RedGreen::Green), m1) == b * (c - 1)
        }),
    decreases m1,
{
    if m1 > 0 {
        let p = (m1 - 1) as nat;
        lemma_period_draw_counts(c, p);
        lemma_second_draw_counts(p as u32, c, (2 * c - 1) as nat);
        let a0: nat = if p <= c { p } else { c as nat };
        let b0: nat = (p - a0) as nat;
        let cm1: int = c - 1;
        let ci: int = c as int;
        assert((a0 + 1) * cm1 == a0 * cm1 + cm1) by (nonlinear_arith);
        assert((a0 + 1) * ci == a0 * ci + ci) by (nonlinear_arith);
        assert((b0 + 1) * cm1 == b0 * cm1 + cm1) by (nonlinear_arith);
        assert((b0 + 1) * ci == b0 * ci + ci) by (nonlinear_arith);
    }
}

/// Over one full period of both words, the first among `0 .. 2c` and the
/// second among `0 .. 2c - 1`, two marbles of the same colour come out
/// `c * (c - 1)` times for each colour and two different ones `c * c` times
/// for each order: the same colour turns up `(c - 1) / c` times as often as
/// different colours.
pub proof fn marble_counts_over_one_period(c: u32)
    requires
        can_draw_two(c),
    ensures
        count_period_draws(c, (RedGreen::Red, RedGreen::Red), (2 * c) as nat) == c * (c - 1),
        count_period_draws(c, (RedGreen::Green, RedGreen::Green), (2 * c) as nat) == c * (c - 1),
        count_period_draws(c, (RedGreen::Red, RedGreen::Green), (2 * c) as nat) == c * c,
        count_period_draws(c, (RedGreen::Green, RedGreen::Red), (2 * c) as nat) == c * c,
        (count_period_draws(c, (RedGreen::Red, RedGreen::Red), (2 * c) as nat)
            + count_period_draws(c, (RedGreen::Green, RedGreen::Green), (2 * c) as nat)) * c == (
        count_period_draws(c, (RedGreen::Red, RedGreen::Green), (2 * c) as nat)
            + count_period_draws(c, (RedGreen::Green, RedGreen::Red), (2 * c) as nat)) * (c - 1),
{
    lemma_period_draw_counts(c, (2 * c) as nat);
    let ci: int = c as int;
    assert((ci * (ci - 1) + ci * (ci - 1)) * ci == (ci * ci + ci * ci) * (ci - 1))
        by (nonlinear_arith);
}

/// Counts the outcomes of the trials drawn by consecutive pairs of `rands`;
/// a last unpaired word is left out.
pub fn tally_marble_trials(rands: &Vec<u32>, count_per_color: u32) -> (t: MarbleTally)
    requires
        rands.len() < 2 || can_draw_two(count_per_color),
    ensures
        tallies(t, rands@, count_per_color, (rands.len() / 2) as nat),
        t.red_red + t.red_green + t.green_red + t.green_green == rands.len() / 2,
{
    let m = rands.len() / 2;
    let mut t = MarbleTally { red_red: 0, red_green: 0, green_red: 0, green_green: 0 };
    let mut j: usize = 0;
    while j < m
        invariant
            m == rands.len() / 2,
            m == 0 || can_draw_two(count_per_color),
            j <= m,
            tallies(t, rands@, count_per_color, j as nat),
            t.red_red + t.red_green + t.green_red + t.green_green == j,
        decreases m - j,
    {
        let outcome = single_marble_trial(rands[2 * j], rands[2 * j + 1], count_per_color);
        match outcome {
            (RedGreen::Red, RedGreen::Red) => t.red_red = t.red_red + 1,
            (RedGreen::Red, RedGreen::Green) => t.red_green = t.red_green + 1,
            (RedGreen::Green, RedGreen::Red) => t.green_red = t.green_red + 1,
            (RedGreen::Green, RedGreen::Green) => t.green_green = t.green_green + 1,
        }
        j = j + 1;
    }
    t
}

/// Runs the demo's trials: draws `2 * trial_count` random words and counts
/// the outcomes of the trials they draw.
pub fn marbles_demo_trials(options: &MarblesDemoOpts) -> (r: Result<MarbleTally, RandomError>)
    requires
        options.trial_count * 8 <= usize::MAX,
        options.trial_count == 0 || can_draw_two(options.color_count),
    ensures
        r matches Ok(t) ==> {
            &&& exists|rands: Seq<u32>|
                rands.len() == 2 * options.trial_count && tallies(
                    t,
                    rands,
                    options.color_count,
                    options.trial_count as nat,
                )
            &&& t.red_red + t.red_green + t.green_red + t.green_green == options.trial_count
        },
        r is Err ==> r == Err::<MarbleTally, RandomError>(RandomError::SourceFailed),
        options.trial_count == 0 ==> r is Ok,
{
    let count = options.trial_count as usize * 2;
    let rands = generate_random_ints(count)?;
    let t = tally_marble_trials(&rands, options.color_count);
    proof {
        assert(rands.len() / 2 == options.trial_count);
    }
    Ok(t)
}

} // verus!
