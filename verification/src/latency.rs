//! The latency model: distributions of delivery delay and the rules that
//! pick one for a pair of pools.

use vstd::prelude::*;
use crate::jiffy::Jiffies;
use crate::random::mix;
use crate::random::next_state;
use crate::random::Randomizer;

verus! {

/// A distribution of delays.
#[derive(Clone, Copy, Debug, PartialEq, Eq, Structural)]
pub enum Distributions {
    /// Always the given delay.
    Constant(Jiffies),
    /// Every delay from the first to the second, both included, equally
    /// likely.
    Uniform(Jiffies, Jiffies),
    /// Bell-shaped round the mean (first) with the given standard deviation
    /// (second), never below 1.
    Normal(Jiffies, Jiffies),
}

/// How often a normal sample is drawn again when it comes out below 1.
pub const NORMAL_REDRAWS: usize = 8;

/// The scale of the fixed-point arithmetic of normal samples: 2^16.
pub const UNIT: u64 = 65536;

/// The mean of the sum of twelve 16-bit numbers.
pub const TWELVE_MEAN: i128 = 393210;

/// The sum of the four 16-bit parts of a draw.
pub open spec fn chunk_sum(d: u64) -> int {
    (d % 65536) + ((d / 65536) % 65536) + ((d / 4294967296) % 65536) + (d / 281474976710656)
}

/// A delay between `lo` and `hi` picked by `draw`.
pub open spec fn uniform_value(lo: usize, hi: usize, draw: u64) -> int {
    lo + (draw as int) % (hi - lo + 1)
}

/// A normal sample in units of 1/65536 jiffy, plus one half for rounding.
/// `sum` is a sum of twelve 16-bit numbers, whose distribution is close to
/// normal with standard deviation 65536.
pub open spec fn normal_numerator(mean: usize, stddev: usize, sum: int) -> int {
    mean * 65536 + stddev * (sum - 393210) + 32768
}

/// The numerator that the three draws after `state` give.
#[verifier::opaque]
pub open spec fn normal_attempt(mean: usize, stddev: usize, state: u64) -> int {
    let s1 = next_state(state);
    let s2 = next_state(s1);
    let s3 = next_state(s2);
    normal_numerator(mean, stddev, chunk_sum(mix(s1)) + chunk_sum(mix(s2)) + chunk_sum(mix(s3)))
}

/// The jiffy count nearest to `numerator / 65536`, capped at the largest
/// `usize`.
pub open spec fn rounded(numerator: int) -> usize {
    if numerator / 65536 > usize::MAX {
        usize::MAX
    } else {
        (numerator / 65536) as usize
    }
}

/// A normal sample with up to `tries` attempts, and the state of the random
/// source after it. An attempt that rounds to less than 1 is drawn again;
/// when no attempt is left the sample is 1.
pub open spec fn normal_sample(mean: usize, stddev: usize, state: u64, tries: nat) -> (usize, u64)
    decreases tries,
{
    if tries == 0 {
        (1, state)
    } else {
        let numerator = normal_attempt(mean, stddev, state);
        let after = next_state(next_state(next_state(state)));
        if numerator >= 65536 {
            (rounded(numerator), after)
        } else {
            normal_sample(mean, stddev, after, (tries - 1) as nat)
        }
    }
}

fn chunks(d: u64) -> (s: i128)
    ensures
        s == chunk_sum(d),
        0 <= s <= 4 * 65535,
{
    let a: u64 = d % 65536;
    let b: u64 = (d / 65536) % 65536;
    let c: u64 = (d / 4294967296) % 65536;
    let e: u64 = d / 281474976710656;
    (a as i128) + (b as i128) + (c as i128) + (e as i128)
}

fn numerator_of(mean: usize, stddev: usize, sum: i128) -> (n: i128)
    requires
        0 <= sum <= 12 * 65535,
    ensures
        n == normal_numerator(mean, stddev, sum as int),
{
    let centered: i128 = sum - TWELVE_MEAN;
    let spread: i128 = stddev as i128;
    assert(-39321000000000000000000000 <= spread * centered <= 39321000000000000000000000)
        by (nonlinear_arith)
        requires
            0 <= spread <= 0xffff_ffff_ffff_ffff,
            -393210 <= centered <= 393210,
    ;
    (mean as i128) * 65536 + spread * centered + 32768
}

fn round_up(numerator: i128) -> (v: usize)
    requires
        numerator >= 65536,
    ensures
        v == rounded(numerator as int),
{
    let whole: i128 = numerator / 65536;
    if whole > usize::MAX as i128 {
        usize::MAX
    } else {
        whole as usize
    }
}

/// One attempt at a normal sample: three draws, and the rounded value
/// unless it is below 1.
fn normal_try(mean: usize, stddev: usize, rng: &mut Randomizer) -> (r: Option<usize>)
    ensures
        final(rng).spec_state() == next_state(next_state(next_state(old(rng).spec_state()))),
        r == (if normal_attempt(mean, stddev, old(rng).spec_state()) >= 65536 {
            Some(rounded(normal_attempt(mean, stddev, old(rng).spec_state())))
        } else {
            None
        }),
{
    reveal(normal_attempt);
    let d1 = rng.next_u64();
    let d2 = rng.next_u64();
    let d3 = rng.next_u64();
    let sum: i128 = chunks(d1) + chunks(d2) + chunks(d3);
    let numerator = numerator_of(mean, stddev, sum);
    if numerator >= 65536 {
        Some(round_up(numerator))
    } else {
        None
    }
}

/// A normal sample: attempts until one is at least 1 or none is left.
fn normal_draw(mean: usize, stddev: usize, rng: &mut Randomizer) -> (v: usize)
    ensures
        (v, final(rng).spec_state()) == normal_sample(
            mean,
            stddev,
            old(rng).spec_state(),
            NORMAL_REDRAWS as nat,
        ),
{
    let mut left: usize = NORMAL_REDRAWS;
    let ghost start = rng.spec_state();
    while left > 0
        invariant
            start == old(rng).spec_state(),
            normal_sample(mean, stddev, rng.spec_state(), left as nat) == normal_sample(
                mean,
                stddev,
                start,
                NORMAL_REDRAWS as nat,
            ),
        decreases left,
    {
        let ghost before = rng.spec_state();
        let attempt = normal_try(mean, stddev, rng);
        assert(normal_sample(mean, stddev, before, left as nat) == (if normal_attempt(
            mean,
            stddev,
            before,
        ) >= 65536 {
            (rounded(normal_attempt(mean, stddev, before)), rng.spec_state())
        } else {
            normal_sample(mean, stddev, rng.spec_state(), (left - 1) as nat)
        }));
        match attempt {
            Some(v) => {
                return v;
            },
            None => {},
        }
        left = left - 1;
    }
    1
}

impl Distributions {
    /// A uniform distribution has its bounds in order and spans less than
    /// the whole range of `usize`.
    pub open spec fn valid(self) -> bool {
        match self {
            Distributions::Uniform(lo, hi) => lo.0 <= hi.0 && hi.0 - lo.0 < usize::MAX,
            _ => true,
        }
    }

    /// Whether the distribution is one that can be sampled.
    pub fn is_valid(&self) -> (b: bool)
        ensures
            b == self.valid(),
    {
        match self {
            Distributions::Uniform(lo, hi) => lo.0 <= hi.0 && hi.0 - lo.0 < usize::MAX,
            _ => true,
        }
    }

    /// The sample that a random source in `state` gives, and its state
    /// after the draws.
    pub open spec fn spec_sample(self, state: u64) -> (Jiffies, u64) {
        match self {
            Distributions::Constant(k) => (k, state),
            Distributions::Uniform(lo, hi) => (
                Jiffies(uniform_value(lo.0, hi.0, mix(next_state(state))) as usize),
                next_state(state),
            ),
            Distributions::Normal(mean, stddev) => {
                let (v, after) = normal_sample(mean.0, stddev.0, state, NORMAL_REDRAWS as nat);
                (Jiffies(v), after)
            },
        }
    }

    /// Draws a delay from the distribution.
    pub fn sample(&self, rng: &mut Randomizer) -> (r: Jiffies)
        requires
            self.valid(),
        ensures
            (r, final(rng).spec_state()) == self.spec_sample(old(rng).spec_state()),
    {
        match self {
            Distributions::Constant(k) => *k,
            Distributions::Uniform(lo, hi) => {
                let span: usize = hi.0 - lo.0 + 1;
                let pick: u64 = rng.below(span as u64);
                Jiffies(lo.0 + (pick as usize))
            },
            Distributions::Normal(mean, stddev) => {
                Jiffies(normal_draw(mean.0, stddev.0, rng))
            },
        }
    }
}

} // verus!
