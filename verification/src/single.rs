//! IEEE 754 single-precision numbers, held by their bit pattern.
//!
//! Sound levels, thresholds and output samples arrive here as bit patterns, so that every
//! comparison the bridge bases a decision on is an integer computation with a contract.

use vstd::arithmetic::power2::{
    lemma2_to64, lemma_pow2_adds, lemma_pow2_pos, lemma_pow2_unfold, pow2,
};
use vstd::prelude::*;

verus! {

/// Bit pattern of the sign.
pub const SIGN_BIT: u32 = 0x8000_0000;

/// Bit pattern of positive infinity; larger magnitudes are NaN.
pub const INFINITY_BITS: u32 = 0x7f80_0000;

/// A single-precision number, given by its bit pattern.
#[derive(Clone, Copy, PartialEq, Eq, Structural, Debug)]
pub struct Single {
    pub bits: u32,
}

/// Bit pattern of 0.0.
pub const ZERO: u32 = 0;

/// Bit pattern of 1.0.
pub const ONE: u32 = 0x3f80_0000;

/// Bit pattern of -1.0.
pub const MINUS_ONE: u32 = 0xbf80_0000;

impl Single {
    /// The bit pattern without its sign.
    pub open spec fn magnitude(self) -> int {
        if self.bits >= SIGN_BIT {
            self.bits - SIGN_BIT
        } else {
            self.bits as int
        }
    }

    /// Whether this is a NaN.
    pub open spec fn is_nan(self) -> bool {
        self.magnitude() > INFINITY_BITS
    }

    /// The place of a number among all numbers: a larger number has a larger rank, and the two
    /// zeros share one.
    pub open spec fn rank(self) -> int {
        if self.bits >= SIGN_BIT {
            -self.magnitude()
        } else {
            self.magnitude()
        }
    }

    /// Whether this number is less than `other`. A NaN is less than nothing, and nothing is less
    /// than a NaN.
    pub open spec fn below(self, other: Single) -> bool {
        &&& !self.is_nan()
        &&& !other.is_nan()
        &&& self.rank() < other.rank()
    }

    /// The number itself within `low` and `high`, the nearer limit outside; a NaN stays what it
    /// is.
    pub open spec fn clamped(self, low: Single, high: Single) -> Single {
        if self.below(low) {
            low
        } else if high.below(self) {
            high
        } else {
            self
        }
    }

    /// The larger of this number and `floor`, which is not a NaN; a NaN gives `floor`.
    pub open spec fn raised(self, floor: Single) -> Single {
        if self.is_nan() || self.below(floor) {
            floor
        } else {
            self
        }
    }

    /// Whether this is a NaN.
    pub fn nan(self) -> (r: bool)
        ensures
            r == self.is_nan(),
    {
        let magnitude: u32 = if self.bits >= SIGN_BIT {
            self.bits - SIGN_BIT
        } else {
            self.bits
        };
        magnitude > INFINITY_BITS
    }

    /// Whether this number is less than `other`.
    pub fn is_below(self, other: Single) -> (r: bool)
        ensures
            r == self.below(other),
    {
        if self.nan() || other.nan() {
            return false;
        }
        if self.bits >= SIGN_BIT {
            if other.bits >= SIGN_BIT {
                other.bits < self.bits
            } else {
                other.bits > 0 || self.bits > SIGN_BIT
            }
        } else {
            other.bits < SIGN_BIT && self.bits < other.bits
        }
    }

    /// Keeps the number within `low` and `high`.
    pub fn clamp(self, low: Single, high: Single) -> (r: Single)
        requires
            !low.is_nan(),
            !high.is_nan(),
            low.rank() <= high.rank(),
        ensures
            r == self.clamped(low, high),
    {
        if self.is_below(low) {
            low
        } else if high.is_below(self) {
            high
        } else {
            self
        }
    }

    /// The larger of this number and `floor`.
    pub fn at_least(self, floor: Single) -> (r: Single)
        requires
            !floor.is_nan(),
        ensures
            r == self.raised(floor),
    {
        if self.nan() || self.is_below(floor) {
            floor
        } else {
            self
        }
    }
}

/// The order is strict: nothing is below itself, no two numbers are below each other, and being
/// below is passed on.
pub proof fn law_below_is_a_strict_order(a: Single, b: Single, c: Single)
    ensures
        !a.below(a),
        a.below(b) ==> !b.below(a),
        a.below(b) && b.below(c) ==> a.below(c),
{
}

/// Of two numbers that are not NaN, one is below the other unless they are equal as numbers:
/// they share their bits, or both are a zero.
pub proof fn law_below_is_total(a: Single, b: Single)
    requires
        !a.is_nan(),
        !b.is_nan(),
    ensures
        a.below(b) || b.below(a) || a == b || (a.magnitude() == 0 && b.magnitude() == 0),
{
}

/// A clamped number lies within its limits, and clamping it again changes nothing.
pub proof fn law_clamped_stays_within(x: Single, low: Single, high: Single)
    requires
        !low.is_nan(),
        !high.is_nan(),
        low.rank() <= high.rank(),
    ensures
        !x.clamped(low, high).below(low),
        !high.below(x.clamped(low, high)),
        x.clamped(low, high).is_nan() == x.is_nan(),
        x.clamped(low, high).clamped(low, high) == x.clamped(low, high),
{
}

/// How many of the smallest number above zero, two to the power of -149, make up a number: its sign,
/// exponent and fraction read as single precision has them. What an infinity gives is more than any
/// finite number gives.
pub open spec fn units(x: Single) -> int {
    let rest = x.bits as int % 0x8000_0000;
    let exponent = rest / 0x80_0000;
    let fraction = rest % 0x80_0000;
    let size = if exponent == 0 {
        fraction
    } else {
        (0x80_0000 + fraction) * pow2((exponent - 1) as nat)
    };
    if x.bits >= 0x8000_0000 {
        -size
    } else {
        size
    }
}

/// How many units make up the number one.
pub open spec fn units_of_one() -> int {
    pow2(149) as int
}

/// How many units the last bit of a number with this exponent counts.
pub open spec fn last_bit(exponent: nat) -> int {
    pow2((exponent - 1) as nat) as int
}

/// The units of a number whose exponent is not the smallest one, beside those of one.
pub proof fn lemma_units(x: Single, exponent: nat, fraction: nat, scale: nat)
    requires
        1 <= exponent <= 149,
        fraction < 0x80_0000,
        x.bits as int % 0x8000_0000 == exponent * 0x80_0000 + fraction,
        scale == pow2((150 - exponent) as nat),
    ensures
        last_bit(exponent) > 0,
        units(x) == if x.bits >= 0x8000_0000 {
            -((0x80_0000 + fraction) * last_bit(exponent))
        } else {
            (0x80_0000 + fraction) * last_bit(exponent)
        },
        units_of_one() == scale * last_bit(exponent),
{
    lemma_pow2_pos((exponent - 1) as nat);
    lemma_pow2_adds((150 - exponent) as nat, (exponent - 1) as nat);
}

proof fn lemma_next_is_larger(rest: u32)
    requires
        rest < 0x7fff_ffff,
    ensures
        0 <= units(Single { bits: rest }) < units(Single { bits: (rest + 1) as u32 }),
{
    let exponent = rest as int / 0x80_0000;
    let fraction = rest as int % 0x80_0000;
    let power = if exponent == 0 {
        1
    } else {
        pow2((exponent - 1) as nat)
    };
    if exponent > 0 {
        lemma_pow2_pos((exponent - 1) as nat);
    }
    assert(power > 0);
    let next = (rest + 1) as int;
    if fraction + 1 < 0x80_0000 {
        assert(next / 0x80_0000 == exponent && next % 0x80_0000 == fraction + 1);
        assert((0x80_0000 + fraction) * power + power == (0x80_0000 + fraction + 1) * power)
            by (nonlinear_arith);
        assert(0 <= (0x80_0000 + fraction) * power) by (nonlinear_arith)
            requires
                fraction >= 0,
                power > 0,
        ;
    } else {
        assert(next / 0x80_0000 == exponent + 1 && next % 0x80_0000 == 0);
        if exponent == 0 {
            lemma2_to64();
        } else {
            lemma_pow2_unfold(exponent as nat);
            assert(pow2(exponent as nat) == 2 * power);
            assert((0x80_0000 + fraction) * power < 0x80_0000 * (2 * power)) by (nonlinear_arith)
                requires
                    fraction == 0x7f_ffff,
                    power > 0,
            ;
            assert(0 <= (0x80_0000 + fraction) * power) by (nonlinear_arith)
                requires
                    fraction >= 0,
                    power > 0,
            ;
        }
    }
}

proof fn lemma_more_is_larger(rest: u32, other: u32)
    requires
        rest < other,
        other <= 0x7fff_ffff,
    ensures
        0 <= units(Single { bits: rest }) < units(Single { bits: other }),
    decreases other - rest,
{
    lemma_next_is_larger(rest);
    if rest + 1 < other {
        lemma_more_is_larger((rest + 1) as u32, other);
    }
}

/// A pattern is a NaN exactly if its exponent is the largest and its fraction is not zero, and a
/// NaN is neither below anything nor above anything.
pub proof fn law_nan_has_no_place(x: Single, y: Single)
    ensures
        x.is_nan() == (x.bits as int % 0x8000_0000 > 0x7f80_0000),
        x.is_nan() ==> !x.below(y) && !y.below(x),
{
}

/// Numbers are ordered by what they stand for.
pub proof fn law_order_is_that_of_the_values(x: Single, y: Single)
    requires
        x.bits as int % 0x8000_0000 <= 0x7f80_0000,
        y.bits as int % 0x8000_0000 <= 0x7f80_0000,
    ensures
        x.below(y) == (units(x) < units(y)),
{
    let rest_x = (x.bits as int % 0x8000_0000) as u32;
    let rest_y = (y.bits as int % 0x8000_0000) as u32;
    let plain_x = Single { bits: rest_x };
    let plain_y = Single { bits: rest_y };
    if rest_x < rest_y {
        lemma_more_is_larger(rest_x, rest_y);
    } else if rest_y < rest_x {
        lemma_more_is_larger(rest_y, rest_x);
    }
    if rest_x > 0 {
        lemma_more_is_larger(0, rest_x);
    }
    if rest_y > 0 {
        lemma_more_is_larger(0, rest_y);
    }
    assert(units(x) == units(plain_x) || units(x) == -units(plain_x));
    assert(units(y) == units(plain_y) || units(y) == -units(plain_y));
}

/// Clamping leaves a number within its limits and a NaN as they are, bit for bit, and gives the
/// limit that a number is beyond.
pub proof fn law_clamping_changes_only_what_is_outside(x: Single, low: Single, high: Single)
    requires
        !low.is_nan(),
        !high.is_nan(),
        !high.below(low),
    ensures
        x.is_nan() ==> x.clamped(low, high) == x,
        !x.below(low) && !high.below(x) ==> x.clamped(low, high) == x,
        x.below(low) ==> x.clamped(low, high) == low,
        high.below(x) ==> x.clamped(low, high) == high,
{
}

/// Raising a number to a floor gives the larger of both: the number itself, bit for bit, unless it
/// is below the floor or a NaN.
pub proof fn law_raising_gives_the_larger(x: Single, floor: Single)
    requires
        !floor.is_nan(),
    ensures
        !x.is_nan() && !x.below(floor) ==> x.raised(floor) == x,
        x.is_nan() || x.below(floor) ==> x.raised(floor) == floor,
        !x.raised(floor).below(x),
        !x.raised(floor).below(floor),
{
}

/// The named patterns stand for zero, one and minus one.
pub proof fn law_named_numbers()
    ensures
        units(Single { bits: ZERO }) == 0,
        units(Single { bits: ONE }) == units_of_one(),
        units(Single { bits: MINUS_ONE }) == -units_of_one(),
{
    lemma2_to64();
    lemma_units(Single { bits: ONE }, 127, 0, 0x80_0000);
    lemma_units(Single { bits: MINUS_ONE }, 127, 0, 0x80_0000);
}

} // verus!
