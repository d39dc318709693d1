//! Double-precision numbers by their bit patterns: enough of them to compare.
//!
//! Seconds and frame rates are computed elsewhere, in hardware floating point. What is decided
//! about them here is only which of two is smaller, and that their IEEE 754 bit patterns tell.
use vstd::arithmetic::power2::{lemma_pow2_pos, lemma_pow2_unfold, pow2};
use vstd::prelude::*;

verus! {

/// The bit pattern of a binary64 number.
#[derive(Clone, Copy, Debug, PartialEq, Eq, Structural)]
pub struct Double {
    pub bits: u64,
}

/// The sign bit.
pub const SIGN: u64 = 0x8000_0000_0000_0000;

/// The bit pattern of 1.
pub const ONE_BITS: u64 = 0x3ff0_0000_0000_0000;

/// The bit pattern of positive infinity. Magnitudes above it are not numbers.
pub const INFINITY_BITS: u64 = 0x7ff0_0000_0000_0000;

impl Double {
    /// The bits without the sign.
    pub open spec fn magnitude(self) -> int {
        if self.bits >= SIGN {
            self.bits - SIGN
        } else {
            self.bits as int
        }
    }

    pub open spec fn is_nan(self) -> bool {
        self.magnitude() > INFINITY_BITS
    }

    /// Neither infinite nor not a number.
    pub open spec fn is_finite_spec(self) -> bool {
        self.magnitude() < INFINITY_BITS
    }

    /// The place of a number among the numbers. Both zeros have the place 0.
    pub open spec fn rank(self) -> int {
        if self.bits >= SIGN {
            -self.magnitude()
        } else {
            self.magnitude()
        }
    }

    /// Both are numbers and the first is smaller.
    pub open spec fn less(self, other: Double) -> bool {
        !self.is_nan() && !other.is_nan() && self.rank() < other.rank()
    }

    /// Both are numbers and the first is not larger.
    pub open spec fn at_most(self, other: Double) -> bool {
        !self.is_nan() && !other.is_nan() && self.rank() <= other.rank()
    }

    /// The smaller of two numbers, or the one that is a number.
    pub open spec fn minimum(self, other: Double) -> Double {
        if self.is_nan() {
            other
        } else if other.less(self) {
            other
        } else {
            self
        }
    }

    pub fn from_bits(bits: u64) -> (r: Double)
        ensures
            r.bits == bits,
    {
        Double { bits }
    }

    fn place(&self) -> (r: Option<i64>)
        ensures
            match r {
                Some(rank) => !self.is_nan() && rank == self.rank(),
                None => self.is_nan(),
            },
    {
        let negative = self.bits >= SIGN;
        let magnitude: u64 = if negative { self.bits - SIGN } else { self.bits };
        if magnitude > INFINITY_BITS {
            None
        } else if negative {
            Some(-(magnitude as i64))
        } else {
            Some(magnitude as i64)
        }
    }

    /// `self < other`.
    pub fn lt(&self, other: &Double) -> (r: bool)
        ensures
            r == self.less(*other),
    {
        match (self.place(), other.place()) {
            (Some(a), Some(b)) => a < b,
            _ => false,
        }
    }

    /// `self <= other`.
    pub fn le(&self, other: &Double) -> (r: bool)
        ensures
            r == self.at_most(*other),
    {
        match (self.place(), other.place()) {
            (Some(a), Some(b)) => a <= b,
            _ => false,
        }
    }

    /// `self.min(other)`. Of two zeros, whichever the receiver holds.
    pub fn min(&self, other: &Double) -> (r: Double)
        ensures
            r == self.minimum(*other),
    {
        match self.place() {
            None => *other,
            Some(_) => {
                if other.lt(self) {
                    *other
                } else {
                    *self
                }
            },
        }
    }

    pub fn is_finite(&self) -> (r: bool)
        ensures
            r == self.is_finite_spec(),
    {
        let magnitude: u64 = if self.bits >= SIGN { self.bits - SIGN } else { self.bits };
        magnitude < INFINITY_BITS
    }

    /// Smaller than zero.
    pub fn is_negative(&self) -> (r: bool)
        ensures
            r == self.less(Double { bits: 0 }),
    {
        self.lt(&Double { bits: 0 })
    }
}

/// What a magnitude is worth, in multiples of the smallest number above zero: by its fraction alone
/// where its exponent is zero, and otherwise by a power of two times one and its fraction.
pub open spec fn worth(magnitude: int) -> int {
    let exponent = magnitude / 0x10_0000_0000_0000;
    let fraction = magnitude % 0x10_0000_0000_0000;
    if exponent == 0 {
        fraction
    } else {
        (0x10_0000_0000_0000 + fraction) * pow2((exponent - 1) as nat)
    }
}

/// What a number is worth, in multiples of the smallest number above zero. The two infinities count
/// as the next number beyond the largest one.
pub open spec fn worth_of(d: Double) -> int {
    if d.bits >= 0x8000_0000_0000_0000 {
        -worth(d.bits - 0x8000_0000_0000_0000)
    } else {
        worth(d.bits as int)
    }
}

/// Numbers are compared by what they are worth, and the smaller one is the minimum. A bit pattern is
/// no number if and only if its exponent is the largest and its fraction is not zero.
pub proof fn law_numbers_compare_by_worth(a: Double, b: Double)
    ensures
        a.is_nan() <==> {
            let magnitude = a.bits as int % 0x8000_0000_0000_0000;
            magnitude / 0x10_0000_0000_0000 == 0x7ff && magnitude % 0x10_0000_0000_0000 != 0
        },
        a.is_finite_spec() <==> (a.bits as int % 0x8000_0000_0000_0000) / 0x10_0000_0000_0000
            != 0x7ff,
        !a.is_nan() && !b.is_nan() ==> {
            &&& a.less(b) <==> worth_of(a) < worth_of(b)
            &&& a.at_most(b) <==> worth_of(a) <= worth_of(b)
            &&& a.rank() <= b.rank() <==> worth_of(a) <= worth_of(b)
            &&& a.minimum(b) == a || a.minimum(b) == b
            &&& worth_of(a.minimum(b)) <= worth_of(a)
            &&& worth_of(a.minimum(b)) <= worth_of(b)
        },
        a.is_nan() ==> a.minimum(b) == b && !a.less(b) && !b.less(a) && !a.at_most(b)
            && !b.at_most(a),
        b.is_nan() && !a.is_nan() ==> a.minimum(b) == a,
{
    let x = a.magnitude();
    let y = b.magnitude();
    assert(x == a.bits as int % 0x8000_0000_0000_0000);
    lemma_worth_grows(0, x);
    lemma_worth_grows(0, y);
    if x < y {
        lemma_worth_grows(x, y);
    } else if y < x {
        lemma_worth_grows(y, x);
    }
    assert(worth(0) == 0);
}

proof fn lemma_worth_grows(x: int, y: int)
    requires
        0 <= x <= y,
    ensures
        x < y ==> worth(x) < worth(y),
        worth(x) <= worth(y),
    decreases y - x,
{
    if x < y {
        lemma_worth_grows(x, y - 1);
        lemma_next_worth(y - 1);
    }
}

proof fn lemma_next_worth(x: int)
    requires
        0 <= x,
    ensures
        worth(x) < worth(x + 1),
{
    let unit: int = 0x10_0000_0000_0000;
    let e = x / unit;
    let f = x % unit;
    if e > 0 {
        lemma_pow2_pos((e - 1) as nat);
    }
    lemma_pow2_pos(e as nat);
    if f + 1 < unit {
        assert((x + 1) / unit == e && (x + 1) % unit == f + 1);
        if e > 0 {
            let p = pow2((e - 1) as nat) as int;
            assert((unit + f) * p < (unit + f + 1) * p) by (nonlinear_arith)
                requires
                    p > 0,
            ;
        }
    } else {
        assert((x + 1) / unit == e + 1 && (x + 1) % unit == 0);
        if e > 0 {
            lemma_pow2_unfold(e as nat);
            let p = pow2((e - 1) as nat) as int;
            assert((unit + f) * p < unit * (2 * p)) by (nonlinear_arith)
                requires
                    p > 0,
                    f < unit,
            ;
        } else {
            vstd::arithmetic::power2::lemma2_to64();
        }
    }
}

/// Of two numbers exactly one is smaller, unless they have the same place; nothing compares with
/// what is not a number.
pub proof fn law_double_order(a: Double, b: Double, c: Double)
    ensures
        !(a.less(b) && b.less(a)),
        a.less(b) && b.less(c) ==> a.less(c),
        a.is_nan() || b.is_nan() ==> !a.less(b) && !a.at_most(b),
        !a.is_nan() && !b.is_nan() ==> (a.at_most(b) <==> !b.less(a)),
{
}

} // verus!
