//! Measured quantities, held by the bits of their floating-point form.

use vstd::prelude::*;

verus! {

/// Where the bits with a sign begin.
pub const SIGN_BIT: u64 = 0x8000_0000_0000_0000;

/// The bits of infinity: below lie the finite numbers, above lies what is no
/// number.
pub const INFINITY_BITS: u64 = 0x7FF0_0000_0000_0000;

/// A double-precision number by its bits, which order numbers of one sign as
/// their values do.
#[derive(Debug, Clone, Copy, PartialEq, Eq, Structural)]
pub struct Measure {
    pub bits: u64,
}

impl Measure {
    /// The bits without the sign.
    pub open spec fn magnitude(self) -> int {
        if self.bits < SIGN_BIT {
            self.bits as int
        } else {
            self.bits - SIGN_BIT
        }
    }

    /// A number, and no infinite one.
    pub open spec fn finite(self) -> bool {
        self.magnitude() < INFINITY_BITS
    }

    /// No number at all.
    pub open spec fn no_number(self) -> bool {
        self.magnitude() > INFINITY_BITS
    }

    /// The place of a number among the numbers.
    pub open spec fn rank(self) -> int {
        if self.bits < SIGN_BIT {
            self.magnitude()
        } else {
            -self.magnitude()
        }
    }

    /// Both are numbers, and the first is the smaller one.
    pub open spec fn less(self, other: Measure) -> bool {
        !self.no_number() && !other.no_number() && self.rank() < other.rank()
    }

    /// Both are numbers, and the first is not the greater one.
    pub open spec fn at_most(self, other: Measure) -> bool {
        !self.no_number() && !other.no_number() && self.rank() <= other.rank()
    }

    /// The quantity with the given bits.
    pub fn from_bits(bits: u64) -> (r: Measure)
        ensures
            r.bits == bits,
    {
        Measure { bits }
    }

    /// Zero.
    pub fn zero() -> (r: Measure)
        ensures
            r.bits == 0,
    {
        Measure { bits: 0 }
    }

    /// What stands for a quantity that was not measured: no number.
    pub fn unmeasured() -> (r: Measure)
        ensures
            r == not_measured(),
            r.no_number(),
    {
        Measure { bits: 0x7FF8_0000_0000_0000 }
    }

    /// The bits without the sign.
    fn without_sign(&self) -> (r: u64)
        ensures
            r == self.magnitude(),
    {
        if self.bits < SIGN_BIT {
            self.bits
        } else {
            self.bits - SIGN_BIT
        }
    }

    /// Whether this is a number, and no infinite one.
    pub fn is_finite(&self) -> (r: bool)
        ensures
            r == self.finite(),
    {
        self.without_sign() < INFINITY_BITS
    }

    /// Whether both are numbers, and the first is the smaller one.
    pub fn is_below(&self, other: Measure) -> (r: bool)
        ensures
            r == self.less(other),
    {
        let mine: u64 = self.without_sign();
        let theirs: u64 = other.without_sign();
        if mine > INFINITY_BITS || theirs > INFINITY_BITS {
            false
        } else if self.bits < SIGN_BIT {
            other.bits < SIGN_BIT && mine < theirs
        } else if other.bits < SIGN_BIT {
            mine > 0 || theirs > 0
        } else {
            theirs < mine
        }
    }

    /// Whether both are numbers, and the first is not the greater one.
    pub fn is_at_most(&self, other: Measure) -> (r: bool)
        ensures
            r == self.at_most(other),
    {
        let mine: u64 = self.without_sign();
        let theirs: u64 = other.without_sign();
        mine <= INFINITY_BITS && theirs <= INFINITY_BITS && !other.is_below(*self)
    }
}

/// What stands for a quantity that was not measured.
pub open spec fn not_measured() -> Measure {
    Measure { bits: 0x7FF8_0000_0000_0000 }
}

/// Numbers are ordered: of any two one is at most the other, and the order
/// carries on. What is no number is ordered with nothing.
pub proof fn measures_are_ordered(a: Measure, b: Measure, c: Measure)
    ensures
        !a.no_number() && !b.no_number() ==> a.at_most(b) || b.at_most(a),
        a.at_most(b) && b.at_most(c) ==> a.at_most(c),
        a.less(b) <==> !a.no_number() && !b.no_number() && !b.at_most(a),
        a.no_number() ==> !a.at_most(b) && !b.at_most(a),
{
}


/// A quantity with a sign lies below zero, one without above it, and both zeros
/// are the same; the further from zero, the further out.
pub proof fn a_sign_puts_a_measure_below_zero(a: Measure, b: Measure)
    requires
        !a.no_number(),
        !b.no_number(),
    ensures
        a.less(Measure { bits: 0 }) <==> a.bits > SIGN_BIT,
        (Measure { bits: 0 }).less(a) <==> 0 < a.bits < SIGN_BIT,
        a.bits < SIGN_BIT && b.bits < SIGN_BIT ==> (a.less(b) <==> a.bits < b.bits),
        a.bits > SIGN_BIT && b.bits > SIGN_BIT ==> (a.less(b) <==> b.bits < a.bits),
        (Measure { bits: SIGN_BIT }).at_most(Measure { bits: 0 }),
        (Measure { bits: 0 }).at_most(Measure { bits: SIGN_BIT }),
{
}

}
