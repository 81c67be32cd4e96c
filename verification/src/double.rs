//! Floating-point numbers of double precision, held as their bit patterns.
//!
//! The library orders such numbers and hands them on. It never computes with
//! them: whoever calls it does the arithmetic and passes the results in.
use vstd::prelude::*;

verus! {

/// A number in IEEE 754 binary64 format: sign, 11 bits of exponent, 52 bits of
/// fraction.
#[derive(Debug, Clone, Copy)]
pub struct Double {
    pub bits: u64,
}

/// The bits of zero.
pub const ZERO: u64 = 0;

/// The bits of five.
pub const FIVE: u64 = 0x4014_0000_0000_0000;

/// The bits of nine.
pub const NINE: u64 = 0x4022_0000_0000_0000;

/// The bits of forty-five.
pub const FORTY_FIVE: u64 = 0x4046_8000_0000_0000;

/// The bits of ninety.
pub const NINETY: u64 = 0x4056_8000_0000_0000;

/// The bits of minus ninety.
pub const MINUS_NINETY: u64 = 0xc056_8000_0000_0000;

/// The bits of a hundred and eighty.
pub const HALF_TURN: u64 = 0x4066_8000_0000_0000;

/// The bits of minus a hundred and eighty.
pub const MINUS_HALF_TURN: u64 = 0xc066_8000_0000_0000;

/// The number with the given bits.
pub open spec fn dbl(bits: u64) -> Double {
    Double { bits }
}

/// The size of a number whose bits, sign apart, are `m`, in units of 2^-1074:
/// the smallest positive number of the format. Infinity counts as the number
/// that would follow the largest finite one.
pub open spec fn size_of_bits(m: int) -> int {
    let exponent = m / 0x10_0000_0000_0000;
    let fraction = m % 0x10_0000_0000_0000;
    if exponent == 0 {
        fraction
    } else {
        (0x10_0000_0000_0000 + fraction) * vstd::arithmetic::power2::pow2((exponent - 1) as nat)
    }
}

impl Double {
    /// The bits below the sign.
    pub open spec fn magnitude(self) -> int {
        self.bits as int % 0x8000_0000_0000_0000
    }

    /// Whether the sign bit is set.
    pub open spec fn negative(self) -> bool {
        self.bits >= 0x8000_0000_0000_0000
    }

    /// Whether this is no number.
    pub open spec fn is_nan(self) -> bool {
        self.magnitude() > 0x7ff0_0000_0000_0000
    }

    /// The value, in units of 2^-1074.
    pub open spec fn value(self) -> int {
        if self.negative() {
            -size_of_bits(self.magnitude())
        } else {
            size_of_bits(self.magnitude())
        }
    }

    /// Whether this is a whole number.
    pub open spec fn is_whole(self, n: int) -> bool {
        !self.is_nan() && self.value() == n * vstd::arithmetic::power2::pow2(1074)
    }

    /// `self <= other` as IEEE 754 defines it.
    pub open spec fn at_most(self, other: Double) -> bool {
        !self.is_nan() && !other.is_nan() && self.value() <= other.value()
    }

    /// `self < other` as IEEE 754 defines it.
    pub open spec fn below(self, other: Double) -> bool {
        !self.is_nan() && !other.is_nan() && self.value() < other.value()
    }

    /// `self == other` as IEEE 754 defines it.
    pub open spec fn equals(self, other: Double) -> bool {
        !self.is_nan() && !other.is_nan() && self.value() == other.value()
    }

    /// Sign and magnitude.
    fn parts(self) -> (r: (bool, u64))
        ensures
            r.0 == self.negative(),
            r.1 == self.magnitude(),
    {
        if self.bits >= 0x8000_0000_0000_0000 {
            (true, self.bits - 0x8000_0000_0000_0000)
        } else {
            (false, self.bits)
        }
    }

    /// Decides `self <= other`.
    pub fn le(self, other: Double) -> (r: bool)
        ensures
            r == self.at_most(other),
    {
        let (sn, sm) = self.parts();
        let (on, om) = other.parts();
        proof {
            lemma_size_orders(self.magnitude(), other.magnitude());
            lemma_size_orders(other.magnitude(), self.magnitude());
            lemma_size_orders(0, self.magnitude());
            lemma_size_orders(0, other.magnitude());
            lemma_size_orders(self.magnitude(), 0);
            lemma_size_orders(other.magnitude(), 0);
        }
        if sm > 0x7ff0_0000_0000_0000 || om > 0x7ff0_0000_0000_0000 {
            false
        } else if !sn && !on {
            sm <= om
        } else if sn && on {
            om <= sm
        } else if sn {
            true
        } else {
            sm == 0 && om == 0
        }
    }

    /// Decides `self < other`.
    pub fn lt(self, other: Double) -> (r: bool)
        ensures
            r == self.below(other),
    {
        let (sn, sm) = self.parts();
        let (on, om) = other.parts();
        if sm > 0x7ff0_0000_0000_0000 || om > 0x7ff0_0000_0000_0000 {
            false
        } else {
            !other.le(self)
        }
    }
}

impl PartialEq for Double {
    fn eq(&self, other: &Double) -> (r: bool) {
        self.le(*other) && other.le(*self)
    }
}

impl vstd::std_specs::cmp::PartialEqSpecImpl for Double {
    open spec fn obeys_eq_spec() -> bool {
        true
    }

    open spec fn eq_spec(&self, other: &Double) -> bool {
        self.equals(*other)
    }
}

/// Magnitudes are ordered as the numbers they stand for.
pub proof fn lemma_size_orders(a: int, b: int)
    requires
        0 <= a < 0x8000_0000_0000_0000,
        0 <= b < 0x8000_0000_0000_0000,
    ensures
        a < b ==> size_of_bits(a) < size_of_bits(b),
        a == b ==> size_of_bits(a) == size_of_bits(b),
        size_of_bits(0) == 0,
        size_of_bits(a) >= 0,
{
    let unit = 0x10_0000_0000_0000int;
    let ea = a / unit;
    let fa = a % unit;
    let eb = b / unit;
    let fb = b % unit;
    if ea > 0 {
        vstd::arithmetic::power2::lemma_pow2_pos((ea - 1) as nat);
        let p = vstd::arithmetic::power2::pow2((ea - 1) as nat) as int;
        assert((unit + fa) * p >= 0) by (nonlinear_arith)
            requires
                p > 0,
                fa >= 0,
                unit == 0x10_0000_0000_0000int,
        ;
    }
    if a < b {
        if ea == eb {
            if ea > 0 {
                let p = vstd::arithmetic::power2::pow2((ea - 1) as nat) as int;
                assert((unit + fa) * p < (unit + fb) * p) by (nonlinear_arith)
                    requires
                        p > 0,
                        fa < fb,
                ;
            }
        } else {
            assert(ea < eb);
            let q = vstd::arithmetic::power2::pow2((eb - 1) as nat) as int;
            vstd::arithmetic::power2::lemma_pow2_pos((eb - 1) as nat);
            assert(size_of_bits(b) >= unit * q) by {
                assert((unit + fb) * q >= unit * q) by (nonlinear_arith)
                    requires
                        q > 0,
                        fb >= 0,
                ;
            }
            if ea == 0 {
                assert(unit * q >= unit) by (nonlinear_arith)
                    requires
                        q > 0,
                        unit == 0x10_0000_0000_0000int,
                ;
            } else {
                let p = vstd::arithmetic::power2::pow2((ea - 1) as nat) as int;
                vstd::arithmetic::power2::lemma_pow2_unfold(ea as nat);
                if ea < eb - 1 {
                    vstd::arithmetic::power2::lemma_pow2_strictly_increases(
                        ea as nat,
                        (eb - 1) as nat,
                    );
                }
                assert((unit + fa) * p < unit * q) by (nonlinear_arith)
                    requires
                        p > 0,
                        0 <= fa < unit,
                        2 * p <= q,
                ;
            }
        }
    }
}

/// The constants are the numbers that they are named after.
pub proof fn law_constants()
    ensures
        dbl(ZERO).is_whole(0),
        dbl(FIVE).is_whole(5),
        dbl(NINE).is_whole(9),
        dbl(FORTY_FIVE).is_whole(45),
        dbl(NINETY).is_whole(90),
        dbl(MINUS_NINETY).is_whole(-90),
        dbl(HALF_TURN).is_whole(180),
        dbl(MINUS_HALF_TURN).is_whole(-180),
{
    lemma_pow2_near_fifty();
    lemma_scale(dbl(FIVE), 5, 1025, 0x4_0000_0000_0000, 50);
    lemma_scale(dbl(NINE), 9, 1026, 0x2_0000_0000_0000, 49);
    lemma_scale(dbl(FORTY_FIVE), 45, 1028, 0x6_8000_0000_0000, 47);
    lemma_scale(dbl(NINETY), 90, 1029, 0x6_8000_0000_0000, 46);
    lemma_scale(dbl(HALF_TURN), 180, 1030, 0x6_8000_0000_0000, 45);
    assert(dbl(MINUS_NINETY).magnitude() == dbl(NINETY).magnitude());
    assert(dbl(MINUS_HALF_TURN).magnitude() == dbl(HALF_TURN).magnitude());
}

/// Some powers of two.
pub proof fn lemma_pow2_near_fifty()
    ensures
        vstd::arithmetic::power2::pow2(43) == 0x800_0000_0000,
        vstd::arithmetic::power2::pow2(45) == 0x2000_0000_0000,
        vstd::arithmetic::power2::pow2(46) == 0x4000_0000_0000,
        vstd::arithmetic::power2::pow2(47) == 0x8000_0000_0000,
        vstd::arithmetic::power2::pow2(48) == 0x1_0000_0000_0000,
        vstd::arithmetic::power2::pow2(49) == 0x2_0000_0000_0000,
        vstd::arithmetic::power2::pow2(50) == 0x4_0000_0000_0000,
{
    vstd::arithmetic::power2::lemma2_to64();
    vstd::arithmetic::power2::lemma_pow2_adds(32, 11);
    vstd::arithmetic::power2::lemma_pow2_adds(32, 13);
    vstd::arithmetic::power2::lemma_pow2_adds(32, 14);
    vstd::arithmetic::power2::lemma_pow2_adds(32, 15);
    vstd::arithmetic::power2::lemma_pow2_adds(32, 16);
    vstd::arithmetic::power2::lemma_pow2_adds(32, 17);
    vstd::arithmetic::power2::lemma_pow2_adds(32, 18);
}

/// The value of a positive number with the given exponent and fraction.
pub proof fn lemma_scale(d: Double, n: int, exponent: nat, fraction: int, shift: nat)
    requires
        d.bits == exponent * 0x10_0000_0000_0000 + fraction,
        0 < exponent < 2047,
        0 <= fraction < 0x10_0000_0000_0000,
        0x10_0000_0000_0000 + fraction == n * vstd::arithmetic::power2::pow2(shift),
        shift + exponent - 1 == 1074,
    ensures
        d.is_whole(n),
{
    let e1 = (exponent - 1) as nat;
    vstd::arithmetic::power2::lemma_pow2_adds(shift, e1);
    let a = vstd::arithmetic::power2::pow2(shift) as int;
    let b = vstd::arithmetic::power2::pow2(e1) as int;
    assert((n * a) * b == n * (a * b)) by (nonlinear_arith);
}

/// Numbers are ordered by their values; what is no number is before, behind and equal to
/// nothing, not even itself. Zero has two forms of one value.
pub proof fn law_order(a: Double, b: Double, c: Double)
    ensures
        a.is_nan() || b.is_nan() ==> !a.at_most(b) && !a.below(b) && !a.equals(b),
        !a.is_nan() ==> a.at_most(a) && a.equals(a) && !a.below(a),
        !a.is_nan() && !b.is_nan() ==> a.at_most(b) || b.at_most(a),
        a.below(b) <==> !a.is_nan() && !b.is_nan() && !b.at_most(a),
        a.equals(b) <==> a.at_most(b) && b.at_most(a),
        a.at_most(b) && b.at_most(c) ==> a.at_most(c),
        dbl(0).equals(dbl(0x8000_0000_0000_0000)),
{
}

/// The value of a number is that of its bits: the sign apart, one more in the exponent
/// doubles it, and within an exponent equal steps in the fraction are equal steps in the
/// value. The other sign gives the negative number.
pub proof fn law_value_of_bits(m: u64)
    requires
        m < 0x7fe0_0000_0000_0000,
    ensures
        m >= 0x10_0000_0000_0000 ==> dbl((m + 0x10_0000_0000_0000) as u64).value() == 2 * dbl(
            m,
        ).value(),
        m % 0x10_0000_0000_0000 < 0x10_0000_0000_0000 - 2 ==> dbl((m + 2) as u64).value() - dbl(
            (m + 1) as u64,
        ).value() == dbl((m + 1) as u64).value() - dbl(m).value(),
        m < 0x10_0000_0000_0000 ==> dbl(m).value() == m,
        dbl((m + 0x8000_0000_0000_0000) as u64).value() == -dbl(m).value(),
        !dbl(m).is_nan(),
{
    let unit = 0x10_0000_0000_0000int;
    let e = m as int / unit;
    let f = m as int % unit;
    if m >= 0x10_0000_0000_0000 {
        assert((m + unit) / unit == e + 1 && (m + unit) % unit == f);
        vstd::arithmetic::power2::lemma_pow2_unfold(e as nat);
        let p = vstd::arithmetic::power2::pow2((e - 1) as nat) as int;
        assert((unit + f) * (2 * p) == 2 * ((unit + f) * p)) by (nonlinear_arith);
    }
    if f < unit - 2 {
        assert((m + 1) / unit == e && (m + 1) % unit == f + 1);
        assert((m + 2) / unit == e && (m + 2) % unit == f + 2);
        if e > 0 {
            let p = vstd::arithmetic::power2::pow2((e - 1) as nat) as int;
            assert((unit + (f + 2)) * p - (unit + (f + 1)) * p == (unit + (f + 1)) * p - (unit + f)
                * p) by (nonlinear_arith);
        }
    }
}

} // verus!
