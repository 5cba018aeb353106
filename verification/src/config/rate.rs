//! Rates, held as the bits of IEEE-754 doubles.
use vstd::arithmetic::power2::pow2;
use vstd::prelude::*;

verus! {

/// The bits of 1000.
pub const DEFAULT_RATE_BITS: u64 = 0x408f_4000_0000_0000;

/// The bits of 1000000000.
pub const MAX_SAFETY_RATE_BITS: u64 = 0x41cd_cd65_0000_0000;

/// The bits of positive infinity; what lies above is no number.
pub const INFINITY_BITS: u64 = 0x7ff0_0000_0000_0000;

/// The bit that negative doubles have set.
pub const SIGN_BIT: u64 = 0x8000_0000_0000_0000;

/// A double, by its bits.
#[derive(Debug, Clone, Copy, PartialEq, Eq, Structural)]
pub struct Rate {
    pub bits: u64,
}

/// The value of a finite double that is not negative, in units of 2^-1074: the
/// fraction, with its leading one where the exponent is not 0, times a power of
/// two.
pub open spec fn units(bits: u64) -> nat {
    let fraction = bits as nat % 0x10_0000_0000_0000;
    let exponent = bits as nat / 0x10_0000_0000_0000;
    if exponent == 0 {
        fraction
    } else {
        (fraction + 0x10_0000_0000_0000) * pow2((exponent - 1) as nat)
    }
}

/// Among finite doubles that are not negative, the larger number has the larger
/// bits.
pub proof fn lemma_bits_order(a: u64, b: u64)
    requires
        a < b,
        b < INFINITY_BITS,
    ensures
        units(a) < units(b),
{
    let unit: nat = 0x10_0000_0000_0000;
    let fa = a as nat % unit;
    let ea = a as nat / unit;
    let fb = b as nat % unit;
    let eb = b as nat / unit;
    assert(a == ea * unit + fa && b == eb * unit + fb && fa < unit && fb < unit);
    assert(ea <= eb);
    if eb > 0 {
        vstd::arithmetic::power2::lemma_pow2_pos((eb - 1) as nat);
    }
    if ea == eb {
        if ea > 0 {
            let p = pow2((ea - 1) as nat);
            assert((fa + unit) * p < (fb + unit) * p) by (nonlinear_arith)
                requires
                    fa < fb,
                    p > 0,
            ;
        }
    } else {
        let p = pow2((eb - 1) as nat);
        assert((fb + unit) * p >= unit * p) by (nonlinear_arith)
            requires
                p > 0,
        ;
        if ea == 0 {
            assert(unit * p >= unit) by (nonlinear_arith)
                requires
                    p > 0,
                    unit == 0x10_0000_0000_0000,
            ;
        } else {
            let q = pow2((ea - 1) as nat);
            let d = (eb - ea) as nat;
            vstd::arithmetic::power2::lemma_pow2_adds((ea - 1) as nat, d);
            vstd::arithmetic::power2::lemma_pow2_pos((ea - 1) as nat);
            vstd::arithmetic::power2::lemma_pow2_pos((d - 1) as nat);
            vstd::arithmetic::power2::lemma_pow2_unfold(d);
            let r = pow2(d);
            assert(p == q * r);
            assert(r >= 2);
            assert((fa + unit) * q < unit * p) by (nonlinear_arith)
                requires
                    p == q * r,
                    r >= 2,
                    q > 0,
                    fa < unit,
            ;
        }
    }
}

impl Rate {
    /// Whether this is a number above zero and not infinite.
    pub open spec fn is_positive(self) -> bool {
        0 < self.bits < INFINITY_BITS
    }

    /// Whether this is a number above zero and not infinite. Negative doubles have
    /// their highest bit set.
    pub fn positive(self) -> (r: bool)
        ensures
            r == self.is_positive(),
    {
        self.bits > 0 && self.bits < INFINITY_BITS
    }

    /// Whether a positive rate is larger than another.
    pub open spec fn above(self, other: Rate) -> bool {
        units(self.bits) > units(other.bits)
    }

    /// Whether a positive rate is larger than another.
    pub fn exceeds(self, other: Rate) -> (r: bool)
        requires
            self.is_positive(),
            other.is_positive(),
        ensures
            r == self.above(other),
    {
        proof {
            if self.bits < other.bits {
                lemma_bits_order(self.bits, other.bits);
            } else if other.bits < self.bits {
                lemma_bits_order(other.bits, self.bits);
            }
        }
        self.bits > other.bits
    }

    /// Whether a positive rate is larger than any double: not than an infinite one, nor
    /// than what is no number, but than every negative one.
    pub open spec fn greater(self, other: Rate) -> bool {
        if other.bits >= SIGN_BIT {
            other.bits - SIGN_BIT <= INFINITY_BITS
        } else if other.bits >= INFINITY_BITS {
            false
        } else {
            self.above(other)
        }
    }

    /// Whether a positive rate is larger than any double.
    pub fn is_greater(self, other: Rate) -> (r: bool)
        requires
            self.is_positive(),
        ensures
            r == self.greater(other),
    {
        if other.bits >= SIGN_BIT {
            return other.bits - SIGN_BIT <= INFINITY_BITS;
        }
        if other.bits >= INFINITY_BITS {
            return false;
        }
        proof {
            if self.bits < other.bits {
                lemma_bits_order(self.bits, other.bits);
            } else if other.bits < self.bits {
                lemma_bits_order(other.bits, self.bits);
            }
        }
        self.bits > other.bits
    }
}

} // verus!
