//! Exact rational scalars for intersection distances along a ray.
//! A distance is kept as numerator over positive denominator and is only
//! ever compared by cross multiplication, so the slab and plane tests
//! decide every comparison exactly.

use vstd::prelude::*;

verus! {

/// Bound on numerator magnitude and denominator, 2^63: cross products of
/// two well-formed rationals always fit an i128.
pub const RAT_MAX: i128 = 0x8000_0000_0000_0000;

#[derive(Clone, Copy, Debug, PartialEq, Eq, Structural)]
pub struct Rat {
    pub num: i128,
    pub den: i128,
}

/// Well-formed: positive bounded denominator, bounded numerator.
pub open spec fn r_wf(a: Rat) -> bool {
    &&& 0 < a.den <= RAT_MAX as int
    &&& -(RAT_MAX as int) <= a.num <= RAT_MAX as int
}

/// `a <= b` as rationals, by cross multiplication.
pub open spec fn r_le(a: Rat, b: Rat) -> bool {
    a.num * b.den <= b.num * a.den
}

/// `a < b` as rationals.
pub open spec fn r_lt(a: Rat, b: Rat) -> bool {
    a.num * b.den < b.num * a.den
}

/// `a == b` as rationals.
pub open spec fn r_eq(a: Rat, b: Rat) -> bool {
    a.num * b.den == b.num * a.den
}

proof fn lemma_cross_bound(a: Rat, b: Rat)
    by (nonlinear_arith)
    requires
        r_wf(a),
        r_wf(b),
    ensures
        -(RAT_MAX as int * RAT_MAX as int) <= a.num * b.den <= RAT_MAX as int * RAT_MAX as int,
        -(RAT_MAX as int * RAT_MAX as int) <= b.num * a.den <= RAT_MAX as int * RAT_MAX as int,
{
}

impl Rat {
    /// Build a rational from a signed numerator and a nonzero signed
    /// denominator, moving the sign into the numerator.
    pub fn new(num: i128, den: i128) -> (r: Rat)
        requires
            -RAT_MAX <= num <= RAT_MAX,
            -RAT_MAX <= den <= RAT_MAX,
            den != 0,
        ensures
            r_wf(r),
            den > 0 ==> r.num == num && r.den == den,
            den < 0 ==> r.num == -num && r.den == -den,
    {
        if den > 0 {
            Rat { num, den }
        } else {
            Rat { num: -num, den: -den }
        }
    }

    /// A whole number of SCALE steps, i.e. the fixed-point value `v`.
    pub fn from_fixed(v: i64) -> (r: Rat)
        ensures
            r_wf(r),
            r.num == v as int,
            r.den == crate::fixed::SCALE as int,
    {
        Rat { num: v as i128, den: crate::fixed::SCALE as i128 }
    }

    pub fn le(&self, o: &Rat) -> (r: bool)
        requires
            r_wf(*self),
            r_wf(*o),
        ensures
            r == r_le(*self, *o),
    {
        proof {
            lemma_cross_bound(*self, *o);
        }
        self.num * o.den <= o.num * self.den
    }

    pub fn lt(&self, o: &Rat) -> (r: bool)
        requires
            r_wf(*self),
            r_wf(*o),
        ensures
            r == r_lt(*self, *o),
    {
        proof {
            lemma_cross_bound(*self, *o);
        }
        self.num * o.den < o.num * self.den
    }
}

/// Orders chain across a middle value: the comparison is transitive.
pub proof fn lemma_r_le_trans(a: Rat, b: Rat, c: Rat)
    by (nonlinear_arith)
    requires
        r_wf(a),
        r_wf(b),
        r_wf(c),
        r_le(a, b),
        r_le(b, c),
    ensures
        r_le(a, c),
{
}

} // verus!
