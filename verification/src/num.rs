//! Capability traits for matrix elements, and implementations for the
//! unsigned machine integers with wrapping arithmetic.
//!
//! Each trait pairs an executable method with a spec-level function; the
//! method's contract says the two agree, so matrix contracts can speak of the
//! spec functions alone.

use vstd::prelude::*;

verus! {

/// Capability: the type has an additive identity.
pub trait Zero: Sized {
    /// The additive identity at the specification level.
    spec fn zero_spec() -> Self;

    /// Produce the additive identity.
    fn zero() -> (r: Self)
        ensures
            r == Self::zero_spec(),
    ;
}

/// Capability: the type can be added and multiplied.  Implementations fix
/// the exact semantics through `add_spec` and `mul_spec`; the machine
/// integers below use wrapping arithmetic, so both operations are total.
pub trait Arith: Sized {
    /// What `add` returns, at the specification level.
    spec fn add_spec(self, rhs: Self) -> Self;

    /// What `mul` returns, at the specification level.
    spec fn mul_spec(self, rhs: Self) -> Self;

    fn add(self, rhs: Self) -> (r: Self)
        ensures
            r == self.add_spec(rhs),
    ;

    fn mul(self, rhs: Self) -> (r: Self)
        ensures
            r == self.mul_spec(rhs),
    ;
}

/// Capability: the type can compute a square root of itself.
pub trait Sqrt: Sized {
    /// What `sqrt` returns, at the specification level.
    spec fn sqrt_spec(self) -> Self;

    fn sqrt(self) -> (r: Self)
        ensures
            r == self.sqrt_spec(),
    ;
}

/// `r` is the integer square root of `n`, rounded down: the unique value
/// with `r * r <= n < (r + 1) * (r + 1)`.
pub open spec fn is_floor_sqrt(n: u64, r: u64) -> bool {
    (r as int) * (r as int) <= (n as int) < ((r as int) + 1) * ((r as int) + 1)
}

/// No two values satisfy `is_floor_sqrt` for the same `n`.
proof fn lemma_floor_sqrt_unique(n: u64, a: u64, b: u64)
    requires
        is_floor_sqrt(n, a),
        is_floor_sqrt(n, b),
    ensures
        a == b,
{
    if a < b {
        assert(((a as int) + 1) * ((a as int) + 1) <= (b as int) * (b as int)) by (nonlinear_arith)
            requires
                0 <= a as int,
                (a as int) + 1 <= b as int,
        ;
    }
    if b < a {
        assert(((b as int) + 1) * ((b as int) + 1) <= (a as int) * (a as int)) by (nonlinear_arith)
            requires
                0 <= b as int,
                (b as int) + 1 <= a as int,
        ;
    }
}

impl Zero for u64 {
    open spec fn zero_spec() -> u64 {
        0u64
    }

    fn zero() -> (r: u64)
        ensures
            r == Self::zero_spec(),
    {
        0u64
    }
}

impl Arith for u64 {
    open spec fn add_spec(self, rhs: u64) -> u64 {
        self.wrapping_add(rhs)
    }

    open spec fn mul_spec(self, rhs: u64) -> u64 {
        self.wrapping_mul(rhs)
    }

    fn add(self, rhs: u64) -> (r: u64)
        ensures
            r == self.add_spec(rhs),
    {
        self.wrapping_add(rhs)
    }

    fn mul(self, rhs: u64) -> (r: u64)
        ensures
            r == self.mul_spec(rhs),
    {
        self.wrapping_mul(rhs)
    }
}

impl Sqrt for u64 {
    /// The integer square root, rounded down.
    open spec fn sqrt_spec(self) -> u64 {
        choose|r: u64| is_floor_sqrt(self, r)
    }

    /// Binary search for the largest `r` with `r * r <= self`.
    fn sqrt(self) -> (r: u64)
        ensures
            r == self.sqrt_spec(),
    {
        let mut lo: u64 = 0;
        let mut hi: u64 = 0x1_0000_0000;
        while lo + 1 < hi
            invariant
                lo < hi <= 0x1_0000_0000,
                (lo as int) * (lo as int) <= self as int,
                (self as int) < (hi as int) * (hi as int),
            decreases hi - lo,
        {
            let mid: u64 = lo + (hi - lo) / 2;
            proof {
                assert((mid as int) * (mid as int) <= 0xFFFF_FFFF * 0xFFFF_FFFF)
                    by (nonlinear_arith)
                    requires
                        0 <= mid as int <= 0xFFFF_FFFF,
                ;
            }
            if mid * mid <= self {
                lo = mid;
            } else {
                hi = mid;
            }
        }
        proof {
            assert(is_floor_sqrt(self, lo));
            assert(is_floor_sqrt(self, self.sqrt_spec())) by {
                assert(exists|r: u64| is_floor_sqrt(self, r));
            }
            lemma_floor_sqrt_unique(self, lo, self.sqrt_spec());
        }
        lo
    }
}

} // verus!
