//! The prime field the trace is arithmetized over: integers modulo the
//! Mersenne prime `2^31 - 1`. Constraint polynomials evaluate to values of
//! this field; a constraint holds on a row exactly when its value is zero.

use vstd::prelude::*;

verus! {

/// The field's modulus.
pub const FIELD_MODULUS: u32 = 0x7FFF_FFFF;

/// A field element, held reduced.
#[derive(Clone, Copy, Debug, PartialEq, Eq, Hash)]
pub struct Fp {
    pub v: u32,
}

impl Fp {
    /// The element is reduced.
    pub open spec fn ok(self) -> bool {
        self.v < FIELD_MODULUS
    }

    /// The zero of the field.
    pub fn zero() -> (r: Fp)
        ensures
            r.ok(),
            r.v == 0,
    {
        Fp { v: 0 }
    }

    /// The one of the field.
    pub fn one() -> (r: Fp)
        ensures
            r.ok(),
            r.v == 1,
    {
        Fp { v: 1 }
    }

    /// The element denoting an integer, reduced.
    pub fn new(x: u32) -> (r: Fp)
        ensures
            r.ok(),
            r.v == x % FIELD_MODULUS,
    {
        Fp { v: x % FIELD_MODULUS }
    }

    /// Field addition.
    pub fn add(self, other: Fp) -> (r: Fp)
        requires
            self.ok(),
            other.ok(),
        ensures
            r.ok(),
            r.v == (self.v + other.v) % (FIELD_MODULUS as int),
    {
        let s: u64 = self.v as u64 + other.v as u64;
        if s >= FIELD_MODULUS as u64 {
            Fp { v: (s - FIELD_MODULUS as u64) as u32 }
        } else {
            Fp { v: s as u32 }
        }
    }

    /// Field subtraction.
    pub fn sub(self, other: Fp) -> (r: Fp)
        requires
            self.ok(),
            other.ok(),
        ensures
            r.ok(),
            r.v == (self.v - other.v) % (FIELD_MODULUS as int),
    {
        if self.v >= other.v {
            Fp { v: self.v - other.v }
        } else {
            Fp { v: (self.v as u64 + FIELD_MODULUS as u64 - other.v as u64) as u32 }
        }
    }

    /// Field multiplication.
    pub fn mul(self, other: Fp) -> (r: Fp)
        requires
            self.ok(),
            other.ok(),
        ensures
            r.ok(),
            r.v == (self.v * other.v) % (FIELD_MODULUS as int),
    {
        let a: u64 = self.v as u64;
        let b: u64 = other.v as u64;
        proof {
            assert(a * b < 0x4000_0000_0000_0000u64) by (nonlinear_arith)
                requires
                    a < 0x8000_0000u64,
                    b < 0x8000_0000u64,
            ;
        }
        let p: u64 = a * b;
        Fp { v: (p % (FIELD_MODULUS as u64)) as u32 }
    }

    /// Field negation.
    pub fn neg(self) -> (r: Fp)
        requires
            self.ok(),
        ensures
            r.ok(),
            r.v == (0 - self.v as int) % (FIELD_MODULUS as int),
    {
        if self.v == 0 {
            Fp { v: 0 }
        } else {
            Fp { v: FIELD_MODULUS - self.v }
        }
    }
}

} // verus!

verus! {

/// Field addition over integers.
pub open spec fn fadd(a: int, b: int) -> int {
    (a + b) % (FIELD_MODULUS as int)
}

/// Field subtraction over integers.
pub open spec fn fsub(a: int, b: int) -> int {
    (a - b) % (FIELD_MODULUS as int)
}

/// Field multiplication over integers.
pub open spec fn fmul(a: int, b: int) -> int {
    (a * b) % (FIELD_MODULUS as int)
}

} // verus!

verus! {

/// Addition of small nonnegative values needs no reduction.
pub proof fn lemma_fadd_small(a: int, b: int)
    requires
        0 <= a,
        0 <= b,
        a + b < FIELD_MODULUS,
    ensures
        fadd(a, b) == a + b,
{
    vstd::arithmetic::div_mod::lemma_small_mod((a + b) as nat, FIELD_MODULUS as nat);
}

/// Subtraction of equal values vanishes.
pub proof fn lemma_fsub_zero(a: int, b: int)
    requires
        a == b,
    ensures
        fsub(a, b) == 0,
{
}

/// Subtraction of a smaller small value needs no reduction.
pub proof fn lemma_fsub_small(a: int, b: int)
    requires
        0 <= b <= a < FIELD_MODULUS,
    ensures
        fsub(a, b) == a - b,
{
    vstd::arithmetic::div_mod::lemma_small_mod((a - b) as nat, FIELD_MODULUS as nat);
}

/// A field subtraction always lands in the field.
pub proof fn lemma_fsub_ok(a: int, b: int)
    ensures
        0 <= fsub(a, b) < FIELD_MODULUS,
{
    vstd::arithmetic::div_mod::lemma_mod_bound(a - b, FIELD_MODULUS as int);
}

/// Multiplication by a bit selects the value or zero.
pub proof fn lemma_fmul_sel(s: int, t: int)
    requires
        s == 0 || s == 1,
        0 <= t < FIELD_MODULUS,
    ensures
        fmul(s, t) == (if s == 1 {
            t
        } else {
            0
        }),
{
    if s == 1 {
        vstd::arithmetic::div_mod::lemma_small_mod(t as nat, FIELD_MODULUS as nat);
    }
}

/// Multiplication of small values needs no reduction.
pub proof fn lemma_fmul_small(a: int, b: int)
    requires
        0 <= a,
        0 <= b,
        a * b < FIELD_MODULUS,
    ensures
        fmul(a, b) == a * b,
{
    assert(a * b >= 0) by (nonlinear_arith)
        requires
            0 <= a,
            0 <= b,
    ;
    vstd::arithmetic::div_mod::lemma_small_mod((a * b) as nat, FIELD_MODULUS as nat);
}

} // verus!
