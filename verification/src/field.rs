//! Arithmetic in the Goldilocks prime field, the base field of every wire value.
//!
//! A field element is a canonical `u64` below the prime
//! `p = 2^64 - 2^32 + 1`.  Every operation states its result as the exact
//! mathematical residue, so all higher layers reason in integers modulo `p`.

use vstd::prelude::*;
use vstd::arithmetic::div_mod::{
    lemma_mod_bound, lemma_small_mod, lemma_mod_multiples_vanish, lemma_add_mod_noop,
    lemma_sub_mod_noop, lemma_mul_mod_noop_general,
};

verus! {

/// The Goldilocks prime, `2^64 - 2^32 + 1`.
pub const GOLDILOCKS_P: u64 = 0xffff_ffff_0000_0001;

/// The field modulus as a mathematical integer.
pub open spec fn p() -> int {
    0xffff_ffff_0000_0001
}

/// A canonical field element: a residue already reduced below the modulus.
pub open spec fn is_elem(a: int) -> bool {
    0 <= a < p()
}

/// Sum in the field.
pub open spec fn fadd(a: int, b: int) -> int {
    (a + b) % p()
}

/// Difference in the field.
pub open spec fn fsub(a: int, b: int) -> int {
    (a - b) % p()
}

/// Product in the field.
pub open spec fn fmul(a: int, b: int) -> int {
    (a * b) % p()
}

/// Seventh power in the field, the S-box of the permutation.
pub open spec fn sbx(a: int) -> int {
    fmul(fmul(fmul(fmul(a, a), fmul(a, a)), fmul(a, a)), a)
}


/// The integer values of a sequence of representatives.
pub open spec fn ints(s: Seq<u64>) -> Seq<int> {
    Seq::new(s.len(), |i: int| s[i] as int)
}

/// Every entry of the sequence is a canonical field element.
pub open spec fn elems_u(s: Seq<u64>) -> bool {
    forall|k: int| 0 <= k < s.len() ==> is_elem(#[trigger] s[k] as int)
}


/// Every entry of the integer sequence is a canonical field element.
pub open spec fn elems_i(s: Seq<int>) -> bool {
    forall|k: int| 0 <= k < s.len() ==> is_elem(#[trigger] s[k])
}


/// The S-box really is the seventh power: the squaring chain equals
/// `a^7 mod p`.
pub proof fn lemma_sbx_is_seventh_power(a: int)
    ensures
        sbx(a) == (a * a * a * a * a * a * a) % p(),
{
    let m = p();
    let s = a * a;
    lemma_mul_mod_noop_general(s, s, m);
    assert(fmul(fmul(a, a), fmul(a, a)) == (s * s) % m);
    lemma_mul_mod_noop_general(s * s, s, m);
    assert(fmul(fmul(fmul(a, a), fmul(a, a)), fmul(a, a)) == ((s * s) * s) % m);
    lemma_mul_mod_noop_general((s * s) * s, a, m);
    assert(sbx(a) == (((s * s) * s) * a) % m);
    assert((((a * a) * (a * a)) * (a * a)) * a == a * a * a * a * a * a * a) by (nonlinear_arith);
}

/// Every residue of a positive modulus is canonical.
pub proof fn lemma_residue(a: int, b: int)
    ensures
        is_elem(fadd(a, b)),
        is_elem(fsub(a, b)),
        is_elem(fmul(a, b)),
{
    lemma_mod_bound(a + b, p());
    lemma_mod_bound(a - b, p());
    lemma_mod_bound(a * b, p());
}

/// Adding zero, subtracting zero, and subtracting a value from itself.
pub proof fn lemma_zero_laws(a: int)
    requires
        is_elem(a),
    ensures
        fadd(a, 0) == a,
        fsub(a, 0) == a,
        fsub(a, a) == 0,
        fmul(a, 0) == 0,
        fmul(0, a) == 0,
        fmul(1, a) == a,
{
    lemma_small_mod(a as nat, p() as nat);
    lemma_small_mod(0nat, p() as nat);
    assert(a * 0 == 0) by (nonlinear_arith);
    assert(0 * a == 0) by (nonlinear_arith);
    assert(1 * a == a) by (nonlinear_arith);
}

/// Two distinct canonical elements have a non-zero difference in the field.
pub proof fn lemma_distinct_nonzero(a: int, b: int)
    requires
        is_elem(a),
        is_elem(b),
        a != b,
    ensures
        fsub(a, b) != 0,
{
    if a > b {
        lemma_small_mod((a - b) as nat, p() as nat);
    } else {
        lemma_mod_multiples_vanish(1, a - b, p());
        lemma_small_mod((a - b + p()) as nat, p() as nat);
    }
}

/// Adding the field difference `b - a` onto `a` lands on `b`, and taking it
/// away from `b` lands back on `a`: the algebra behind the conditional swap.
pub proof fn lemma_swap_transport(a: int, b: int)
    requires
        is_elem(a),
        is_elem(b),
    ensures
        fadd(a, fsub(b, a)) == b,
        fsub(b, fsub(b, a)) == a,
{
    lemma_small_mod(a as nat, p() as nat);
    lemma_small_mod(b as nat, p() as nat);
    lemma_add_mod_noop(a, b - a, p());
    lemma_sub_mod_noop(b, b - a, p());
}

/// Field addition on canonical representatives.
pub fn add_mod(a: u64, b: u64) -> (r: u64)
    ensures
        is_elem(r as int),
        r == fadd(a as int, b as int),
{
    let s: u128 = (a as u128 + b as u128) % (GOLDILOCKS_P as u128);
    proof {
        lemma_mod_bound(a as int + b as int, p());
    }
    s as u64
}

/// Field subtraction on canonical representatives.
pub fn sub_mod(a: u64, b: u64) -> (r: u64)
    requires
        is_elem(b as int),
    ensures
        is_elem(r as int),
        r == fsub(a as int, b as int),
{
    let s: u128 = (a as u128 + GOLDILOCKS_P as u128 - b as u128) % (GOLDILOCKS_P as u128);
    proof {
        lemma_mod_bound(a as int + p() - b as int, p());
        lemma_mod_multiples_vanish(1, a as int - b as int, p());
    }
    s as u64
}

/// Field multiplication on canonical representatives.
pub fn mul_mod(a: u64, b: u64) -> (r: u64)
    ensures
        is_elem(r as int),
        r == fmul(a as int, b as int),
{
    proof {
        assert((a as int) * (b as int) < 0x1_0000_0000_0000_0000_0000_0000_0000_0000)
            by (nonlinear_arith)
            requires a < 0x1_0000_0000_0000_0000 && b < 0x1_0000_0000_0000_0000;
        assert((a as int) * (b as int) >= 0) by (nonlinear_arith)
            requires a >= 0 && b >= 0;
    }
    let s: u128 = (a as u128 * b as u128) % (GOLDILOCKS_P as u128);
    proof {
        lemma_mod_bound(a as int * b as int, p());
    }
    s as u64
}

/// The S-box `x^7`, computed by three squarings and multiplications.
pub fn sbox(a: u64) -> (r: u64)
    ensures
        is_elem(r as int),
        r == sbx(a as int),
{
    let a2 = mul_mod(a, a);
    let a4 = mul_mod(a2, a2);
    let a6 = mul_mod(a4, a2);
    mul_mod(a6, a)
}

} // verus!
