//! Scalar-field elements of the BLS12-381 curve, held as four little-endian
//! 64-bit limbs and viewed as the natural number they spell. The modular
//! arithmetic itself is done by ark_ff behind trusted wrappers.

use vstd::prelude::*;
use vstd::arithmetic::div_mod::lemma_small_mod;
use vstd::arithmetic::div_mod::lemma_mod_multiples_vanish;
use ark_ff::PrimeField;
use rand::RngCore;

verus! {

/// Order r of the scalar field of BLS12-381: the prime modulus of every
/// value this library computes with.
pub open spec fn fr_order() -> nat {
    52435875175126190479447740508185965837690552500527637822603658699938581184513nat
}

/// A scalar-field element: a canonical residue mod `fr_order()`, stored as
/// four little-endian 64-bit limbs.
#[derive(Clone, Copy, PartialEq, Eq, Structural, Debug)]
pub struct Fe {
    pub l0: u64,
    pub l1: u64,
    pub l2: u64,
    pub l3: u64,
}

impl View for Fe {
    type V = nat;

    open spec fn view(&self) -> nat {
        ((self.l0 as nat)
            + self.l1 * 0x1_0000_0000_0000_0000nat
            + self.l2 * 0x1_0000_0000_0000_0000_0000_0000_0000_0000nat
            + self.l3 * 0x1_0000_0000_0000_0000_0000_0000_0000_0000_0000_0000_0000_0000nat) as nat
    }
}

impl Fe {
    /// A well-formed element is a canonical residue: strictly below r.
    pub open spec fn wf(self) -> bool {
        self@ < fr_order()
    }

    /// The element standing for `v`.
    pub fn from_u64(v: u64) -> (r: Fe)
        ensures
            r.wf(),
            r@ == v,
    {
        Fe { l0: v, l1: 0, l2: 0, l3: 0 }
    }

    /// The element standing for `v` mod r; a negative `v` lands on
    /// `r - |v|`.
    pub fn from_i64(v: i64) -> (r: Fe)
        ensures
            r.wf(),
            r@ == (v as int) % (fr_order() as int),
    {
        if v >= 0 {
            let r = Fe::from_u64(v as u64);
            proof {
                lemma_small_mod(v as nat, fr_order());
            }
            r
        } else {
            let m: u64 = ((-(v + 1)) as u64) + 1;
            let r = fe_neg(&Fe::from_u64(m));
            proof {
                lemma_mod_multiples_vanish(1int, v as int, fr_order() as int);
                lemma_small_mod((v + fr_order()) as nat, fr_order());
                lemma_small_mod((fr_order() - m) as nat, fr_order());
            }
            r
        }
    }

    /// The four little-endian limbs of the residue.
    pub fn limbs(&self) -> (r: (u64, u64, u64, u64))
        ensures
            r.0 == self.l0 && r.1 == self.l1 && r.2 == self.l2 && r.3 == self.l3,
    {
        (self.l0, self.l1, self.l2, self.l3)
    }
}

/// Two elements spelling the same residue have the same limbs.
pub proof fn lemma_fe_view_injective(x: Fe, y: Fe)
    requires
        x@ == y@,
    ensures
        x == y,
{
    assert(x.l0 == y.l0 && x.l1 == y.l1 && x.l2 == y.l2 && x.l3 == y.l3) by {
        lemma_limbs_unique(x.l0, x.l1, x.l2, x.l3, y.l0, y.l1, y.l2, y.l3);
    }
}

proof fn lemma_limbs_unique(a0: u64, a1: u64, a2: u64, a3: u64, b0: u64, b1: u64, b2: u64, b3: u64)
    requires
        a0 + a1 * 0x1_0000_0000_0000_0000nat
            + a2 * 0x1_0000_0000_0000_0000_0000_0000_0000_0000nat
            + a3 * 0x1_0000_0000_0000_0000_0000_0000_0000_0000_0000_0000_0000_0000nat
        == b0 + b1 * 0x1_0000_0000_0000_0000nat
            + b2 * 0x1_0000_0000_0000_0000_0000_0000_0000_0000nat
            + b3 * 0x1_0000_0000_0000_0000_0000_0000_0000_0000_0000_0000_0000_0000nat,
    ensures
        a0 == b0 && a1 == b1 && a2 == b2 && a3 == b3,
{
}

/// Relies on ark_ff addition on bls12-381 `Fr`: the sum of two canonical
/// residues reduced mod r, returned in canonical form.
#[verifier::external_body]
pub(crate) fn fe_add(a: &Fe, b: &Fe) -> (r: Fe)
    requires
        a.wf(),
        b.wf(),
    ensures
        r.wf(),
        r@ == (a@ + b@) % fr_order(),
{
    let x = ark_bls12_381::Fr::from_bigint(ark_ff::BigInt::new([a.l0, a.l1, a.l2, a.l3])).unwrap();
    let y = ark_bls12_381::Fr::from_bigint(ark_ff::BigInt::new([b.l0, b.l1, b.l2, b.l3])).unwrap();
    let z = (x + y).into_bigint().0;
    Fe { l0: z[0], l1: z[1], l2: z[2], l3: z[3] }
}

/// Relies on ark_ff multiplication on bls12-381 `Fr`: the product of two
/// canonical residues reduced mod r, returned in canonical form.
#[verifier::external_body]
pub(crate) fn fe_mul(a: &Fe, b: &Fe) -> (r: Fe)
    requires
        a.wf(),
        b.wf(),
    ensures
        r.wf(),
        r@ == (a@ * b@) % fr_order(),
{
    let x = ark_bls12_381::Fr::from_bigint(ark_ff::BigInt::new([a.l0, a.l1, a.l2, a.l3])).unwrap();
    let y = ark_bls12_381::Fr::from_bigint(ark_ff::BigInt::new([b.l0, b.l1, b.l2, b.l3])).unwrap();
    let z = (x * y).into_bigint().0;
    Fe { l0: z[0], l1: z[1], l2: z[2], l3: z[3] }
}

/// Relies on ark_ff negation on bls12-381 `Fr`: the additive inverse of a
/// canonical residue, returned in canonical form.
#[verifier::external_body]
pub(crate) fn fe_neg(a: &Fe) -> (r: Fe)
    requires
        a.wf(),
    ensures
        r.wf(),
        r@ == (fr_order() - a@) % (fr_order() as int),
{
    let x = ark_bls12_381::Fr::from_bigint(ark_ff::BigInt::new([a.l0, a.l1, a.l2, a.l3])).unwrap();
    let z = (-x).into_bigint().0;
    Fe { l0: z[0], l1: z[1], l2: z[2], l3: z[3] }
}

/// Relies on ark_ff's `from_le_bytes_mod_order` over operating-system
/// randomness: whatever bytes come back, the result is a canonical residue.
#[verifier::external_body]
pub(crate) fn fe_rand() -> (r: Fe)
    ensures
        r.wf(),
{
    let mut bytes = [0u8; 64];
    rand::rngs::OsRng.fill_bytes(&mut bytes);
    let z = ark_bls12_381::Fr::from_le_bytes_mod_order(&bytes).into_bigint().0;
    Fe { l0: z[0], l1: z[1], l2: z[2], l3: z[3] }
}

} // verus!
