//! The structured reference string (SRS) a compilation acquires: powers of
//! a secret scalar behind the fixed curve generators. The curve arithmetic
//! is ark's; only the sizing and the power schedule are this library's
//! logic. The secret is consumed and never stored.

use vstd::prelude::*;
use ark_ec::{AffineRepr, CurveGroup};
use ark_ff::PrimeField;
use crate::field::{Fe, fe_mul, fe_rand};
use crate::domain::pow_mod;

verus! {

/// A point of the G1 group, carried opaquely for the downstream prover.
#[verifier::external_body]
pub struct G1Point {
    pt: ark_bls12_381::G1Affine,
}

/// A point of the G2 group, carried opaquely for the downstream prover.
#[verifier::external_body]
pub struct G2Point {
    pt: ark_bls12_381::G2Affine,
}

/// The G1 point the scalar s puts behind the fixed G1 generator: a
/// function of the scalar alone.
pub uninterp spec fn g1_gen_mul(s: nat) -> G1Point;

/// The G2 point the scalar s puts behind the fixed G2 generator: a
/// function of the scalar alone.
pub uninterp spec fn g2_gen_mul(s: nat) -> G2Point;

/// Relies on ark_ec scalar multiplication of the fixed BLS12-381 G1
/// generator; the result depends on the canonical scalar alone.
#[verifier::external_body]
fn g1_mul_gen(s: &Fe) -> (r: G1Point)
    requires
        s.wf(),
    ensures
        r == g1_gen_mul(s@),
{
    let f = ark_bls12_381::Fr::from_bigint(ark_ff::BigInt::new([s.l0, s.l1, s.l2, s.l3])).unwrap();
    G1Point { pt: (ark_bls12_381::G1Affine::generator() * f).into_affine() }
}

/// Relies on ark_ec scalar multiplication of the fixed BLS12-381 G2
/// generator; the result depends on the canonical scalar alone.
#[verifier::external_body]
fn g2_mul_gen(s: &Fe) -> (r: G2Point)
    requires
        s.wf(),
    ensures
        r == g2_gen_mul(s@),
{
    let f = ark_bls12_381::Fr::from_bigint(ark_ff::BigInt::new([s.l0, s.l1, s.l2, s.l3])).unwrap();
    G2Point { pt: (ark_bls12_381::G2Affine::generator() * f).into_affine() }
}

/// A trusted setup in coefficient form: the G1 powers s^0·G, s^1·G, ...,
/// s^n·G of a secret scalar s, and s·H in G2.
pub struct Setup {
    pub in_g1: Vec<G1Point>,
    pub in_ge: G2Point,
}

impl Setup {
    /// The setup the secret scalar determines, sized to a domain of n
    /// rows: n + 1 powers in G1 and the first power in G2.
    pub fn generate(n: usize, secret: Fe) -> (r: Setup)
        requires
            secret.wf(),
            n <= 0x8000_0000,
        ensures
            r.in_g1@.len() == n + 1,
            forall|i: int| 0 <= i <= n ==> r.in_g1@[i] == g1_gen_mul(pow_mod(secret@, i as nat)),
            r.in_ge == g2_gen_mul(secret@),
    {
        let mut in_g1: Vec<G1Point> = Vec::new();
        let mut power = Fe::from_u64(1);
        let mut i: usize = 0;
        while i <= n
            invariant
                n <= 0x8000_0000,
                secret.wf(),
                i <= n + 1,
                power.wf(),
                power@ == pow_mod(secret@, i as nat),
                in_g1@.len() == i,
                forall|j: int| 0 <= j < i ==> in_g1@[j] == g1_gen_mul(pow_mod(secret@, j as nat)),
            decreases n + 1 - i,
        {
            in_g1.push(g1_mul_gen(&power));
            power = fe_mul(&power, &secret);
            proof {
                assert(pow_mod(secret@, (i + 1) as nat)
                    == (secret@ * pow_mod(secret@, i as nat)) % crate::field::fr_order());
            }
            i = i + 1;
        }
        let in_ge = g2_mul_gen(&secret);
        Setup { in_g1, in_ge }
    }

    /// A setup over a fresh random secret, sized to a domain of n rows.
    pub fn random(n: usize) -> (r: Setup)
        requires
            n <= 0x8000_0000,
        ensures
            r.in_g1@.len() == n + 1,
    {
        let secret = fe_rand();
        Setup::generate(n, secret)
    }
}

} // verus!
