//! The power-of-two evaluation domain and interpolation over it.
//!
//! The domain of size n is the multiplicative subgroup generated by a fixed
//! primitive n-th root of unity; ark_poly supplies the generator, the
//! ordered element enumeration and the (inverse) FFT behind trusted
//! wrappers, whose contracts speak over `pow_mod` and `poly_eval`.

use vstd::prelude::*;
use ark_ff::PrimeField;
use ark_poly::EvaluationDomain;
use crate::field::{Fe, fr_order};

verus! {

/// b^e reduced mod r (with `pow_mod(b, 0) == 1` for every b).
pub open spec fn pow_mod(b: nat, e: nat) -> nat
    decreases e,
{
    if e == 0 {
        1
    } else {
        (b * pow_mod(b, (e - 1) as nat)) % fr_order()
    }
}

/// The generator ark_poly picks for the radix-2 evaluation domain of size
/// n: a fixed primitive n-th root of unity mod r, a function of n alone.
pub uninterp spec fn domain_gen(n: nat) -> nat;

/// The i-th element of the size-n domain: the i-th power of its generator.
pub open spec fn root_of(n: nat, i: nat) -> nat {
    pow_mod(domain_gen(n), i)
}

/// The coefficients ark_poly's interpolation returns for the given
/// evaluations over the size-n domain; a function of its arguments alone.
pub uninterp spec fn interp_of(evals: Seq<nat>, n: nat) -> Seq<nat>;

/// The residues a sequence of field elements spells.
pub open spec fn fe_vals(s: Seq<Fe>) -> Seq<nat> {
    s.map(|i: int, e: Fe| e@)
}

/// Every element of the sequence is a canonical residue.
pub open spec fn all_wf(s: Seq<Fe>) -> bool {
    forall|i: int| 0 <= i < s.len() ==> (#[trigger] s[i]).wf()
}

/// n is a power of two.
pub open spec fn is_pow2(n: nat) -> bool
    decreases n,
{
    if n == 0 {
        false
    } else if n == 1 {
        true
    } else {
        n % 2 == 0 && is_pow2(n / 2)
    }
}

/// Evaluation of the polynomial with coefficient sequence `c` at `x`,
/// reduced mod r (Horner form).
pub open spec fn poly_eval(c: Seq<nat>, x: nat) -> nat
    decreases c.len(),
{
    if c.len() == 0 {
        0
    } else {
        (c[0] + x * poly_eval(c.subrange(1, c.len() as int), x)) % fr_order()
    }
}

/// Relies on ark_poly's `GeneralEvaluationDomain`: for a power-of-two size
/// up to 2^31 the domain exists and `elements()` yields the successive
/// powers 1, g, g^2, ... of its generator, each a canonical residue.
#[verifier::external_body]
pub(crate) fn domain_elements(n: usize) -> (r: Vec<Fe>)
    requires
        1 <= n <= 0x8000_0000,
        is_pow2(n as nat),
    ensures
        r@.len() == n,
        all_wf(r@),
        forall|i: int| 0 <= i < n ==> (#[trigger] r@[i])@ == pow_mod(domain_gen(n as nat), i as nat),
{
    let domain = ark_poly::GeneralEvaluationDomain::<ark_bls12_381::Fr>::new(n).unwrap();
    domain.elements().map(|e| {
        let z = e.into_bigint().0;
        Fe { l0: z[0], l1: z[1], l2: z[2], l3: z[3] }
    }).collect()
}

/// Relies on ark_poly's interpolation (inverse FFT) over the size-n
/// radix-2 domain: the returned coefficients, trailing zeros trimmed, are
/// those of the unique polynomial of degree below n that takes the given
/// values at the successive domain elements.
#[verifier::external_body]
pub(crate) fn interpolate(evals: &Vec<Fe>, n: usize) -> (r: Vec<Fe>)
    requires
        evals@.len() == n,
        1 <= n <= 0x8000_0000,
        is_pow2(n as nat),
        all_wf(evals@),
    ensures
        r@.len() <= n,
        all_wf(r@),
        fe_vals(r@) == interp_of(fe_vals(evals@), n as nat),
        forall|i: int| 0 <= i < n ==> poly_eval(fe_vals(r@), root_of(n as nat, i as nat))
            == (#[trigger] evals@[i])@,
{
    let domain = ark_poly::GeneralEvaluationDomain::<ark_bls12_381::Fr>::new(n).unwrap();
    let vs: Vec<ark_bls12_381::Fr> = evals.iter().map(|e|
        ark_bls12_381::Fr::from_bigint(ark_ff::BigInt::new([e.l0, e.l1, e.l2, e.l3])).unwrap()
    ).collect();
    let poly = ark_poly::Evaluations::from_vec_and_domain(vs, domain).interpolate();
    poly.coeffs.iter().map(|c| {
        let z = c.into_bigint().0;
        Fe { l0: z[0], l1: z[1], l2: z[2], l3: z[3] }
    }).collect()
}

/// The evaluation domain a circuit was compiled over: its power-of-two
/// size and its ordered elements.
pub struct Domain {
    pub size: usize,
    pub elements: Vec<Fe>,
}

impl Domain {
    /// The elements are exactly the successive powers of the size-n
    /// generator, one per row.
    pub open spec fn wf(self) -> bool {
        &&& 1 <= self.size <= 0x8000_0000
        &&& is_pow2(self.size as nat)
        &&& self.elements@.len() == self.size
        &&& all_wf(self.elements@)
        &&& forall|i: int| 0 <= i < self.size ==> (#[trigger] self.elements@[i])@
            == root_of(self.size as nat, i as nat)
    }

    /// The domain of the given power-of-two size.
    pub fn build(n: usize) -> (r: Domain)
        requires
            1 <= n <= 0x8000_0000,
            is_pow2(n as nat),
        ensures
            r.wf(),
            r.size == n,
    {
        Domain { size: n, elements: domain_elements(n) }
    }
}

} // verus!
