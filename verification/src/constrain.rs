//! The immutable constraint bundles a compilation emits: the nine gate
//! constraint polynomials and the three copy-constraint (sigma)
//! polynomials with their coset scalars. Every polynomial is held as its
//! coefficient vector, lowest degree first.

use vstd::prelude::*;
use crate::field::Fe;
use crate::domain::all_wf;

verus! {

/// The interpolated wire polynomials a(x), b(x), c(x), the five selector
/// polynomials and the public-input polynomial, as coefficient vectors.
pub struct GateConstraints {
    pub f_a: Vec<Fe>,
    pub f_b: Vec<Fe>,
    pub f_c: Vec<Fe>,
    pub q_l: Vec<Fe>,
    pub q_r: Vec<Fe>,
    pub q_o: Vec<Fe>,
    pub q_m: Vec<Fe>,
    pub q_c: Vec<Fe>,
    pub pi: Vec<Fe>,
}

impl GateConstraints {
    pub open spec fn wf(self) -> bool {
        all_wf(self.f_a@) && all_wf(self.f_b@) && all_wf(self.f_c@) && all_wf(self.q_l@)
            && all_wf(self.q_r@) && all_wf(self.q_o@) && all_wf(self.q_m@) && all_wf(self.q_c@)
            && all_wf(self.pi@)
    }

    pub fn new(
        f_a: Vec<Fe>,
        f_b: Vec<Fe>,
        f_c: Vec<Fe>,
        q_l: Vec<Fe>,
        q_r: Vec<Fe>,
        q_o: Vec<Fe>,
        q_m: Vec<Fe>,
        q_c: Vec<Fe>,
        pi: Vec<Fe>,
    ) -> (r: GateConstraints)
        ensures
            r.f_a == f_a && r.f_b == f_b && r.f_c == f_c,
            r.q_l == q_l && r.q_r == q_r && r.q_o == q_o && r.q_m == q_m && r.q_c == q_c,
            r.pi == pi,
    {
        GateConstraints { f_a, f_b, f_c, q_l, q_r, q_o, q_m, q_c, pi }
    }
}

/// The three permutation polynomials sigma_1, sigma_2, sigma_3 (as
/// coefficient vectors) and the coset scalars k1, k2 that label the B and
/// C wire columns.
pub struct CopyConstraints {
    pub sigma_1: Vec<Fe>,
    pub sigma_2: Vec<Fe>,
    pub sigma_3: Vec<Fe>,
    pub k1: Fe,
    pub k2: Fe,
}

impl CopyConstraints {
    pub open spec fn wf(self) -> bool {
        all_wf(self.sigma_1@) && all_wf(self.sigma_2@) && all_wf(self.sigma_3@) && self.k1.wf()
            && self.k2.wf()
    }

    pub fn new(sigma_1: Vec<Fe>, sigma_2: Vec<Fe>, sigma_3: Vec<Fe>, k1: Fe, k2: Fe) -> (r:
        CopyConstraints)
        ensures
            r.sigma_1 == sigma_1 && r.sigma_2 == sigma_2 && r.sigma_3 == sigma_3,
            r.k1 == k1 && r.k2 == k2,
    {
        CopyConstraints { sigma_1, sigma_2, sigma_3, k1, k2 }
    }
}

} // verus!
