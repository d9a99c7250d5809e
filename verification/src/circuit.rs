//! The circuit builder and compiler.
//!
//! A `Circuit` accumulates gates and the three wire-value columns. Its
//! compiler rounds the row count up to a power of two with inert padding,
//! brings the nine columns into coefficient form over the domain, verifies
//! every row's constraint, and reads the sigma polynomials off the wiring
//! and the two cosets; the output is an immutable `CompiledCircuit` with a
//! fresh SRS.

use vstd::prelude::*;
use vstd::arithmetic::div_mod::lemma_small_mod;
use vstd::arithmetic::div_mod::lemma_add_mod_noop;
use vstd::arithmetic::div_mod::lemma_mul_mod_noop_left;
use crate::field::{Fe, fr_order, fe_add, fe_mul};
use crate::gate::{Gate, GateKind, Position};
use crate::domain::{
    root_of, interp_of, fe_vals, all_wf, is_pow2, poly_eval, domain_elements, interpolate, Domain,
};
use crate::constrain::{GateConstraints, CopyConstraints};
use crate::setup::Setup;

verus! {

/// Why a compilation was aborted.
#[derive(Clone, Copy, PartialEq, Eq, Structural, Debug)]
pub enum CircuitError {
    /// A gate's positions are inconsistent with the circuit's final
    /// geometry: a wire points at a row outside the padded domain, or a
    /// dummy gate stands before a value-carrying gate.
    StructuralError,
    /// A row's wire values contradict what its selectors demand.
    ConstraintViolation,
    /// The circuit holds no gates, so no domain size is defined for it.
    DegenerateCircuit,
}

/// The label a wire slot carries: its own domain element in column A, the
/// coset translates by k1 = 2 and k2 = 3 in columns B and C.
pub open spec fn label_of(n: nat, p: Position) -> nat {
    match p {
        Position::ColumnA(j) => root_of(n, j as nat),
        Position::ColumnB(j) => (2 * root_of(n, j as nat)) % fr_order(),
        Position::ColumnC(j) => (3 * root_of(n, j as nat)) % fr_order(),
    }
}

/// The per-row gate equation: a*b*qm + a*ql + b*qr + qo*c + qc + pi is
/// zero mod r.
pub open spec fn gate_eq(
    a: nat,
    b: nat,
    c: nat,
    ql: nat,
    qr: nat,
    qm: nat,
    qo: nat,
    qc: nat,
    pi: nat,
) -> bool {
    (a * b * qm + a * ql + b * qr + qo * c + qc + pi) % fr_order() == 0
}

/// The smallest power of two that `acc`, doubled as often as needed,
/// reaches at or above `g`.
pub open spec fn next_pow2_from(acc: nat, g: nat) -> nat
    decreases (if acc <= g { g - acc } else { 0 }),
    when acc >= 1
{
    if acc >= g {
        acc
    } else {
        next_pow2_from(acc * 2, g)
    }
}

/// The smallest power of two at or above `g` (and 1 for `g <= 1`).
pub open spec fn next_pow2(g: nat) -> nat {
    next_pow2_from(1, g)
}

/// A mutable circuit under construction: the ordered gate list and the
/// three wire-value columns, one entry per value-carrying gate.
pub struct Circuit {
    pub gates: Vec<Gate>,
    pub vals_a: Vec<Fe>,
    pub vals_b: Vec<Fe>,
    pub vals_c: Vec<Fe>,
}

/// The nine assignment columns of a circuit's value-carrying rows: wire
/// values a, b, c, the five selectors and the public-input column.
pub struct Assignment {
    pub a: Vec<Fe>,
    pub b: Vec<Fe>,
    pub c: Vec<Fe>,
    pub ql: Vec<Fe>,
    pub qr: Vec<Fe>,
    pub qm: Vec<Fe>,
    pub qo: Vec<Fe>,
    pub qc: Vec<Fe>,
    pub pi: Vec<Fe>,
}

/// The immutable output of a compilation, consumed by the downstream
/// prover.
pub struct CompiledCircuit {
    pub gate_constraints: GateConstraints,
    pub copy_constraints: CopyConstraints,
    pub srs: Setup,
    pub domain: Domain,
    pub gate_count: usize,
}

impl Circuit {
    /// Every stored gate and wire value is a canonical residue.
    pub open spec fn inv(self) -> bool {
        &&& all_wf(self.vals_a@)
        &&& all_wf(self.vals_b@)
        &&& all_wf(self.vals_c@)
        &&& forall|i: int| 0 <= i < self.gates@.len() ==> (#[trigger] self.gates@[i]).wf()
    }

    pub open spec fn spec_gates(self) -> Seq<Gate> {
        self.gates@
    }

    /// The number of value-carrying rows.
    pub open spec fn rows(self) -> nat {
        self.vals_a@.len()
    }

    pub open spec fn spec_vals_a(self) -> Seq<Fe> {
        self.vals_a@
    }

    pub open spec fn spec_vals_b(self) -> Seq<Fe> {
        self.vals_b@
    }

    pub open spec fn spec_vals_c(self) -> Seq<Fe> {
        self.vals_c@
    }

    /// The value columns are parallel, and the dummy gates are exactly the
    /// rows past the value columns: padding sits at the end.
    pub open spec fn aligned(self) -> bool {
        &&& self.vals_b@.len() == self.vals_a@.len()
        &&& self.vals_c@.len() == self.vals_a@.len()
        &&& self.vals_a@.len() <= self.gates@.len()
        &&& forall|i: int| 0 <= i < self.gates@.len() ==> (((#[trigger] self.gates@[i]).kind
            == GateKind::Dummy) <==> i >= self.vals_a@.len())
    }

    /// Every declared wire position points inside the first n rows.
    pub open spec fn positions_ok(self, n: nat) -> bool {
        forall|i: int| 0 <= i < self.vals_a@.len() ==> (#[trigger] self.gates@[i]).a.row_spec() < n
            && self.gates@[i].b.row_spec() < n && self.gates@[i].c.row_spec() < n
    }

    /// The domain size compilation pads this circuit to.
    pub open spec fn padded_size(self) -> nat {
        next_pow2(self.gates@.len())
    }

    /// The a-wire evaluation column over n rows: recorded values first,
    /// zero on padding rows.
    pub open spec fn a_evals(self, n: nat) -> Seq<nat> {
        Seq::new(n, |i: int| if i < self.vals_a@.len() { self.vals_a@[i]@ } else { 0 })
    }

    pub open spec fn b_evals(self, n: nat) -> Seq<nat> {
        Seq::new(n, |i: int| if i < self.vals_a@.len() { self.vals_b@[i]@ } else { 0 })
    }

    pub open spec fn c_evals(self, n: nat) -> Seq<nat> {
        Seq::new(n, |i: int| if i < self.vals_a@.len() { self.vals_c@[i]@ } else { 0 })
    }

    pub open spec fn ql_evals(self, n: nat) -> Seq<nat> {
        Seq::new(n, |i: int| if i < self.vals_a@.len() { self.gates@[i].q_l@ } else { 0 })
    }

    pub open spec fn qr_evals(self, n: nat) -> Seq<nat> {
        Seq::new(n, |i: int| if i < self.vals_a@.len() { self.gates@[i].q_r@ } else { 0 })
    }

    pub open spec fn qm_evals(self, n: nat) -> Seq<nat> {
        Seq::new(n, |i: int| if i < self.vals_a@.len() { self.gates@[i].q_m@ } else { 0 })
    }

    pub open spec fn qo_evals(self, n: nat) -> Seq<nat> {
        Seq::new(n, |i: int| if i < self.vals_a@.len() { self.gates@[i].q_o@ } else { 0 })
    }

    pub open spec fn qc_evals(self, n: nat) -> Seq<nat> {
        Seq::new(n, |i: int| if i < self.vals_a@.len() { self.gates@[i].q_c@ } else { 0 })
    }

    pub open spec fn pi_evals(self, n: nat) -> Seq<nat> {
        Seq::new(n, |i: int| if i < self.vals_a@.len() { self.gates@[i].pi@ } else { 0 })
    }

    /// Each of the n rows meets its constraint (padding rows do so
    /// trivially, being all zero).
    pub open spec fn identity_ok(self, n: nat) -> bool {
        forall|i: int| 0 <= i < n ==> #[trigger] gate_eq(
            self.a_evals(n)[i],
            self.b_evals(n)[i],
            self.c_evals(n)[i],
            self.ql_evals(n)[i],
            self.qr_evals(n)[i],
            self.qm_evals(n)[i],
            self.qo_evals(n)[i],
            self.qc_evals(n)[i],
            self.pi_evals(n)[i],
        )
    }

    /// The sigma_1 evaluation column: each value-carrying row carries the
    /// label of its a-wire's declared partner slot, each padding row its
    /// own domain element.
    pub open spec fn sigma1_evals(self, n: nat) -> Seq<nat> {
        Seq::new(
            n,
            |i: int| if i < self.vals_a@.len() {
                label_of(n, self.gates@[i].a)
            } else {
                root_of(n, i as nat)
            },
        )
    }

    pub open spec fn sigma2_evals(self, n: nat) -> Seq<nat> {
        Seq::new(
            n,
            |i: int| if i < self.vals_a@.len() {
                label_of(n, self.gates@[i].b)
            } else {
                (2 * root_of(n, i as nat)) % fr_order()
            },
        )
    }

    pub open spec fn sigma3_evals(self, n: nat) -> Seq<nat> {
        Seq::new(
            n,
            |i: int| if i < self.vals_a@.len() {
                label_of(n, self.gates@[i].c)
            } else {
                (3 * root_of(n, i as nat)) % fr_order()
            },
        )
    }

    /// Compilation succeeds exactly on circuits that are nonempty, have
    /// their padding aligned, point every wire inside the padded domain,
    /// and whose rows all meet their constraint.
    pub open spec fn compilable(self) -> bool {
        &&& self.gates@.len() > 0
        &&& self.aligned()
        &&& self.positions_ok(self.padded_size())
        &&& self.identity_ok(self.padded_size())
    }

    pub fn new() -> (r: Circuit)
        ensures
            r.inv(),
            r.spec_gates().len() == 0,
            r.rows() == 0,
            r.spec_vals_b().len() == 0,
            r.spec_vals_c().len() == 0,
    {
        Circuit { gates: Vec::new(), vals_a: Vec::new(), vals_b: Vec::new(), vals_c: Vec::new() }
    }

    /// Append one wire value per column and the freshly built gate.
    fn push_gate(&mut self, g: Gate, av: Fe, bv: Fe, cv: Fe)
        requires
            old(self).inv(),
            g.wf(),
            av.wf(),
            bv.wf(),
            cv.wf(),
        ensures
            final(self).inv(),
            final(self).spec_gates() == old(self).spec_gates().push(g),
            final(self).spec_vals_a() == old(self).spec_vals_a().push(av),
            final(self).spec_vals_b() == old(self).spec_vals_b().push(bv),
            final(self).spec_vals_c() == old(self).spec_vals_c().push(cv),
    {
        self.vals_a.push(av);
        self.vals_b.push(bv);
        self.vals_c.push(cv);
        self.gates.push(g);
    }

    /// Add a gate enforcing a + b = c (with the public-input term pi):
    /// each argument is a `(column, row, value)` triple naming the slot the
    /// wire is declared copy-equal to and the value it carries.
    pub fn add_addition_gate(
        &mut self,
        a: (usize, usize, Fe),
        b: (usize, usize, Fe),
        c: (usize, usize, Fe),
        pi: Fe,
    )
        requires
            old(self).inv(),
            a.2.wf(),
            b.2.wf(),
            c.2.wf(),
            pi.wf(),
        ensures
            final(self).inv(),
            final(self).spec_vals_a() == old(self).spec_vals_a().push(a.2),
            final(self).spec_vals_b() == old(self).spec_vals_b().push(b.2),
            final(self).spec_vals_c() == old(self).spec_vals_c().push(c.2),
            final(self).spec_gates().len() == old(self).spec_gates().len() + 1,
            final(self).spec_gates().drop_last() == old(self).spec_gates(),
            ({
                let g = final(self).spec_gates().last();
                g.kind == GateKind::Addition && g.q_l@ == 1 && g.q_r@ == 1 && g.q_m@ == 0
                    && g.q_o@ == fr_order() - 1 && g.q_c@ == 0 && g.pi@ == pi@
                    && g.a == Position::from_indices_spec(a.0 as nat, a.1 as nat)
                    && g.b == Position::from_indices_spec(b.0 as nat, b.1 as nat)
                    && g.c == Position::from_indices_spec(c.0 as nat, c.1 as nat)
            }),
    {
        let g = Gate::new_add_gate(
            Position::from_indices(a.0, a.1),
            Position::from_indices(b.0, b.1),
            Position::from_indices(c.0, c.1),
            Some(pi),
        );
        self.push_gate(g, a.2, b.2, c.2);
        proof {
            assert(self.gates@.drop_last() =~= old(self).gates@);
        }
    }

    /// Add a gate enforcing a · b = c (with the public-input term pi).
    pub fn add_multiplication_gate(
        &mut self,
        a: (usize, usize, Fe),
        b: (usize, usize, Fe),
        c: (usize, usize, Fe),
        pi: Fe,
    )
        requires
            old(self).inv(),
            a.2.wf(),
            b.2.wf(),
            c.2.wf(),
            pi.wf(),
        ensures
            final(self).inv(),
            final(self).spec_vals_a() == old(self).spec_vals_a().push(a.2),
            final(self).spec_vals_b() == old(self).spec_vals_b().push(b.2),
            final(self).spec_vals_c() == old(self).spec_vals_c().push(c.2),
            final(self).spec_gates().len() == old(self).spec_gates().len() + 1,
            final(self).spec_gates().drop_last() == old(self).spec_gates(),
            ({
                let g = final(self).spec_gates().last();
                g.kind == GateKind::Multiplication && g.q_l@ == 0 && g.q_r@ == 0 && g.q_m@ == 1
                    && g.q_o@ == fr_order() - 1 && g.q_c@ == 0 && g.pi@ == pi@
                    && g.a == Position::from_indices_spec(a.0 as nat, a.1 as nat)
                    && g.b == Position::from_indices_spec(b.0 as nat, b.1 as nat)
                    && g.c == Position::from_indices_spec(c.0 as nat, c.1 as nat)
            }),
    {
        let g = Gate::new_mult_gate(
            Position::from_indices(a.0, a.1),
            Position::from_indices(b.0, b.1),
            Position::from_indices(c.0, c.1),
            Some(pi),
        );
        self.push_gate(g, a.2, b.2, c.2);
        proof {
            assert(self.gates@.drop_last() =~= old(self).gates@);
        }
    }

    /// Add a gate pinning the a wire to a constant: the addition base with
    /// q_C set to the negated a value.
    pub fn add_constant_gate(
        &mut self,
        a: (usize, usize, Fe),
        b: (usize, usize, Fe),
        c: (usize, usize, Fe),
        pi: Fe,
    )
        requires
            old(self).inv(),
            a.2.wf(),
            b.2.wf(),
            c.2.wf(),
            pi.wf(),
        ensures
            final(self).inv(),
            final(self).spec_vals_a() == old(self).spec_vals_a().push(a.2),
            final(self).spec_vals_b() == old(self).spec_vals_b().push(b.2),
            final(self).spec_vals_c() == old(self).spec_vals_c().push(c.2),
            final(self).spec_gates().len() == old(self).spec_gates().len() + 1,
            final(self).spec_gates().drop_last() == old(self).spec_gates(),
            ({
                let g = final(self).spec_gates().last();
                g.kind == GateKind::Constant && g.q_l@ == 1 && g.q_r@ == 1 && g.q_m@ == 0
                    && g.q_o@ == fr_order() - 1
                    && g.q_c@ == (fr_order() - a.2@) % (fr_order() as int) && g.pi@ == pi@
                    && g.a == Position::from_indices_spec(a.0 as nat, a.1 as nat)
                    && g.b == Position::from_indices_spec(b.0 as nat, b.1 as nat)
                    && g.c == Position::from_indices_spec(c.0 as nat, c.1 as nat)
            }),
    {
        let g = Gate::new_constant_gate(
            Position::from_indices(a.0, a.1),
            Position::from_indices(b.0, b.1),
            Position::from_indices(c.0, c.1),
            a.2,
            Some(pi),
        );
        self.push_gate(g, a.2, b.2, c.2);
        proof {
            assert(self.gates@.drop_last() =~= old(self).gates@);
        }
    }

    /// Append a zero-selector padding gate without touching the value
    /// columns.
    pub fn add_dummy_gate(&mut self)
        requires
            old(self).inv(),
        ensures
            final(self).inv(),
            final(self).spec_gates() == old(self).spec_gates().push(Gate::dummy_spec()),
            final(self).spec_vals_a() == old(self).spec_vals_a(),
            final(self).spec_vals_b() == old(self).spec_vals_b(),
            final(self).spec_vals_c() == old(self).spec_vals_c(),
    {
        let g = Gate::new_dummy_gate();
        self.gates.push(g);
    }

    /// The value recorded for column `col` (0 = A, 1 = B, 2 = C) at `row`,
    /// if one was recorded there.
    pub fn wire_value(&self, col: usize, row: usize) -> (r: Option<Fe>)
        ensures
            r == (if col == 0 && row < self.vals_a@.len() {
                Some(self.vals_a@[row as int])
            } else if col == 1 && row < self.vals_b@.len() {
                Some(self.vals_b@[row as int])
            } else if col == 2 && row < self.vals_c@.len() {
                Some(self.vals_c@[row as int])
            } else {
                None::<Fe>
            }),
    {
        if col == 0 && row < self.vals_a.len() {
            Some(self.vals_a[row])
        } else if col == 1 && row < self.vals_b.len() {
            Some(self.vals_b[row])
        } else if col == 2 && row < self.vals_c.len() {
            Some(self.vals_c[row])
        } else {
            None
        }
    }

    /// The nine assignment columns of the value-carrying rows, in
    /// insertion order: with only value-carrying gates present they are
    /// nine equal-length copies of exactly what was added.
    pub fn get_assignment(&self) -> (r: Assignment)
        requires
            self.inv(),
            self.aligned(),
        ensures
            r.a@ == self.spec_vals_a(),
            r.b@ == self.spec_vals_b(),
            r.c@ == self.spec_vals_c(),
            r.ql@.len() == self.rows() && r.qr@.len() == self.rows() && r.qm@.len() == self.rows()
                && r.qo@.len() == self.rows() && r.qc@.len() == self.rows() && r.pi@.len()
                == self.rows(),
            forall|i: int| 0 <= i < self.rows() ==> (#[trigger] r.ql@[i])
                == self.spec_gates()[i].q_l,
            forall|i: int| 0 <= i < self.rows() ==> (#[trigger] r.qr@[i])
                == self.spec_gates()[i].q_r,
            forall|i: int| 0 <= i < self.rows() ==> (#[trigger] r.qm@[i])
                == self.spec_gates()[i].q_m,
            forall|i: int| 0 <= i < self.rows() ==> (#[trigger] r.qo@[i])
                == self.spec_gates()[i].q_o,
            forall|i: int| 0 <= i < self.rows() ==> (#[trigger] r.qc@[i])
                == self.spec_gates()[i].q_c,
            forall|i: int| 0 <= i < self.rows() ==> (#[trigger] r.pi@[i])
                == self.spec_gates()[i].pi,
    {
        let mut a: Vec<Fe> = Vec::new();
        let mut b: Vec<Fe> = Vec::new();
        let mut c: Vec<Fe> = Vec::new();
        let mut ql: Vec<Fe> = Vec::new();
        let mut qr: Vec<Fe> = Vec::new();
        let mut qm: Vec<Fe> = Vec::new();
        let mut qo: Vec<Fe> = Vec::new();
        let mut qc: Vec<Fe> = Vec::new();
        let mut pi: Vec<Fe> = Vec::new();
        let mut i: usize = 0;
        while i < self.vals_a.len()
            invariant
                self.inv(),
                self.aligned(),
                i <= self.vals_a@.len(),
                a@ == self.vals_a@.subrange(0, i as int),
                b@ == self.vals_b@.subrange(0, i as int),
                c@ == self.vals_c@.subrange(0, i as int),
                ql@.len() == i && qr@.len() == i && qm@.len() == i && qo@.len() == i && qc@.len()
                    == i && pi@.len() == i,
                forall|j: int| 0 <= j < i ==> (#[trigger] ql@[j]) == self.gates@[j].q_l,
                forall|j: int| 0 <= j < i ==> (#[trigger] qr@[j]) == self.gates@[j].q_r,
                forall|j: int| 0 <= j < i ==> (#[trigger] qm@[j]) == self.gates@[j].q_m,
                forall|j: int| 0 <= j < i ==> (#[trigger] qo@[j]) == self.gates@[j].q_o,
                forall|j: int| 0 <= j < i ==> (#[trigger] qc@[j]) == self.gates@[j].q_c,
                forall|j: int| 0 <= j < i ==> (#[trigger] pi@[j]) == self.gates@[j].pi,
            decreases self.vals_a@.len() - i,
        {
            a.push(self.vals_a[i]);
            b.push(self.vals_b[i]);
            c.push(self.vals_c[i]);
            let g = self.gates[i];
            ql.push(g.q_l);
            qr.push(g.q_r);
            qm.push(g.q_m);
            qo.push(g.q_o);
            qc.push(g.q_c);
            pi.push(g.pi);
            proof {
                assert(self.vals_a@.subrange(0, (i + 1) as int) =~= self.vals_a@.subrange(
                    0,
                    i as int,
                ).push(self.vals_a@[i as int]));
                assert(self.vals_b@.subrange(0, (i + 1) as int) =~= self.vals_b@.subrange(
                    0,
                    i as int,
                ).push(self.vals_b@[i as int]));
                assert(self.vals_c@.subrange(0, (i + 1) as int) =~= self.vals_c@.subrange(
                    0,
                    i as int,
                ).push(self.vals_c@[i as int]));
            }
            i = i + 1;
        }
        proof {
            assert(a@ =~= self.vals_a@);
            assert(b@ =~= self.vals_b@);
            assert(c@ =~= self.vals_c@);
        }
        Assignment { a, b, c, ql, qr, qm, qo, qc, pi }
    }

    /// The two cosets labelling the B and C wire columns of a size-`len`
    /// domain, with their scalars k1 = 2 and k2 = 3 (the domain's first
    /// element, 1, plus one and plus two).
    pub fn find_cosets(&self, len: usize) -> (r: (Vec<Fe>, Vec<Fe>, Fe, Fe))
        requires
            1 <= len <= 0x8000_0000,
            is_pow2(len as nat),
        ensures
            r.0@.len() == len && all_wf(r.0@),
            r.1@.len() == len && all_wf(r.1@),
            forall|i: int| 0 <= i < len ==> (#[trigger] r.0@[i])@ == (2 * root_of(
                len as nat,
                i as nat,
            )) % fr_order(),
            forall|i: int| 0 <= i < len ==> (#[trigger] r.1@[i])@ == (3 * root_of(
                len as nat,
                i as nat,
            )) % fr_order(),
            r.2.wf() && r.2@ == 2,
            r.3.wf() && r.3@ == 3,
    {
        let roots = domain_elements(len);
        let one = Fe::from_u64(1);
        let k1 = fe_add(&roots[0], &one);
        let k2 = fe_add(&k1, &one);
        proof {
            assert(root_of(len as nat, 0) == 1);
            lemma_small_mod(2, fr_order());
            lemma_small_mod(3, fr_order());
        }
        let mut coset1: Vec<Fe> = Vec::new();
        let mut coset2: Vec<Fe> = Vec::new();
        let mut i: usize = 0;
        while i < len
            invariant
                1 <= len <= 0x8000_0000,
                is_pow2(len as nat),
                i <= len,
                k1.wf() && k1@ == 2,
                k2.wf() && k2@ == 3,
                roots@.len() == len && all_wf(roots@),
                forall|j: int| 0 <= j < len ==> (#[trigger] roots@[j])@ == root_of(
                    len as nat,
                    j as nat,
                ),
                coset1@.len() == i && all_wf(coset1@),
                coset2@.len() == i && all_wf(coset2@),
                forall|j: int| 0 <= j < i ==> (#[trigger] coset1@[j])@ == (2 * root_of(
                    len as nat,
                    j as nat,
                )) % fr_order(),
                forall|j: int| 0 <= j < i ==> (#[trigger] coset2@[j])@ == (3 * root_of(
                    len as nat,
                    j as nat,
                )) % fr_order(),
            decreases len - i,
        {
            coset1.push(fe_mul(&roots[i], &k1));
            coset2.push(fe_mul(&roots[i], &k2));
            i = i + 1;
        }
        (coset1, coset2, k1, k2)
    }

    /// The label the position's own target slot carries, read off the
    /// precomputed domain and coset columns.
    fn lookup_label(p: &Position, roots: &Vec<Fe>, coset1: &Vec<Fe>, coset2: &Vec<Fe>) -> (r: Fe)
        requires
            coset1@.len() == roots@.len(),
            coset2@.len() == roots@.len(),
            all_wf(roots@) && all_wf(coset1@) && all_wf(coset2@),
            p.row_spec() < roots@.len(),
            forall|j: int| 0 <= j < roots@.len() ==> (#[trigger] roots@[j])@ == root_of(
                roots@.len() as nat,
                j as nat,
            ),
            forall|j: int| 0 <= j < roots@.len() ==> (#[trigger] coset1@[j])@ == (2 * root_of(
                roots@.len() as nat,
                j as nat,
            )) % fr_order(),
            forall|j: int| 0 <= j < roots@.len() ==> (#[trigger] coset2@[j])@ == (3 * root_of(
                roots@.len() as nat,
                j as nat,
            )) % fr_order(),
        ensures
            r.wf(),
            r@ == label_of(roots@.len() as nat, *p),
    {
        match p {
            Position::ColumnA(j) => roots[*j],
            Position::ColumnB(j) => coset1[*j],
            Position::ColumnC(j) => coset2[*j],
        }
    }

    /// Derive the three copy-constraint polynomials: every slot starts
    /// wired to itself, each value-carrying gate overwrites its row with
    /// the labels of its three declared partner slots, and the label
    /// columns are interpolated over the domain.
    fn cal_permutation(&self) -> (r: CopyConstraints)
        requires
            self.inv(),
            self.aligned(),
            1 <= self.gates@.len() <= 0x8000_0000,
            is_pow2(self.gates@.len() as nat),
            self.positions_ok(self.gates@.len() as nat),
        ensures
            r.wf(),
            r.k1@ == 2 && r.k2@ == 3,
            fe_vals(r.sigma_1@) == interp_of(
                self.sigma1_evals(self.gates@.len() as nat),
                self.gates@.len() as nat,
            ),
            fe_vals(r.sigma_2@) == interp_of(
                self.sigma2_evals(self.gates@.len() as nat),
                self.gates@.len() as nat,
            ),
            fe_vals(r.sigma_3@) == interp_of(
                self.sigma3_evals(self.gates@.len() as nat),
                self.gates@.len() as nat,
            ),
            forall|i: int| 0 <= i < self.gates@.len() ==> poly_eval(
                fe_vals(r.sigma_1@),
                #[trigger] root_of(self.gates@.len() as nat, i as nat),
            ) == self.sigma1_evals(self.gates@.len() as nat)[i],
            forall|i: int| 0 <= i < self.gates@.len() ==> poly_eval(
                fe_vals(r.sigma_2@),
                #[trigger] root_of(self.gates@.len() as nat, i as nat),
            ) == self.sigma2_evals(self.gates@.len() as nat)[i],
            forall|i: int| 0 <= i < self.gates@.len() ==> poly_eval(
                fe_vals(r.sigma_3@),
                #[trigger] root_of(self.gates@.len() as nat, i as nat),
            ) == self.sigma3_evals(self.gates@.len() as nat)[i],
    {
        let n = self.gates.len();
        let roots = domain_elements(n);
        let cosets = self.find_cosets(n);
        let coset1 = cosets.0;
        let coset2 = cosets.1;
        let k1 = cosets.2;
        let k2 = cosets.3;
        let mut s1: Vec<Fe> = Vec::new();
        let mut s2: Vec<Fe> = Vec::new();
        let mut s3: Vec<Fe> = Vec::new();
        let mut i: usize = 0;
        while i < n
            invariant
                self.inv(),
                self.aligned(),
                1 <= n <= 0x8000_0000,
                n == self.gates@.len(),
                is_pow2(n as nat),
                self.positions_ok(n as nat),
                i <= n,
                roots@.len() == n && all_wf(roots@),
                coset1@.len() == n && all_wf(coset1@),
                coset2@.len() == n && all_wf(coset2@),
                forall|j: int| 0 <= j < n ==> (#[trigger] roots@[j])@ == root_of(
                    n as nat,
                    j as nat,
                ),
                forall|j: int| 0 <= j < n ==> (#[trigger] coset1@[j])@ == (2 * root_of(
                    n as nat,
                    j as nat,
                )) % fr_order(),
                forall|j: int| 0 <= j < n ==> (#[trigger] coset2@[j])@ == (3 * root_of(
                    n as nat,
                    j as nat,
                )) % fr_order(),
                s1@.len() == i && all_wf(s1@),
                s2@.len() == i && all_wf(s2@),
                s3@.len() == i && all_wf(s3@),
                forall|j: int| 0 <= j < i ==> (#[trigger] s1@[j])@ == self.sigma1_evals(
                    n as nat,
                )[j],
                forall|j: int| 0 <= j < i ==> (#[trigger] s2@[j])@ == self.sigma2_evals(
                    n as nat,
                )[j],
                forall|j: int| 0 <= j < i ==> (#[trigger] s3@[j])@ == self.sigma3_evals(
                    n as nat,
                )[j],
            decreases n - i,
        {
            if i < self.vals_a.len() {
                let g = self.gates[i];
                s1.push(Self::lookup_label(&g.a, &roots, &coset1, &coset2));
                s2.push(Self::lookup_label(&g.b, &roots, &coset1, &coset2));
                s3.push(Self::lookup_label(&g.c, &roots, &coset1, &coset2));
            } else {
                s1.push(roots[i]);
                s2.push(coset1[i]);
                s3.push(coset2[i]);
            }
            i = i + 1;
        }
        proof {
            assert(fe_vals(s1@) =~= self.sigma1_evals(n as nat));
            assert(fe_vals(s2@) =~= self.sigma2_evals(n as nat));
            assert(fe_vals(s3@) =~= self.sigma3_evals(n as nat));
        }
        let p1 = interpolate(&s1, n);
        let p2 = interpolate(&s2, n);
        let p3 = interpolate(&s3, n);
        CopyConstraints::new(p1, p2, p3, k1, k2)
    }

    /// Round the number of gates up to the next power of two by
    /// appending inert padding.
    fn pad_circuit(&mut self)
        requires
            old(self).inv(),
            1 <= old(self).gates@.len() <= 0x4000_0000,
        ensures
            final(self).inv(),
            final(self).spec_vals_a() == old(self).spec_vals_a(),
            final(self).spec_vals_b() == old(self).spec_vals_b(),
            final(self).spec_vals_c() == old(self).spec_vals_c(),
            final(self).gates@.len() == old(self).padded_size(),
            final(self).gates@.subrange(0, old(self).gates@.len() as int)
                == old(self).spec_gates(),
            forall|i: int| old(self).gates@.len() <= i < final(self).gates@.len()
                ==> final(self).gates@[i] == Gate::dummy_spec(),
    {
        let n = compute_next_pow2(self.gates.len());
        let ghost orig = *self;
        while self.gates.len() < n
            invariant
                self.inv(),
                orig.gates@.len() <= self.gates@.len() <= n,
                n == orig.padded_size(),
                self.vals_a@ == orig.vals_a@,
                self.vals_b@ == orig.vals_b@,
                self.vals_c@ == orig.vals_c@,
                self.gates@.subrange(0, orig.gates@.len() as int) == orig.gates@,
                forall|i: int| orig.gates@.len() <= i < self.gates@.len() ==> self.gates@[i]
                    == Gate::dummy_spec(),
            decreases n - self.gates@.len(),
        {
            self.add_dummy_gate();
            proof {
                assert(self.gates@.subrange(0, orig.gates@.len() as int) =~= orig.gates@);
            }
        }
    }

    /// Whether the padding is aligned: parallel value columns, and the
    /// dummy gates exactly the suffix past them.
    fn check_aligned(&self) -> (r: bool)
        ensures
            r == self.aligned(),
    {
        if self.vals_b.len() != self.vals_a.len() || self.vals_c.len() != self.vals_a.len() {
            return false;
        }
        if self.vals_a.len() > self.gates.len() {
            return false;
        }
        let mut i: usize = 0;
        while i < self.gates.len()
            invariant
                i <= self.gates@.len(),
                self.vals_b@.len() == self.vals_a@.len(),
                self.vals_c@.len() == self.vals_a@.len(),
                self.vals_a@.len() <= self.gates@.len(),
                forall|j: int| 0 <= j < i ==> (((#[trigger] self.gates@[j]).kind
                    == GateKind::Dummy) <==> j >= self.vals_a@.len()),
            decreases self.gates@.len() - i,
        {
            if self.gates[i].is_dummy_gate() != (i >= self.vals_a.len()) {
                return false;
            }
            i = i + 1;
        }
        true
    }

    /// Whether every declared wire position points inside the first n
    /// rows.
    fn check_positions(&self, n: usize) -> (r: bool)
        requires
            self.vals_a@.len() <= self.gates@.len(),
        ensures
            r == self.positions_ok(n as nat),
    {
        let mut i: usize = 0;
        while i < self.vals_a.len()
            invariant
                i <= self.vals_a@.len(),
                self.vals_a@.len() <= self.gates@.len(),
                forall|j: int| 0 <= j < i ==> (#[trigger] self.gates@[j]).a.row_spec() < n
                    && self.gates@[j].b.row_spec() < n && self.gates@[j].c.row_spec() < n,
            decreases self.vals_a@.len() - i,
        {
            let g = self.gates[i];
            if g.get_a_wire().row() >= n || g.get_b_wire().row() >= n || g.get_c_wire().row() >= n {
                return false;
            }
            i = i + 1;
        }
        true
    }

    /// Compile the circuit: pad to a power-of-two row count, bring the
    /// nine columns into coefficient form, verify every row's constraint,
    /// derive the copy constraints, and bundle with a fresh SRS. Succeeds
    /// exactly on `compilable` circuits and names which rule a rejected
    /// circuit broke.
    #[verifier::rlimit(100)]
    pub fn compile_circuit(self) -> (r: Result<CompiledCircuit, CircuitError>)
        requires
            self.inv(),
            self.gates@.len() <= 0x4000_0000,
        ensures
            (r is Ok) == self.compilable(),
            (r == Result::<CompiledCircuit, CircuitError>::Err(CircuitError::DegenerateCircuit))
                == (self.gates@.len() == 0),
            (r == Result::<CompiledCircuit, CircuitError>::Err(CircuitError::StructuralError)) == (
            self.gates@.len() > 0 && !(self.aligned() && self.positions_ok(self.padded_size()))),
            (r == Result::<CompiledCircuit, CircuitError>::Err(CircuitError::ConstraintViolation))
                == (self.gates@.len() > 0 && self.aligned() && self.positions_ok(
                self.padded_size(),
            ) && !self.identity_ok(self.padded_size())),
            r matches Result::Ok(cc) ==> compiled_models(cc, self),
    {
        if self.gates.len() == 0 {
            return Err(CircuitError::DegenerateCircuit);
        }
        if !self.check_aligned() {
            return Err(CircuitError::StructuralError);
        }
        let n = compute_next_pow2(self.gates.len());
        if !self.check_positions(n) {
            return Err(CircuitError::StructuralError);
        }
        let ghost orig = self;
        let mut c = self;
        c.pad_circuit();
        proof {
            assert forall|j: int| 0 <= j < c.gates@.len() implies (((#[trigger] c.gates@[j]).kind
                == GateKind::Dummy) <==> j >= c.vals_a@.len()) by {
                if j < orig.gates@.len() {
                    assert(c.gates@[j] == c.gates@.subrange(0, orig.gates@.len() as int)[j]);
                } else {
                    assert(c.gates@[j] == Gate::dummy_spec());
                }
            }
            assert(c.aligned());
            assert forall|j: int|
                0 <= j < c.vals_a@.len() implies (#[trigger] c.gates@[j]).a.row_spec() < n
                && c.gates@[j].b.row_spec() < n && c.gates@[j].c.row_spec() < n by {
                assert(c.gates@[j] == c.gates@.subrange(0, orig.gates@.len() as int)[j]);
                assert(c.gates@[j] == orig.gates@[j]);
            }
            assert(c.positions_ok(n as nat));
            assert(c.rows() == orig.rows());
        }
        let asg = c.get_assignment();
        let ea = pad_zeros(asg.a, n);
        let eb = pad_zeros(asg.b, n);
        let ec = pad_zeros(asg.c, n);
        let eql = pad_zeros(asg.ql, n);
        let eqr = pad_zeros(asg.qr, n);
        let eqm = pad_zeros(asg.qm, n);
        let eqo = pad_zeros(asg.qo, n);
        let eqc = pad_zeros(asg.qc, n);
        let epi = pad_zeros(asg.pi, n);
        proof {
            assert(fe_vals(ea@) =~= orig.a_evals(n as nat));
            assert(fe_vals(eb@) =~= orig.b_evals(n as nat));
            assert(fe_vals(ec@) =~= orig.c_evals(n as nat));
            assert(fe_vals(eql@) =~= orig.ql_evals(n as nat));
            assert(fe_vals(eqr@) =~= orig.qr_evals(n as nat));
            assert(fe_vals(eqm@) =~= orig.qm_evals(n as nat));
            assert(fe_vals(eqo@) =~= orig.qo_evals(n as nat));
            assert(fe_vals(eqc@) =~= orig.qc_evals(n as nat));
            assert(fe_vals(epi@) =~= orig.pi_evals(n as nat));
        }
        let identity_holds = check_identity_all(
            &ea,
            &eb,
            &ec,
            &eql,
            &eqr,
            &eqm,
            &eqo,
            &eqc,
            &epi,
            n,
            Ghost(orig),
        );
        if !identity_holds {
            return Err(CircuitError::ConstraintViolation);
        }
        let fa = interpolate(&ea, n);
        let fb = interpolate(&eb, n);
        let fc = interpolate(&ec, n);
        let fql = interpolate(&eql, n);
        let fqr = interpolate(&eqr, n);
        let fqm = interpolate(&eqm, n);
        let fqo = interpolate(&eqo, n);
        let fqc = interpolate(&eqc, n);
        let fpi = interpolate(&epi, n);
        let gate_constraints = GateConstraints::new(fa, fb, fc, fql, fqr, fqo, fqm, fqc, fpi);
        proof {
            assert(c.sigma1_evals(n as nat) =~= orig.sigma1_evals(n as nat));
            assert(c.sigma2_evals(n as nat) =~= orig.sigma2_evals(n as nat));
            assert(c.sigma3_evals(n as nat) =~= orig.sigma3_evals(n as nat));
        }
        let copy_constraints = c.cal_permutation();
        let domain = Domain::build(n);
        let srs = Setup::random(n);
        let out = CompiledCircuit { gate_constraints, copy_constraints, srs, domain, gate_count: n };
        proof {
            assert forall|j: int| 0 <= j < n implies #[trigger] gate_eq(
                poly_eval(fe_vals(out.gate_constraints.f_a@), root_of(n as nat, j as nat)),
                poly_eval(fe_vals(out.gate_constraints.f_b@), root_of(n as nat, j as nat)),
                poly_eval(fe_vals(out.gate_constraints.f_c@), root_of(n as nat, j as nat)),
                poly_eval(fe_vals(out.gate_constraints.q_l@), root_of(n as nat, j as nat)),
                poly_eval(fe_vals(out.gate_constraints.q_r@), root_of(n as nat, j as nat)),
                poly_eval(fe_vals(out.gate_constraints.q_m@), root_of(n as nat, j as nat)),
                poly_eval(fe_vals(out.gate_constraints.q_o@), root_of(n as nat, j as nat)),
                poly_eval(fe_vals(out.gate_constraints.q_c@), root_of(n as nat, j as nat)),
                poly_eval(fe_vals(out.gate_constraints.pi@), root_of(n as nat, j as nat)),
            ) by {
                assert(gate_eq(
                    orig.a_evals(n as nat)[j],
                    orig.b_evals(n as nat)[j],
                    orig.c_evals(n as nat)[j],
                    orig.ql_evals(n as nat)[j],
                    orig.qr_evals(n as nat)[j],
                    orig.qm_evals(n as nat)[j],
                    orig.qo_evals(n as nat)[j],
                    orig.qc_evals(n as nat)[j],
                    orig.pi_evals(n as nat)[j],
                ));
            }
        }
        Ok(out)
    }
}

/// What a successful compilation promises of its output, as a function of
/// the circuit it consumed: domain sized by padding, every constraint
/// polynomial the interpolation of its assignment column, the sigma
/// polynomials hitting each slot's partner label at the slot's root, the
/// coset scalars 2 and 3, and no root escaping the row constraint.
pub open spec fn compiled_models(cc: CompiledCircuit, c: Circuit) -> bool {
    let n = c.padded_size();
    &&& cc.gate_count == n
    &&& cc.domain.wf() && cc.domain.size == n
    &&& cc.gate_constraints.wf() && cc.copy_constraints.wf()
    &&& fe_vals(cc.gate_constraints.f_a@) == interp_of(c.a_evals(n), n)
    &&& fe_vals(cc.gate_constraints.f_b@) == interp_of(c.b_evals(n), n)
    &&& fe_vals(cc.gate_constraints.f_c@) == interp_of(c.c_evals(n), n)
    &&& fe_vals(cc.gate_constraints.q_l@) == interp_of(c.ql_evals(n), n)
    &&& fe_vals(cc.gate_constraints.q_r@) == interp_of(c.qr_evals(n), n)
    &&& fe_vals(cc.gate_constraints.q_m@) == interp_of(c.qm_evals(n), n)
    &&& fe_vals(cc.gate_constraints.q_o@) == interp_of(c.qo_evals(n), n)
    &&& fe_vals(cc.gate_constraints.q_c@) == interp_of(c.qc_evals(n), n)
    &&& fe_vals(cc.gate_constraints.pi@) == interp_of(c.pi_evals(n), n)
    &&& fe_vals(cc.copy_constraints.sigma_1@) == interp_of(c.sigma1_evals(n), n)
    &&& fe_vals(cc.copy_constraints.sigma_2@) == interp_of(c.sigma2_evals(n), n)
    &&& fe_vals(cc.copy_constraints.sigma_3@) == interp_of(c.sigma3_evals(n), n)
    &&& cc.copy_constraints.k1@ == 2 && cc.copy_constraints.k2@ == 3
    &&& forall|i: int| 0 <= i < n ==> poly_eval(
        fe_vals(cc.gate_constraints.f_a@),
        #[trigger] root_of(n, i as nat),
    ) == c.a_evals(n)[i] && poly_eval(fe_vals(cc.gate_constraints.f_b@), root_of(n, i as nat))
        == c.b_evals(n)[i] && poly_eval(fe_vals(cc.gate_constraints.f_c@), root_of(n, i as nat))
        == c.c_evals(n)[i] && poly_eval(fe_vals(cc.gate_constraints.q_l@), root_of(n, i as nat))
        == c.ql_evals(n)[i] && poly_eval(fe_vals(cc.gate_constraints.q_r@), root_of(n, i as nat))
        == c.qr_evals(n)[i] && poly_eval(fe_vals(cc.gate_constraints.q_m@), root_of(n, i as nat))
        == c.qm_evals(n)[i] && poly_eval(fe_vals(cc.gate_constraints.q_o@), root_of(n, i as nat))
        == c.qo_evals(n)[i] && poly_eval(fe_vals(cc.gate_constraints.q_c@), root_of(n, i as nat))
        == c.qc_evals(n)[i] && poly_eval(fe_vals(cc.gate_constraints.pi@), root_of(n, i as nat))
        == c.pi_evals(n)[i]
    &&& forall|i: int| 0 <= i < n ==> poly_eval(
        fe_vals(cc.copy_constraints.sigma_1@),
        #[trigger] root_of(n, i as nat),
    ) == c.sigma1_evals(n)[i] && poly_eval(fe_vals(cc.copy_constraints.sigma_2@), root_of(
        n,
        i as nat,
    )) == c.sigma2_evals(n)[i] && poly_eval(fe_vals(cc.copy_constraints.sigma_3@), root_of(
        n,
        i as nat,
    )) == c.sigma3_evals(n)[i]
    &&& forall|i: int| 0 <= i < n ==> #[trigger] gate_eq(
        poly_eval(fe_vals(cc.gate_constraints.f_a@), root_of(n, i as nat)),
        poly_eval(fe_vals(cc.gate_constraints.f_b@), root_of(n, i as nat)),
        poly_eval(fe_vals(cc.gate_constraints.f_c@), root_of(n, i as nat)),
        poly_eval(fe_vals(cc.gate_constraints.q_l@), root_of(n, i as nat)),
        poly_eval(fe_vals(cc.gate_constraints.q_r@), root_of(n, i as nat)),
        poly_eval(fe_vals(cc.gate_constraints.q_m@), root_of(n, i as nat)),
        poly_eval(fe_vals(cc.gate_constraints.q_o@), root_of(n, i as nat)),
        poly_eval(fe_vals(cc.gate_constraints.q_c@), root_of(n, i as nat)),
        poly_eval(fe_vals(cc.gate_constraints.pi@), root_of(n, i as nat)),
    )
    &&& cc.srs.in_g1@.len() == n + 1
}

/// Law: compilation is a function of the circuit's contents. Two circuits
/// with identical gates and identical wire-value columns compile, SRS
/// randomness aside, to bit-identical gate constraints and copy
/// constraints.
pub proof fn lemma_compile_deterministic(
    c1: Circuit,
    c2: Circuit,
    cc1: CompiledCircuit,
    cc2: CompiledCircuit,
)
    requires
        c1.spec_gates() == c2.spec_gates(),
        c1.spec_vals_a() == c2.spec_vals_a(),
        c1.spec_vals_b() == c2.spec_vals_b(),
        c1.spec_vals_c() == c2.spec_vals_c(),
        compiled_models(cc1, c1),
        compiled_models(cc2, c2),
    ensures
        cc1.gate_constraints.f_a@ == cc2.gate_constraints.f_a@,
        cc1.gate_constraints.f_b@ == cc2.gate_constraints.f_b@,
        cc1.gate_constraints.f_c@ == cc2.gate_constraints.f_c@,
        cc1.gate_constraints.q_l@ == cc2.gate_constraints.q_l@,
        cc1.gate_constraints.q_r@ == cc2.gate_constraints.q_r@,
        cc1.gate_constraints.q_m@ == cc2.gate_constraints.q_m@,
        cc1.gate_constraints.q_o@ == cc2.gate_constraints.q_o@,
        cc1.gate_constraints.q_c@ == cc2.gate_constraints.q_c@,
        cc1.gate_constraints.pi@ == cc2.gate_constraints.pi@,
        cc1.copy_constraints.sigma_1@ == cc2.copy_constraints.sigma_1@,
        cc1.copy_constraints.sigma_2@ == cc2.copy_constraints.sigma_2@,
        cc1.copy_constraints.sigma_3@ == cc2.copy_constraints.sigma_3@,
        cc1.copy_constraints.k1@ == cc2.copy_constraints.k1@,
        cc1.copy_constraints.k2@ == cc2.copy_constraints.k2@,
        cc1.gate_count == cc2.gate_count,
{
    let n = c1.padded_size();
    assert(c2.padded_size() == n);
    assert(c1.a_evals(n) =~= c2.a_evals(n));
    assert(c1.b_evals(n) =~= c2.b_evals(n));
    assert(c1.c_evals(n) =~= c2.c_evals(n));
    assert(c1.ql_evals(n) =~= c2.ql_evals(n));
    assert(c1.qr_evals(n) =~= c2.qr_evals(n));
    assert(c1.qm_evals(n) =~= c2.qm_evals(n));
    assert(c1.qo_evals(n) =~= c2.qo_evals(n));
    assert(c1.qc_evals(n) =~= c2.qc_evals(n));
    assert(c1.pi_evals(n) =~= c2.pi_evals(n));
    assert(c1.sigma1_evals(n) =~= c2.sigma1_evals(n));
    assert(c1.sigma2_evals(n) =~= c2.sigma2_evals(n));
    assert(c1.sigma3_evals(n) =~= c2.sigma3_evals(n));
    lemma_same_vals_same_fes(cc1.gate_constraints.f_a@, cc2.gate_constraints.f_a@);
    lemma_same_vals_same_fes(cc1.gate_constraints.f_b@, cc2.gate_constraints.f_b@);
    lemma_same_vals_same_fes(cc1.gate_constraints.f_c@, cc2.gate_constraints.f_c@);
    lemma_same_vals_same_fes(cc1.gate_constraints.q_l@, cc2.gate_constraints.q_l@);
    lemma_same_vals_same_fes(cc1.gate_constraints.q_r@, cc2.gate_constraints.q_r@);
    lemma_same_vals_same_fes(cc1.gate_constraints.q_m@, cc2.gate_constraints.q_m@);
    lemma_same_vals_same_fes(cc1.gate_constraints.q_o@, cc2.gate_constraints.q_o@);
    lemma_same_vals_same_fes(cc1.gate_constraints.q_c@, cc2.gate_constraints.q_c@);
    lemma_same_vals_same_fes(cc1.gate_constraints.pi@, cc2.gate_constraints.pi@);
    lemma_same_vals_same_fes(cc1.copy_constraints.sigma_1@, cc2.copy_constraints.sigma_1@);
    lemma_same_vals_same_fes(cc1.copy_constraints.sigma_2@, cc2.copy_constraints.sigma_2@);
    lemma_same_vals_same_fes(cc1.copy_constraints.sigma_3@, cc2.copy_constraints.sigma_3@);
    crate::field::lemma_fe_view_injective(cc1.copy_constraints.k1, cc2.copy_constraints.k1);
    crate::field::lemma_fe_view_injective(cc1.copy_constraints.k2, cc2.copy_constraints.k2);
}

/// Sequences of well-formed elements spelling the same residues are equal.
proof fn lemma_same_vals_same_fes(x: Seq<Fe>, y: Seq<Fe>)
    requires
        fe_vals(x) == fe_vals(y),
    ensures
        x == y,
{
    assert(x.len() == y.len()) by {
        assert(fe_vals(x).len() == x.len());
        assert(fe_vals(y).len() == y.len());
    }
    assert forall|i: int| 0 <= i < x.len() implies x[i] == y[i] by {
        assert(fe_vals(x)[i] == x[i]@);
        assert(fe_vals(y)[i] == y[i]@);
        crate::field::lemma_fe_view_injective(x[i], y[i]);
    }
    assert(x =~= y);
}

/// The smallest power of two at or above g, computed by doubling.
pub(crate) fn compute_next_pow2(g: usize) -> (n: usize)
    requires
        1 <= g <= 0x4000_0000,
    ensures
        n == next_pow2(g as nat),
        g <= n,
        n < 2 * g,
        is_pow2(n as nat),
{
    let mut n: usize = 1;
    while n < g
        invariant
            1 <= g <= 0x4000_0000,
            1 <= n,
            n < 2 * g,
            is_pow2(n as nat),
            next_pow2_from(n as nat, g as nat) == next_pow2(g as nat),
        decreases (if n <= g { g - n } else { 0 }),
    {
        proof {
            assert(next_pow2_from(n as nat, g as nat) == next_pow2_from((n * 2) as nat, g as nat));
            assert(is_pow2((n * 2) as nat));
        }
        n = n * 2;
    }
    n
}

/// Extend a column to length n with zero elements.
fn pad_zeros(v: Vec<Fe>, n: usize) -> (r: Vec<Fe>)
    requires
        v@.len() <= n,
        all_wf(v@),
    ensures
        r@.len() == n,
        all_wf(r@),
        forall|i: int| 0 <= i < v@.len() ==> r@[i] == v@[i],
        forall|i: int| v@.len() <= i < n ==> (#[trigger] r@[i])@ == 0,
{
    let ghost orig = v@;
    let mut r = v;
    while r.len() < n
        invariant
            orig.len() <= r@.len() <= n,
            all_wf(r@),
            forall|i: int| 0 <= i < orig.len() ==> r@[i] == orig[i],
            forall|i: int| orig.len() <= i < r@.len() ==> (#[trigger] r@[i])@ == 0,
        decreases n - r@.len(),
    {
        r.push(Fe::from_u64(0));
    }
    r
}

/// Whether one row of residues meets the row constraint.
fn identity_row(
    a: &Fe,
    b: &Fe,
    c: &Fe,
    ql: &Fe,
    qr: &Fe,
    qm: &Fe,
    qo: &Fe,
    qc: &Fe,
    pi: &Fe,
) -> (r: bool)
    requires
        a.wf() && b.wf() && c.wf() && ql.wf() && qr.wf() && qm.wf() && qo.wf() && qc.wf()
            && pi.wf(),
    ensures
        r == gate_eq(a@, b@, c@, ql@, qr@, qm@, qo@, qc@, pi@),
{
    let t1 = fe_mul(&fe_mul(a, b), qm);
    let t2 = fe_mul(a, ql);
    let t3 = fe_mul(b, qr);
    let t4 = fe_mul(qo, c);
    let s1 = fe_add(&t1, &t2);
    let s2 = fe_add(&s1, &t3);
    let s3 = fe_add(&s2, &t4);
    let s4 = fe_add(&s3, qc);
    let s5 = fe_add(&s4, pi);
    proof {
        let m = fr_order() as int;
        lemma_mul_mod_noop_left((a@ * b@) as int, qm@ as int, m);
        lemma_add_mod_noop((a@ * b@ * qm@) as int, (a@ * ql@) as int, m);
        lemma_add_mod_noop((a@ * b@ * qm@ + a@ * ql@) as int, (b@ * qr@) as int, m);
        lemma_add_mod_noop((a@ * b@ * qm@ + a@ * ql@ + b@ * qr@) as int, (qo@ * c@) as int, m);
        lemma_small_mod(qc@, fr_order());
        lemma_add_mod_noop((a@ * b@ * qm@ + a@ * ql@ + b@ * qr@ + qo@ * c@) as int, qc@ as int, m);
        lemma_small_mod(pi@, fr_order());
        lemma_add_mod_noop(
            (a@ * b@ * qm@ + a@ * ql@ + b@ * qr@ + qo@ * c@ + qc@) as int,
            pi@ as int,
            m,
        );
        assert(s5@ == (a@ * b@ * qm@ + a@ * ql@ + b@ * qr@ + qo@ * c@ + qc@ + pi@) % fr_order());
    }
    s5.l0 == 0 && s5.l1 == 0 && s5.l2 == 0 && s5.l3 == 0
}

/// Whether all rows of the padded columns, which spell the evaluation
/// columns of `target`, meet the row constraint.
fn check_identity_all(
    ea: &Vec<Fe>,
    eb: &Vec<Fe>,
    ec: &Vec<Fe>,
    eql: &Vec<Fe>,
    eqr: &Vec<Fe>,
    eqm: &Vec<Fe>,
    eqo: &Vec<Fe>,
    eqc: &Vec<Fe>,
    epi: &Vec<Fe>,
    n: usize,
    Ghost(target): Ghost<Circuit>,
) -> (r: bool)
    requires
        ea@.len() == n && all_wf(ea@) && fe_vals(ea@) == target.a_evals(n as nat),
        eb@.len() == n && all_wf(eb@) && fe_vals(eb@) == target.b_evals(n as nat),
        ec@.len() == n && all_wf(ec@) && fe_vals(ec@) == target.c_evals(n as nat),
        eql@.len() == n && all_wf(eql@) && fe_vals(eql@) == target.ql_evals(n as nat),
        eqr@.len() == n && all_wf(eqr@) && fe_vals(eqr@) == target.qr_evals(n as nat),
        eqm@.len() == n && all_wf(eqm@) && fe_vals(eqm@) == target.qm_evals(n as nat),
        eqo@.len() == n && all_wf(eqo@) && fe_vals(eqo@) == target.qo_evals(n as nat),
        eqc@.len() == n && all_wf(eqc@) && fe_vals(eqc@) == target.qc_evals(n as nat),
        epi@.len() == n && all_wf(epi@) && fe_vals(epi@) == target.pi_evals(n as nat),
    ensures
        r == target.identity_ok(n as nat),
{
    let mut i: usize = 0;
    while i < n
        invariant
            ea@.len() == n && all_wf(ea@) && fe_vals(ea@) == target.a_evals(n as nat),
            eb@.len() == n && all_wf(eb@) && fe_vals(eb@) == target.b_evals(n as nat),
            ec@.len() == n && all_wf(ec@) && fe_vals(ec@) == target.c_evals(n as nat),
            eql@.len() == n && all_wf(eql@) && fe_vals(eql@) == target.ql_evals(n as nat),
            eqr@.len() == n && all_wf(eqr@) && fe_vals(eqr@) == target.qr_evals(n as nat),
            eqm@.len() == n && all_wf(eqm@) && fe_vals(eqm@) == target.qm_evals(n as nat),
            eqo@.len() == n && all_wf(eqo@) && fe_vals(eqo@) == target.qo_evals(n as nat),
            eqc@.len() == n && all_wf(eqc@) && fe_vals(eqc@) == target.qc_evals(n as nat),
            epi@.len() == n && all_wf(epi@) && fe_vals(epi@) == target.pi_evals(n as nat),
            i <= n,
            forall|j: int| 0 <= j < i ==> #[trigger] gate_eq(
                target.a_evals(n as nat)[j],
                target.b_evals(n as nat)[j],
                target.c_evals(n as nat)[j],
                target.ql_evals(n as nat)[j],
                target.qr_evals(n as nat)[j],
                target.qm_evals(n as nat)[j],
                target.qo_evals(n as nat)[j],
                target.qc_evals(n as nat)[j],
                target.pi_evals(n as nat)[j],
            ),
        decreases n - i,
    {
        let ok = identity_row(
            &ea[i],
            &eb[i],
            &ec[i],
            &eql[i],
            &eqr[i],
            &eqm[i],
            &eqo[i],
            &eqc[i],
            &epi[i],
        );
        proof {
            assert(ea@[i as int]@ == target.a_evals(n as nat)[i as int]);
            assert(eb@[i as int]@ == target.b_evals(n as nat)[i as int]);
            assert(ec@[i as int]@ == target.c_evals(n as nat)[i as int]);
            assert(eql@[i as int]@ == target.ql_evals(n as nat)[i as int]);
            assert(eqr@[i as int]@ == target.qr_evals(n as nat)[i as int]);
            assert(eqm@[i as int]@ == target.qm_evals(n as nat)[i as int]);
            assert(eqo@[i as int]@ == target.qo_evals(n as nat)[i as int]);
            assert(eqc@[i as int]@ == target.qc_evals(n as nat)[i as int]);
            assert(epi@[i as int]@ == target.pi_evals(n as nat)[i as int]);
        }
        if !ok {
            proof {
                assert(!gate_eq(
                    target.a_evals(n as nat)[i as int],
                    target.b_evals(n as nat)[i as int],
                    target.c_evals(n as nat)[i as int],
                    target.ql_evals(n as nat)[i as int],
                    target.qr_evals(n as nat)[i as int],
                    target.qm_evals(n as nat)[i as int],
                    target.qo_evals(n as nat)[i as int],
                    target.qc_evals(n as nat)[i as int],
                    target.pi_evals(n as nat)[i as int],
                ));
            }
            return false;
        }
        i = i + 1;
    }
    true
}

} // verus!
