//! Gates and wire positions: the atomic constraint units of a circuit.
//!
//! A gate holds the selector coefficients (q_L, q_R, q_M, q_O, q_C), a
//! public-input term, and the three wire positions its slots are declared
//! copy-equal to. Selector conventions: an addition gate sets
//! q_L = q_R = 1, q_O = -1; a multiplication gate sets q_M = 1, q_O = -1;
//! a constant gate takes the addition base and adds q_C = -constant; a
//! dummy gate is all zero and exists only for padding.

use vstd::prelude::*;
use crate::field::{Fe, fr_order, fe_neg};

verus! {

/// One wire slot: a column (A, B or C) together with a row index.
#[derive(Clone, Copy, PartialEq, Eq, Structural, Debug)]
pub enum Position {
    ColumnA(usize),
    ColumnB(usize),
    ColumnC(usize),
}

impl Position {
    /// The row the position points at, whatever its column.
    pub open spec fn row_spec(self) -> nat {
        match self {
            Position::ColumnA(j) => j as nat,
            Position::ColumnB(j) => j as nat,
            Position::ColumnC(j) => j as nat,
        }
    }

    pub fn row(&self) -> (r: usize)
        ensures
            r == self.row_spec(),
    {
        match self {
            Position::ColumnA(j) => *j,
            Position::ColumnB(j) => *j,
            Position::ColumnC(j) => *j,
        }
    }

    /// The position a `(column, row)` pair of indices names: column 0 is A,
    /// column 1 is B, and any other index is read as C.
    pub open spec fn from_indices_spec(col: nat, row: nat) -> Position {
        if col == 0 {
            Position::ColumnA(row as usize)
        } else if col == 1 {
            Position::ColumnB(row as usize)
        } else {
            Position::ColumnC(row as usize)
        }
    }

    pub fn from_indices(col: usize, row: usize) -> (r: Position)
        ensures
            r == Position::from_indices_spec(col as nat, row as nat),
    {
        if col == 0 {
            Position::ColumnA(row)
        } else if col == 1 {
            Position::ColumnB(row)
        } else {
            Position::ColumnC(row)
        }
    }
}

/// The kind of constraint a gate enforces.
#[derive(Clone, Copy, PartialEq, Eq, Structural, Debug)]
pub enum GateKind {
    Addition,
    Multiplication,
    Constant,
    Dummy,
}

/// One gate: selector coefficients, a public-input term, and the three
/// wire positions of its a, b and c slots.
#[derive(Clone, Copy, PartialEq, Eq, Structural, Debug)]
pub struct Gate {
    pub kind: GateKind,
    pub q_l: Fe,
    pub q_r: Fe,
    pub q_m: Fe,
    pub q_o: Fe,
    pub q_c: Fe,
    pub pi: Fe,
    pub a: Position,
    pub b: Position,
    pub c: Position,
}

impl Gate {
    /// Every selector and the public-input term is a canonical residue.
    pub open spec fn wf(self) -> bool {
        self.q_l.wf() && self.q_r.wf() && self.q_m.wf() && self.q_o.wf() && self.q_c.wf()
            && self.pi.wf()
    }

    /// The public-input residue an optional argument stands for.
    pub open spec fn pi_of(pi: Option<Fe>) -> nat {
        match pi {
            Option::Some(p) => p@,
            Option::None => 0,
        }
    }

    /// An addition gate: q_L = 1, q_R = 1, q_O = -1, q_M = q_C = 0.
    pub fn new_add_gate(a: Position, b: Position, c: Position, pi: Option<Fe>) -> (g: Gate)
        requires
            pi matches Option::Some(p) ==> p.wf(),
        ensures
            g.wf(),
            g.kind == GateKind::Addition,
            g.q_l@ == 1 && g.q_r@ == 1 && g.q_m@ == 0,
            g.q_o@ == fr_order() - 1,
            g.q_c@ == 0,
            g.pi@ == Gate::pi_of(pi),
            g.a == a && g.b == b && g.c == c,
    {
        Gate {
            kind: GateKind::Addition,
            q_l: Fe::from_u64(1),
            q_r: Fe::from_u64(1),
            q_m: Fe::from_u64(0),
            q_o: fe_neg(&Fe::from_u64(1)),
            q_c: Fe::from_u64(0),
            pi: Gate::pi_value(pi),
            a,
            b,
            c,
        }
    }

    /// A multiplication gate: q_M = 1, q_O = -1, q_L = q_R = q_C = 0.
    pub fn new_mult_gate(a: Position, b: Position, c: Position, pi: Option<Fe>) -> (g: Gate)
        requires
            pi matches Option::Some(p) ==> p.wf(),
        ensures
            g.wf(),
            g.kind == GateKind::Multiplication,
            g.q_l@ == 0 && g.q_r@ == 0 && g.q_m@ == 1,
            g.q_o@ == fr_order() - 1,
            g.q_c@ == 0,
            g.pi@ == Gate::pi_of(pi),
            g.a == a && g.b == b && g.c == c,
    {
        Gate {
            kind: GateKind::Multiplication,
            q_l: Fe::from_u64(0),
            q_r: Fe::from_u64(0),
            q_m: Fe::from_u64(1),
            q_o: fe_neg(&Fe::from_u64(1)),
            q_c: Fe::from_u64(0),
            pi: Gate::pi_value(pi),
            a,
            b,
            c,
        }
    }

    /// A constant gate: the addition base (q_L = q_R = 1, q_O = -1) with
    /// q_C set to the negated constant.
    pub fn new_constant_gate(
        a: Position,
        b: Position,
        c: Position,
        constant: Fe,
        pi: Option<Fe>,
    ) -> (g: Gate)
        requires
            constant.wf(),
            pi matches Option::Some(p) ==> p.wf(),
        ensures
            g.wf(),
            g.kind == GateKind::Constant,
            g.q_l@ == 1 && g.q_r@ == 1 && g.q_m@ == 0,
            g.q_o@ == fr_order() - 1,
            g.q_c@ == (fr_order() - constant@) % (fr_order() as int),
            g.pi@ == Gate::pi_of(pi),
            g.a == a && g.b == b && g.c == c,
    {
        Gate {
            kind: GateKind::Constant,
            q_l: Fe::from_u64(1),
            q_r: Fe::from_u64(1),
            q_m: Fe::from_u64(0),
            q_o: fe_neg(&Fe::from_u64(1)),
            q_c: fe_neg(&constant),
            pi: Gate::pi_value(pi),
            a,
            b,
            c,
        }
    }

    /// The all-zero gate padding appends; its positions are unused and
    /// point each slot at its own row 0 column.
    pub open spec fn dummy_spec() -> Gate {
        Gate {
            kind: GateKind::Dummy,
            q_l: Fe { l0: 0, l1: 0, l2: 0, l3: 0 },
            q_r: Fe { l0: 0, l1: 0, l2: 0, l3: 0 },
            q_m: Fe { l0: 0, l1: 0, l2: 0, l3: 0 },
            q_o: Fe { l0: 0, l1: 0, l2: 0, l3: 0 },
            q_c: Fe { l0: 0, l1: 0, l2: 0, l3: 0 },
            pi: Fe { l0: 0, l1: 0, l2: 0, l3: 0 },
            a: Position::ColumnA(0),
            b: Position::ColumnB(0),
            c: Position::ColumnC(0),
        }
    }

    pub fn new_dummy_gate() -> (g: Gate)
        ensures
            g == Gate::dummy_spec(),
            g.wf(),
    {
        Gate {
            kind: GateKind::Dummy,
            q_l: Fe::from_u64(0),
            q_r: Fe::from_u64(0),
            q_m: Fe::from_u64(0),
            q_o: Fe::from_u64(0),
            q_c: Fe::from_u64(0),
            pi: Fe::from_u64(0),
            a: Position::ColumnA(0),
            b: Position::ColumnB(0),
            c: Position::ColumnC(0),
        }
    }

    /// Whether this gate is a padding dummy.
    pub fn is_dummy_gate(&self) -> (r: bool)
        ensures
            r == (self.kind == GateKind::Dummy),
    {
        matches!(self.kind, GateKind::Dummy)
    }

    pub fn get_a_wire(&self) -> (r: Position)
        ensures
            r == self.a,
    {
        self.a
    }

    pub fn get_b_wire(&self) -> (r: Position)
        ensures
            r == self.b,
    {
        self.b
    }

    pub fn get_c_wire(&self) -> (r: Position)
        ensures
            r == self.c,
    {
        self.c
    }

    fn pi_value(pi: Option<Fe>) -> (r: Fe)
        requires
            pi matches Option::Some(p) ==> p.wf(),
        ensures
            r.wf(),
            r@ == Gate::pi_of(pi),
    {
        match pi {
            Option::Some(p) => p,
            Option::None => Fe::from_u64(0),
        }
    }
}

} // verus!
