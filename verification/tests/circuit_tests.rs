use ark_ff::PrimeField;
use ark_poly::Polynomial;
use ark_poly::EvaluationDomain;
use plonk::circuit::{Circuit, CircuitError, CompiledCircuit};
use plonk::field::Fe;

fn fe(v: i64) -> Fe {
    Fe::from_i64(v)
}

fn to_fr(e: &Fe) -> ark_bls12_381::Fr {
    let (l0, l1, l2, l3) = e.limbs();
    ark_bls12_381::Fr::from_bigint(ark_ff::BigInt::new([l0, l1, l2, l3])).unwrap()
}

fn to_poly(coeffs: &Vec<Fe>) -> ark_poly::univariate::DensePolynomial<ark_bls12_381::Fr> {
    let v: Vec<ark_bls12_381::Fr> = coeffs.iter().map(to_fr).collect();
    ark_poly::univariate::DensePolynomial { coeffs: v }
}

fn domain_roots(n: usize) -> Vec<ark_bls12_381::Fr> {
    let d = ark_poly::GeneralEvaluationDomain::<ark_bls12_381::Fr>::new(n).unwrap();
    d.elements().collect()
}

/// The four-gate circuit proving 1*1=1, 1*2=2, 2+(-3)=-1 and 1+(-1)=0 with
/// shared wires across rows.
fn sample_circuit() -> Circuit {
    let mut circuit = Circuit::new();
    circuit.add_multiplication_gate((0, 0, fe(1)), (0, 0, fe(1)), (2, 0, fe(1)), fe(0));
    circuit.add_multiplication_gate((0, 0, fe(1)), (1, 1, fe(2)), (2, 1, fe(2)), fe(0));
    circuit.add_addition_gate((2, 1, fe(2)), (1, 2, fe(-3)), (2, 2, fe(-1)), fe(0));
    circuit.add_addition_gate((2, 0, fe(1)), (2, 2, fe(-1)), (2, 3, fe(0)), fe(0));
    circuit
}

#[test]
fn create_circuit_test() {
    let circuit = sample_circuit();
    assert_eq!(circuit.wire_value(0, 2), circuit.wire_value(2, 1));
}

#[test]
fn compile_shared_wire_scenario() {
    let circuit = sample_circuit();
    let a_row2 = circuit.wire_value(0, 2).unwrap();
    let c_row1 = circuit.wire_value(2, 1).unwrap();
    assert_eq!(a_row2, c_row1);
    let compiled = circuit.compile_circuit();
    assert!(compiled.is_ok());
}

#[test]
fn zero_gates_rejected_as_degenerate() {
    let circuit = Circuit::new();
    match circuit.compile_circuit() {
        Err(CircuitError::DegenerateCircuit) => {}
        _ => panic!("a zero-gate circuit must be rejected as degenerate"),
    }
}

#[test]
fn wrong_witness_rejected_as_constraint_violation() {
    let mut circuit = Circuit::new();
    circuit.add_multiplication_gate((0, 0, fe(1)), (1, 0, fe(1)), (2, 0, fe(2)), fe(0));
    match circuit.compile_circuit() {
        Err(CircuitError::ConstraintViolation) => {}
        _ => panic!("1*1=2 must be refused as a broken row"),
    }
}

#[test]
fn dummy_before_real_gate_is_structural_error() {
    let mut circuit = Circuit::new();
    circuit.add_dummy_gate();
    circuit.add_multiplication_gate((0, 0, fe(1)), (1, 0, fe(1)), (2, 0, fe(1)), fe(0));
    match circuit.compile_circuit() {
        Err(CircuitError::StructuralError) => {}
        _ => panic!("a dummy gate before a value-carrying gate breaks alignment"),
    }
}

#[test]
fn out_of_range_position_is_structural_error() {
    let mut circuit = Circuit::new();
    circuit.add_multiplication_gate((0, 5, fe(1)), (1, 0, fe(1)), (2, 0, fe(1)), fe(0));
    match circuit.compile_circuit() {
        Err(CircuitError::StructuralError) => {}
        _ => panic!("a wire pointing past the padded domain must be refused"),
    }
}

#[test]
fn assignment_columns_match_insertion_order() {
    let mut circuit = Circuit::new();
    circuit.add_multiplication_gate((0, 0, fe(2)), (1, 0, fe(3)), (2, 0, fe(6)), fe(0));
    circuit.add_addition_gate((0, 1, fe(4)), (1, 1, fe(5)), (2, 1, fe(9)), fe(0));
    circuit.add_addition_gate((0, 2, fe(7)), (1, 2, fe(8)), (2, 2, fe(15)), fe(0));
    let asg = circuit.get_assignment();
    assert_eq!(asg.a.len(), 3);
    assert_eq!(asg.b.len(), 3);
    assert_eq!(asg.c.len(), 3);
    assert_eq!(asg.ql.len(), 3);
    assert_eq!(asg.qr.len(), 3);
    assert_eq!(asg.qm.len(), 3);
    assert_eq!(asg.qo.len(), 3);
    assert_eq!(asg.qc.len(), 3);
    assert_eq!(asg.pi.len(), 3);
    assert_eq!(asg.a, vec![fe(2), fe(4), fe(7)]);
    assert_eq!(asg.b, vec![fe(3), fe(5), fe(8)]);
    assert_eq!(asg.c, vec![fe(6), fe(9), fe(15)]);
    assert_eq!(asg.qm[0], fe(1));
    assert_eq!(asg.ql[0], fe(0));
    assert_eq!(asg.ql[1], fe(1));
    assert_eq!(asg.qr[2], fe(1));
}

fn five_gate_circuit() -> Circuit {
    let mut circuit = Circuit::new();
    circuit.add_multiplication_gate((0, 0, fe(2)), (1, 0, fe(3)), (2, 0, fe(6)), fe(0));
    circuit.add_multiplication_gate((0, 1, fe(4)), (1, 1, fe(5)), (2, 1, fe(20)), fe(0));
    circuit.add_addition_gate((0, 2, fe(1)), (1, 2, fe(1)), (2, 2, fe(2)), fe(0));
    circuit.add_addition_gate((0, 3, fe(10)), (1, 3, fe(-4)), (2, 3, fe(6)), fe(0));
    circuit.add_multiplication_gate((0, 4, fe(7)), (1, 4, fe(0)), (2, 4, fe(0)), fe(0));
    circuit
}

#[test]
fn padding_reaches_next_power_of_two_with_dummy_rows() {
    let compiled = five_gate_circuit().compile_circuit().unwrap();
    assert_eq!(compiled.gate_count, 8);
    assert_eq!(compiled.domain.size, 8);
    let roots = domain_roots(8);
    let zero = ark_bls12_381::Fr::from(0u64);
    let ql = to_poly(&compiled.gate_constraints.q_l);
    let qr = to_poly(&compiled.gate_constraints.q_r);
    let qm = to_poly(&compiled.gate_constraints.q_m);
    let qo = to_poly(&compiled.gate_constraints.q_o);
    let qc = to_poly(&compiled.gate_constraints.q_c);
    for row in 5..8 {
        assert_eq!(ql.evaluate(&roots[row]), zero);
        assert_eq!(qr.evaluate(&roots[row]), zero);
        assert_eq!(qm.evaluate(&roots[row]), zero);
        assert_eq!(qo.evaluate(&roots[row]), zero);
        assert_eq!(qc.evaluate(&roots[row]), zero);
    }
}

#[test]
fn gate_identity_holds_at_every_root() {
    let compiled = five_gate_circuit().compile_circuit().unwrap();
    let n = compiled.domain.size;
    let roots = domain_roots(n);
    let fa = to_poly(&compiled.gate_constraints.f_a);
    let fb = to_poly(&compiled.gate_constraints.f_b);
    let fc = to_poly(&compiled.gate_constraints.f_c);
    let ql = to_poly(&compiled.gate_constraints.q_l);
    let qr = to_poly(&compiled.gate_constraints.q_r);
    let qm = to_poly(&compiled.gate_constraints.q_m);
    let qo = to_poly(&compiled.gate_constraints.q_o);
    let qc = to_poly(&compiled.gate_constraints.q_c);
    let pi = to_poly(&compiled.gate_constraints.pi);
    let zero = ark_bls12_381::Fr::from(0u64);
    for w in roots.iter() {
        let v = fa.evaluate(w) * fb.evaluate(w) * qm.evaluate(w) + fa.evaluate(w) * ql.evaluate(w)
            + fb.evaluate(w) * qr.evaluate(w) + qo.evaluate(w) * fc.evaluate(w) + qc.evaluate(w)
            + pi.evaluate(w);
        assert_eq!(v, zero);
    }
}

#[test]
fn compilation_is_deterministic_up_to_srs() {
    let cc1 = sample_circuit().compile_circuit().unwrap();
    let cc2 = sample_circuit().compile_circuit().unwrap();
    assert_eq!(cc1.gate_constraints.f_a, cc2.gate_constraints.f_a);
    assert_eq!(cc1.gate_constraints.f_b, cc2.gate_constraints.f_b);
    assert_eq!(cc1.gate_constraints.f_c, cc2.gate_constraints.f_c);
    assert_eq!(cc1.gate_constraints.q_l, cc2.gate_constraints.q_l);
    assert_eq!(cc1.gate_constraints.q_r, cc2.gate_constraints.q_r);
    assert_eq!(cc1.gate_constraints.q_m, cc2.gate_constraints.q_m);
    assert_eq!(cc1.gate_constraints.q_o, cc2.gate_constraints.q_o);
    assert_eq!(cc1.gate_constraints.q_c, cc2.gate_constraints.q_c);
    assert_eq!(cc1.gate_constraints.pi, cc2.gate_constraints.pi);
    assert_eq!(cc1.copy_constraints.sigma_1, cc2.copy_constraints.sigma_1);
    assert_eq!(cc1.copy_constraints.sigma_2, cc2.copy_constraints.sigma_2);
    assert_eq!(cc1.copy_constraints.sigma_3, cc2.copy_constraints.sigma_3);
    assert_eq!(cc1.copy_constraints.k1, cc2.copy_constraints.k1);
    assert_eq!(cc1.copy_constraints.k2, cc2.copy_constraints.k2);
    assert_eq!(cc1.gate_count, cc2.gate_count);
}

#[test]
fn cosets_are_disjoint_for_exercised_sizes() {
    let probe = Circuit::new();
    for n in [1usize, 2, 4, 8] {
        let (coset1, coset2, _k1, _k2) = probe.find_cosets(n);
        let roots = domain_roots(n);
        let mut labels: Vec<ark_bls12_381::Fr> = Vec::new();
        labels.extend(roots.iter().cloned());
        labels.extend(coset1.iter().map(to_fr));
        labels.extend(coset2.iter().map(to_fr));
        assert_eq!(labels.len(), 3 * n);
        for i in 0..labels.len() {
            for j in (i + 1)..labels.len() {
                assert_ne!(labels[i], labels[j], "label sets overlap at size {}", n);
            }
        }
    }
}

fn sigma_eval(compiled: &CompiledCircuit, which: usize, row: usize) -> ark_bls12_381::Fr {
    let poly = match which {
        1 => to_poly(&compiled.copy_constraints.sigma_1),
        2 => to_poly(&compiled.copy_constraints.sigma_2),
        _ => to_poly(&compiled.copy_constraints.sigma_3),
    };
    let roots = domain_roots(compiled.domain.size);
    poly.evaluate(&roots[row])
}

#[test]
fn sigma_maps_copy_equal_slots_to_each_other() {
    // Slot A0 is declared equal to B1, and B1 back to A0; A1 and the other
    // slots are wired to themselves.
    let mut circuit = Circuit::new();
    circuit.add_multiplication_gate((1, 1, fe(2)), (1, 0, fe(3)), (2, 0, fe(6)), fe(0));
    circuit.add_multiplication_gate((0, 1, fe(1)), (0, 0, fe(2)), (2, 1, fe(2)), fe(0));
    let compiled = circuit.compile_circuit().unwrap();
    assert_eq!(compiled.domain.size, 2);
    let roots = domain_roots(2);
    let k1 = to_fr(&compiled.copy_constraints.k1);
    let k2 = to_fr(&compiled.copy_constraints.k2);
    // A0's a-wire points at B1: sigma_1 at root 0 is B1's label k1*root_1.
    assert_eq!(sigma_eval(&compiled, 1, 0), k1 * roots[1]);
    // B1's b-wire points back at A0: sigma_2 at root 1 is A0's label root_0.
    assert_eq!(sigma_eval(&compiled, 2, 1), roots[0]);
    // A1 is declared equal to itself: sigma_1 at root 1 is its own label.
    assert_eq!(sigma_eval(&compiled, 1, 1), roots[1]);
    // C0 and C1 are wired to themselves in the k2 coset.
    assert_eq!(sigma_eval(&compiled, 3, 0), k2 * roots[0]);
    assert_eq!(sigma_eval(&compiled, 3, 1), k2 * roots[1]);
}

#[test]
fn srs_is_sized_to_the_domain() {
    let compiled = sample_circuit().compile_circuit().unwrap();
    assert_eq!(compiled.srs.in_g1.len(), compiled.gate_count + 1);
}

#[test]
fn constant_gate_pins_its_wire() {
    // A constant gate enforces a + b - c - constant = 0; with b = c = 0 it
    // pins the a wire to the constant.
    let mut circuit = Circuit::new();
    circuit.add_constant_gate((0, 0, fe(5)), (1, 0, fe(0)), (2, 0, fe(0)), fe(0));
    assert!(circuit.compile_circuit().is_ok());

    let mut broken = Circuit::new();
    broken.add_constant_gate((0, 0, fe(5)), (1, 0, fe(1)), (2, 0, fe(0)), fe(0));
    match broken.compile_circuit() {
        Err(CircuitError::ConstraintViolation) => {}
        _ => panic!("a constant gate with a stray b value must fail the identity"),
    }
}
