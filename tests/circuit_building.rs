use functional_commitment::circuit::{ConstraintBuilder, Gate, GateKind, Variable, VariableKind, Wire};
use functional_commitment::compiler::compile;
use functional_commitment::indexer::index_circuit;
use functional_commitment::structure::check_structure;
use functional_commitment::error::{CompilationError, Error};
use functional_commitment::field::Fe;
use functional_commitment::gadget::{build_xor_circuit, enforce_xor};
use functional_commitment::loot_box::{
    build_reveal_circuit, expected_output, input_bits, public_inputs, NUM_BITS,
};

use ark_bn254::Fr;
use ark_ff::{BigInteger256, PrimeField};

fn fe(v: u64) -> Fe {
    Fe::from_u64(v)
}

fn to_fr(x: Fe) -> Fr {
    Fr::from_repr(BigInteger256([x.l0, x.l1, x.l2, x.l3])).unwrap()
}

#[test]
fn new_builder_holds_only_the_constant() {
    let cb = ConstraintBuilder::new();
    assert_eq!(cb.inputs, vec![Fe::one()]);
    assert!(cb.witnesses.is_empty() && cb.outputs.is_empty());
    assert_eq!(cb.num_variables(), 1);
    assert_eq!(cb.output_value(), None);
}

#[test]
fn inputs_take_consecutive_columns() {
    let mut cb = ConstraintBuilder::new();
    let x = cb.new_input_variable("x", fe(5)).unwrap();
    let y = cb.new_input_variable("y", Fe::minus_one()).unwrap();
    assert_eq!(x, Variable { kind: VariableKind::Input, index: 1, value: fe(5) });
    assert_eq!(y, Variable { kind: VariableKind::Input, index: 2, value: Fe::minus_one() });
    assert_eq!(cb.labels, vec!["x".to_string(), "y".to_string()]);
}

#[test]
fn gates_compute_sums_and_products() {
    let mut cb = ConstraintBuilder::new();
    let x = cb.new_input_variable("x", fe(5)).unwrap();
    let y = cb.new_input_variable("y", fe(3)).unwrap();
    let s = cb.enforce_constraint(&x, &y, GateKind::Add, VariableKind::Witness).unwrap();
    let p = cb.enforce_constraint(&s, &x, GateKind::Mul, VariableKind::Output).unwrap();
    assert_eq!(s.value, fe(8));
    assert_eq!(s.index, 0);
    assert_eq!(s.kind, VariableKind::Witness);
    assert_eq!(p.index, 0);
    assert_eq!(p.value, fe(40));
    assert_eq!(p.kind, VariableKind::Output);
    assert_eq!(cb.output_value(), Some(fe(40)));
}

#[test]
fn unknown_operand_is_rejected() {
    let mut cb = ConstraintBuilder::new();
    let x = cb.new_input_variable("x", fe(5)).unwrap();
    let ghost_var = Variable { kind: VariableKind::Witness, index: 7, value: fe(1) };
    let r = cb.enforce_constraint(&x, &ghost_var, GateKind::Add, VariableKind::Witness);
    assert_eq!(r, Err(Error::Compilation(CompilationError::UnknownVariable)));
    let stale = Variable { kind: VariableKind::Input, index: 1, value: fe(6) };
    let r = cb.enforce_constraint(&stale, &x, GateKind::Mul, VariableKind::Witness);
    assert_eq!(r, Err(Error::Compilation(CompilationError::UnknownVariable)));
    assert_eq!(cb.num_variables(), 2);
}

#[test]
fn input_after_gate_takes_an_input_column() {
    let mut cb = ConstraintBuilder::new();
    let x = cb.new_input_variable("x", fe(2)).unwrap();
    let w = cb.enforce_constraint(&x, &x, GateKind::Mul, VariableKind::Witness).unwrap();
    let y = cb.new_input_variable("late", fe(3)).unwrap();
    assert_eq!(y, Variable { kind: VariableKind::Input, index: 2, value: fe(3) });
    let o = cb.enforce_constraint(&w, &y, GateKind::Mul, VariableKind::Output).unwrap();
    assert_eq!(o.value, fe(12));
    let (info, a, b, c) = compile(&cb);
    assert_eq!(info.number_of_input_rows, 3);
    let empty: Vec<(i64, usize)> = Vec::new();
    assert_eq!(a, vec![empty.clone(), empty.clone(), empty.clone(), vec![(1, 1)], vec![(1, 3)]]);
    assert_eq!(b, vec![empty.clone(), empty.clone(), empty.clone(), vec![(1, 1)], vec![(1, 2)]]);
    assert_eq!(c, vec![empty.clone(), empty.clone(), empty.clone(), vec![(1, 3)], vec![(1, 4)]]);
    assert!(check_structure(&a, &b, &c, info.number_of_input_rows));
    assert!(index_circuit(&cb).is_ok());
    assert_eq!(cb.witness_vector(), vec![fe(1), fe(2), fe(3), fe(4), fe(12)]);
}

#[test]
fn gate_cannot_produce_an_input() {
    let mut cb = ConstraintBuilder::new();
    let x = cb.new_input_variable("x", fe(2)).unwrap();
    let r = cb.enforce_constraint(&x, &x, GateKind::Add, VariableKind::Input);
    assert_eq!(r, Err(Error::Compilation(CompilationError::InputAsGateResult)));
}

#[test]
fn witness_reading_an_output_fails_the_structure() {
    let mut cb = ConstraintBuilder::new();
    let x = cb.new_input_variable("x", fe(2)).unwrap();
    let o = cb.enforce_constraint(&x, &x, GateKind::Mul, VariableKind::Output).unwrap();
    let w = cb.enforce_constraint(&o, &x, GateKind::Add, VariableKind::Witness).unwrap();
    assert_eq!(w.value, fe(6));
    let o2 = cb.enforce_constraint(&o, &w, GateKind::Add, VariableKind::Output).unwrap();
    assert_eq!(o2.value, fe(10));
    let (info, a, b, c) = compile(&cb);
    assert!(!check_structure(&a, &b, &c, info.number_of_input_rows));
    assert_eq!(index_circuit(&cb).err(), Some(Error::StructuralViolation));
}

#[test]
fn outputs_may_follow_one_another() {
    let mut cb = ConstraintBuilder::new();
    let x = cb.new_input_variable("x", fe(2)).unwrap();
    let w = cb.enforce_constraint(&x, &x, GateKind::Add, VariableKind::Witness).unwrap();
    let o = cb.enforce_constraint(&w, &x, GateKind::Mul, VariableKind::Output).unwrap();
    let o2 = cb.enforce_constraint(&o, &w, GateKind::Add, VariableKind::Output).unwrap();
    assert_eq!(o2.value, fe(12));
    assert_eq!(cb.outputs, vec![fe(8), fe(12)]);
    assert!(index_circuit(&cb).is_ok());
}

#[test]
fn field_arithmetic_wraps_around() {
    let mut cb = ConstraintBuilder::new();
    let m = cb.new_input_variable("m", Fe::minus_one()).unwrap();
    let one = cb.new_input_variable("one", Fe::one()).unwrap();
    let s = cb.enforce_constraint(&m, &one, GateKind::Add, VariableKind::Witness).unwrap();
    assert_eq!(s.value, Fe::zero());
    let p = cb.enforce_constraint(&m, &m, GateKind::Mul, VariableKind::Witness).unwrap();
    assert_eq!(p.value, Fe::one());
    let d = cb.enforce_constraint(&m, &m, GateKind::Add, VariableKind::Witness).unwrap();
    assert_eq!(to_fr(d.value), -Fr::from(2u64));
}

#[test]
fn large_values_never_fail() {
    let mut cb = ConstraintBuilder::new();
    let big = 1u64 << 40;
    let a = cb.new_input_variable("a", fe(big)).unwrap();
    let c = cb.new_input_variable("c", fe(big)).unwrap();
    let m = cb.new_input_variable("m", Fe::minus_one()).unwrap();
    let x = enforce_xor(&mut cb, &a, &c, &m).unwrap();
    let (fa, fc) = (Fr::from(big), Fr::from(big));
    assert_eq!(to_fr(x.value), fc * fc - Fr::from(2u64) * fa * fc + fa);
    let sq = cb.enforce_constraint(&x, &x, GateKind::Mul, VariableKind::Witness).unwrap();
    assert_eq!(to_fr(sq.value), to_fr(x.value) * to_fr(x.value));
}

#[test]
fn xor_gadget_on_all_bit_pairs() {
    for a in 0..2u64 {
        for c in 0..2u64 {
            let mut cb = ConstraintBuilder::new();
            let va = cb.new_input_variable("a", fe(a)).unwrap();
            let vc = cb.new_input_variable("c", fe(c)).unwrap();
            let m = cb.new_input_variable("minus_one", Fe::minus_one()).unwrap();
            let before = cb.witness_gates.len();
            let x = enforce_xor(&mut cb, &va, &vc, &m).unwrap();
            assert_eq!(x.value, fe(a ^ c));
            assert_eq!(cb.witness_gates.len(), before + 6);
            assert_eq!(cb.witnesses.len(), 6);
            assert_eq!(x.index, 5);
            assert_eq!(x.kind, VariableKind::Witness);
            assert!(cb.outputs.is_empty());
        }
    }
}

#[test]
fn xor_gadget_general_value() {
    let mut cb = ConstraintBuilder::new();
    let va = cb.new_input_variable("a", fe(3)).unwrap();
    let vc = cb.new_input_variable("c", fe(5)).unwrap();
    let m = cb.new_input_variable("m", Fe::minus_one()).unwrap();
    let x = enforce_xor(&mut cb, &va, &vc, &m).unwrap();
    // c*c + 2*a*c*m + a = 25 - 30 + 3
    assert_eq!(to_fr(x.value), -Fr::from(2u64));
}

#[test]
fn xor_circuit_output_for_every_three_bit_pair() {
    for a in 0..8i32 {
        for b in 0..8i32 {
            let mut cb = ConstraintBuilder::new();
            build_xor_circuit(&mut cb, input_bits(a, 3), input_bits(b, 3)).unwrap();
            let want = if a ^ b == 7 { 1 } else { 0 };
            assert_eq!(cb.output_value(), Some(fe(want)), "a={} b={}", a, b);
            assert_eq!(cb.outputs.len(), 1);
        }
    }
}

#[test]
fn xor_circuit_shape() {
    let mut cb = ConstraintBuilder::new();
    build_xor_circuit(&mut cb, vec![fe(1), fe(0), fe(1)], vec![fe(0), fe(1), fe(0)]).unwrap();
    assert_eq!(cb.inputs.len(), 9);
    assert_eq!(cb.witness_gates.len(), 20);
    assert_eq!(cb.output_gates.len(), 1);
    assert_eq!(cb.num_variables(), 30);
    assert_eq!(cb.output_value(), Some(fe(1)));
    assert_eq!(cb.outputs.len(), 1);
    assert_eq!(
        cb.output_gates[0],
        Gate {
            kind: GateKind::Mul,
            left: Wire { kind: VariableKind::Witness, index: 19 },
            right: Wire { kind: VariableKind::Input, index: 8 },
        }
    );
    assert_eq!(
        cb.labels,
        vec!["a0", "b0", "a1", "b1", "a2", "b2", "minus_one", "one"]
            .into_iter()
            .map(String::from)
            .collect::<Vec<_>>()
    );
}

#[test]
fn xor_circuit_on_a_used_builder() {
    let mut cb = ConstraintBuilder::new();
    let x = cb.new_input_variable("x", fe(1)).unwrap();
    cb.enforce_constraint(&x, &x, GateKind::Mul, VariableKind::Witness).unwrap();
    let r = build_xor_circuit(&mut cb, vec![fe(0)], vec![fe(1)]);
    assert_eq!(r, Ok(()));
    assert_eq!(cb.witness_gates.len(), 7);
    assert_eq!(cb.inputs.len(), 6);
    assert_eq!(cb.output_value(), Some(fe(1)));
    assert!(index_circuit(&cb).is_ok());
}

#[test]
fn single_bit_xor_circuit() {
    let mut cb = ConstraintBuilder::new();
    build_xor_circuit(&mut cb, vec![fe(1)], vec![fe(1)]).unwrap();
    assert_eq!(cb.output_value(), Some(fe(0)));
    let mut cb = ConstraintBuilder::new();
    build_xor_circuit(&mut cb, vec![fe(0)], vec![fe(1)]).unwrap();
    assert_eq!(cb.output_value(), Some(fe(1)));
    let mut cb = ConstraintBuilder::new();
    build_xor_circuit(&mut cb, vec![fe(12), fe(0)], vec![fe(1), fe(1)]).unwrap();
    assert_eq!(cb.labels.len(), 6);
}

#[test]
fn input_bits_least_significant_first() {
    assert_eq!(input_bits(5, 3), vec![fe(1), fe(0), fe(1)]);
    assert_eq!(input_bits(6, 3), vec![fe(0), fe(1), fe(1)]);
    assert_eq!(input_bits(0, 3), vec![fe(0), fe(0), fe(0)]);
    assert_eq!(input_bits(-1, 3), vec![fe(1), fe(1), fe(1)]);
    assert_eq!(input_bits(13, 3), vec![fe(1), fe(0), fe(1)]);
    assert_eq!(input_bits(1, 0), Vec::<Fe>::new());
}

#[test]
fn expected_output_is_one_only_for_xor_seven() {
    assert_eq!(expected_output(0, 0), fe(0));
    assert_eq!(expected_output(0, 7), fe(1));
    assert_eq!(expected_output(5, 2), fe(1));
    assert_eq!(expected_output(5, 3), fe(0));
    assert_eq!(expected_output(8, 15), fe(1));
}

#[test]
fn public_inputs_layout() {
    let r = public_inputs(&vec![fe(1), fe(0), fe(1)], &vec![fe(0), fe(1), fe(1)]);
    let m = Fe::minus_one();
    assert_eq!(r, vec![fe(1), fe(1), fe(0), fe(0), fe(1), fe(1), fe(1), m, fe(1)]);
}

#[test]
fn scenario_both_zero_loses() {
    let cb = build_reveal_circuit(0, 0);
    assert_eq!(cb.output_value(), Some(fe(0)));
    assert_eq!(expected_output(0, 0), fe(0));
    let inputs = public_inputs(&input_bits(0, NUM_BITS), &input_bits(0, NUM_BITS));
    let z = fe(0);
    assert_eq!(inputs, vec![fe(1), z, z, z, z, z, z, Fe::minus_one(), fe(1)]);
    assert_eq!(cb.inputs, inputs);
}

#[test]
fn scenario_zero_and_seven_wins() {
    let cb = build_reveal_circuit(0, 7);
    assert_eq!(cb.output_value(), Some(fe(1)));
    assert_eq!(expected_output(0, 7), fe(1));
    assert_ne!(cb.output_value(), Some(fe(0)));
    let inputs = public_inputs(&input_bits(0, NUM_BITS), &input_bits(7, NUM_BITS));
    let (z, o) = (fe(0), fe(1));
    assert_eq!(inputs, vec![o, z, o, z, o, z, o, Fe::minus_one(), o]);
    assert_eq!(cb.inputs, inputs);
}

#[test]
fn reveal_circuit_matches_expected_output_on_all_pairs() {
    for a in 0..8 {
        for b in 0..8 {
            let cb = build_reveal_circuit(a, b);
            assert_eq!(cb.output_value(), Some(expected_output(a, b)));
        }
    }
}

#[test]
fn xor_gadget_with_an_unknown_operand_changes_nothing() {
    let mut cb = ConstraintBuilder::new();
    let a = cb.new_input_variable("a", fe(1)).unwrap();
    let m = cb.new_input_variable("m", Fe::minus_one()).unwrap();
    let c = Variable { kind: VariableKind::Witness, index: 0, value: fe(1) };
    let r = enforce_xor(&mut cb, &a, &c, &m);
    assert_eq!(r, Err(Error::Compilation(CompilationError::UnknownVariable)));
    assert!(cb.witness_gates.is_empty());
    let r = enforce_xor(&mut cb, &c, &a, &m);
    assert_eq!(r, Err(Error::Compilation(CompilationError::UnknownVariable)));
    assert!(cb.witnesses.is_empty());
}

#[test]
fn xor_gadget_after_an_output() {
    let mut cb = ConstraintBuilder::new();
    let a = cb.new_input_variable("a", fe(1)).unwrap();
    let c = cb.new_input_variable("c", fe(0)).unwrap();
    let m = cb.new_input_variable("m", Fe::minus_one()).unwrap();
    cb.enforce_constraint(&a, &c, GateKind::Add, VariableKind::Output).unwrap();
    let x = enforce_xor(&mut cb, &a, &c, &m).unwrap();
    assert_eq!(x.value, fe(1));
    assert_eq!(x.index, 5);
    assert_eq!(cb.witness_gates.len(), 6);
}
