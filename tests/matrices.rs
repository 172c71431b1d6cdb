use functional_commitment::circuit::{ConstraintBuilder, GateKind, VariableKind};
use functional_commitment::compiler::{compile, IndexInfo};
use functional_commitment::error::Error;
use functional_commitment::indexer::{commitment_labels, index_circuit, triple_roles};
use functional_commitment::loot_box::build_reveal_circuit;
use functional_commitment::setup::{domain_sizes, DomainSizes, MAX_DOMAIN_SIZE};
use functional_commitment::structure::{
    check_structure, is_diagonal, is_strictly_lower_triangular, Matrix,
};

use ark_bn254::Fr;
use ark_ff::{BigInteger256, PrimeField};
use functional_commitment::field::Fe;

fn to_fr(x: Fe) -> Fr {
    Fr::from_repr(BigInteger256([x.l0, x.l1, x.l2, x.l3])).unwrap()
}

fn dot(row: &[(i64, usize)], z: &[Fe]) -> Fr {
    row.iter().map(|(c, j)| Fr::from(*c as u64) * to_fr(z[*j])).sum()
}

#[test]
fn compile_small_circuit() {
    let mut cb = ConstraintBuilder::new();
    let x = cb.new_input_variable("x", Fe::from_u64(3)).unwrap();
    let y = cb.new_input_variable("y", Fe::from_u64(4)).unwrap();
    let s = cb.enforce_constraint(&x, &y, GateKind::Add, VariableKind::Witness).unwrap();
    let d = cb.enforce_constraint(&s, &s, GateKind::Add, VariableKind::Witness).unwrap();
    cb.enforce_constraint(&d, &x, GateKind::Mul, VariableKind::Output).unwrap();
    let (info, a, b, c) = compile(&cb);
    assert_eq!(
        info,
        IndexInfo { number_of_constraints: 6, number_of_non_zero_entries: 4, number_of_input_rows: 3 }
    );
    let empty: Vec<(i64, usize)> = Vec::new();
    assert_eq!(a, vec![empty.clone(), empty.clone(), empty.clone(), vec![(1, 1), (1, 2)], vec![(2, 3)], vec![(1, 4)]]);
    assert_eq!(b, vec![empty.clone(), empty.clone(), empty.clone(), vec![(1, 0)], vec![(1, 0)], vec![(1, 1)]]);
    assert_eq!(c, vec![empty.clone(), empty.clone(), empty.clone(), vec![(1, 3)], vec![(1, 4)], vec![(1, 5)]]);
    assert!(check_structure(&a, &b, &c, info.number_of_input_rows));
}

#[test]
fn reveal_circuit_is_well_structured() {
    let cb = build_reveal_circuit(3, 4);
    let (info, a, b, c) = compile(&cb);
    assert_eq!(info.number_of_input_rows, 9);
    assert_eq!(info.number_of_constraints, 30);
    assert_eq!(info.number_of_non_zero_entries, 30);
    assert!(is_strictly_lower_triangular(&a, info.number_of_input_rows));
    assert!(is_strictly_lower_triangular(&b, info.number_of_input_rows));
    assert!(is_diagonal(&c, info.number_of_input_rows));
    assert!(check_structure(&a, &b, &c, info.number_of_input_rows));
    for (r, row) in a.iter().enumerate() {
        for (_, col) in row {
            assert!(r >= info.number_of_input_rows);
            assert!(r > *col);
        }
    }
    for (r, row) in c.iter().enumerate() {
        if r >= info.number_of_input_rows {
            assert_eq!(row.len(), 1);
            assert_eq!(row[0].1, r);
        } else {
            assert!(row.is_empty());
        }
    }
}

#[test]
fn reveal_circuit_assignment_satisfies_its_matrices() {
    for (x, y) in [(0, 0), (0, 7), (5, 2), (6, 6)] {
        let cb = build_reveal_circuit(x, y);
        let (_, a, b, c) = compile(&cb);
        let z = &cb.witness_vector();
        for r in 0..a.len() {
            assert_eq!(dot(&a[r], z) * dot(&b[r], z), dot(&c[r], z), "row {}", r);
        }
    }
}

#[test]
fn forward_reference_is_rejected() {
    let cb = build_reveal_circuit(1, 2);
    let (info, mut a, b, c) = compile(&cb);
    let nir = info.number_of_input_rows;
    // point an entry of the first constraint row at a later column
    a[nir][0].1 = nir + 1;
    assert!(!is_strictly_lower_triangular(&a, nir));
    assert!(!check_structure(&a, &b, &c, nir));
}

#[test]
fn self_reference_is_rejected() {
    let cb = build_reveal_circuit(1, 2);
    let (info, a, mut b, c) = compile(&cb);
    let nir = info.number_of_input_rows;
    b[nir + 2][0].1 = nir + 2;
    assert!(!check_structure(&a, &b, &c, nir));
}

#[test]
fn entry_in_input_rows_is_rejected() {
    let cb = build_reveal_circuit(1, 2);
    let (info, mut a, b, c) = compile(&cb);
    a[1].push((1, 0));
    assert!(!check_structure(&a, &b, &c, info.number_of_input_rows));
}

#[test]
fn off_diagonal_c_is_rejected() {
    let cb = build_reveal_circuit(1, 2);
    let (info, a, b, mut c) = compile(&cb);
    let nir = info.number_of_input_rows;
    c[nir + 1][0].1 = nir;
    assert!(!is_diagonal(&c, nir));
    assert!(!check_structure(&a, &b, &c, nir));
    let (_, _, _, mut c2) = compile(&cb);
    c2[nir + 1].push((1, nir + 1));
    assert!(!is_diagonal(&c2, nir));
    let (_, _, _, mut c3) = compile(&cb);
    c3[nir + 1][0].0 = 0;
    assert!(!is_diagonal(&c3, nir));
    let (_, _, _, mut c4) = compile(&cb);
    c4[nir + 1].clear();
    assert!(!is_diagonal(&c4, nir));
}

#[test]
fn empty_matrices_are_well_structured() {
    let m: Matrix = Vec::new();
    assert!(check_structure(&m, &m, &m, 1));
}

#[test]
fn domain_sizes_round_up_to_powers_of_two() {
    let info = IndexInfo { number_of_constraints: 33, number_of_non_zero_entries: 5, number_of_input_rows: 9 };
    assert_eq!(domain_sizes(&info), Ok(DomainSizes { domain_k: 8, domain_h: 64 }));
    let info = IndexInfo { number_of_constraints: 64, number_of_non_zero_entries: 1, number_of_input_rows: 1 };
    assert_eq!(domain_sizes(&info), Ok(DomainSizes { domain_k: 1, domain_h: 64 }));
    let info = IndexInfo { number_of_constraints: 0, number_of_non_zero_entries: 3, number_of_input_rows: 1 };
    assert_eq!(domain_sizes(&info), Ok(DomainSizes { domain_k: 4, domain_h: 1 }));
    let d = domain_sizes(&info).unwrap();
    assert_eq!(d.enforced_degree_bound(), 5);
}

#[test]
fn largest_domain_is_accepted() {
    let info = IndexInfo {
        number_of_constraints: MAX_DOMAIN_SIZE,
        number_of_non_zero_entries: MAX_DOMAIN_SIZE - 1,
        number_of_input_rows: 1,
    };
    assert_eq!(
        domain_sizes(&info),
        Ok(DomainSizes { domain_k: MAX_DOMAIN_SIZE, domain_h: MAX_DOMAIN_SIZE })
    );
}

#[test]
fn oversized_domain_fails_setup() {
    let info = IndexInfo {
        number_of_constraints: 10,
        number_of_non_zero_entries: MAX_DOMAIN_SIZE + 1,
        number_of_input_rows: 1,
    };
    assert_eq!(domain_sizes(&info), Err(Error::Setup));
    let info = IndexInfo {
        number_of_constraints: MAX_DOMAIN_SIZE + 1,
        number_of_non_zero_entries: 10,
        number_of_input_rows: 1,
    };
    assert_eq!(domain_sizes(&info), Err(Error::Setup));
}

#[test]
fn index_reveal_circuit() {
    let cb = build_reveal_circuit(0, 7);
    let ix = index_circuit(&cb).unwrap();
    assert_eq!(ix.info.number_of_constraints, 30);
    assert_eq!(ix.info.number_of_non_zero_entries, 30);
    assert_eq!(ix.info.number_of_input_rows, 9);
    assert_eq!(ix.domains, DomainSizes { domain_k: 32, domain_h: 32 });
    assert_eq!(ix.domains.enforced_degree_bound(), 33);
    assert!(check_structure(&ix.a, &ix.b, &ix.c, ix.info.number_of_input_rows));
}

#[test]
fn prover_and_verifier_derive_the_same_index() {
    let prover = index_circuit(&build_reveal_circuit(0, 7)).unwrap();
    let verifier = index_circuit(&build_reveal_circuit(0, 0)).unwrap();
    assert_eq!(prover.info, verifier.info);
    assert_eq!(prover.a, verifier.a);
    assert_eq!(prover.b, verifier.b);
    assert_eq!(prover.c, verifier.c);
    assert_eq!(prover.domains, verifier.domains);
}

#[test]
fn commitment_labels_and_roles() {
    let labels = commitment_labels();
    assert_eq!(labels, vec!["a_row", "a_col", "a_val", "b_row", "b_col", "b_val", "c_row", "c_col", "c_val"]);
    let roles = triple_roles();
    assert_eq!(labels[roles.row_a], "a_col");
    assert_eq!(labels[roles.col_a], "a_row");
    assert_eq!(labels[roles.row_b], "b_col");
    assert_eq!(labels[roles.col_b], "b_row");
    assert_eq!(labels[roles.row_c], "c_row");
    assert_eq!(labels[roles.col_c], "c_col");
    assert_eq!(labels[roles.val_c], "c_val");
}
