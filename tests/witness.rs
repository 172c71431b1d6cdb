use functional_commitment::error::Error;
use functional_commitment::field::Fe;
use functional_commitment::indexer::index_circuit;
use functional_commitment::loot_box::build_reveal_circuit;
use functional_commitment::witness::{check_witness, is_satisfied};

#[test]
fn honest_witness_is_accepted() {
    for (a, b) in [(0, 0), (0, 7), (3, 4), (7, 7)] {
        let cb = build_reveal_circuit(a, b);
        let ix = index_circuit(&cb).unwrap();
        assert!(is_satisfied(&ix, &cb.witness_vector()));
        assert_eq!(check_witness(&ix, &cb.witness_vector()), Ok(()));
    }
}

#[test]
fn wrong_claimed_output_is_refused() {
    let cb = build_reveal_circuit(0, 7);
    let ix = index_circuit(&cb).unwrap();
    let mut z = cb.witness_vector();
    let last = z.len() - 1;
    assert_eq!(z[last], Fe::one());
    z[last] = Fe::zero();
    assert!(!is_satisfied(&ix, &z));
    assert_eq!(check_witness(&ix, &z), Err(Error::ProofGeneration));
}

#[test]
fn tampered_intermediate_value_is_refused() {
    let cb = build_reveal_circuit(0, 0);
    let ix = index_circuit(&cb).unwrap();
    let mut z = cb.witness_vector();
    z[12] = Fe::from_u64(12345);
    assert_eq!(check_witness(&ix, &z), Err(Error::ProofGeneration));
}

#[test]
fn witness_of_wrong_length_is_refused() {
    let cb = build_reveal_circuit(0, 0);
    let ix = index_circuit(&cb).unwrap();
    let mut z = cb.witness_vector();
    z.push(Fe::zero());
    assert_eq!(check_witness(&ix, &z), Err(Error::ProofGeneration));
    z.truncate(5);
    assert_eq!(check_witness(&ix, &z), Err(Error::ProofGeneration));
}

#[test]
fn constant_witness_is_refused() {
    let cb = build_reveal_circuit(0, 0);
    let ix = index_circuit(&cb).unwrap();
    let z = vec![Fe::minus_one(); cb.num_variables()];
    assert!(!is_satisfied(&ix, &z));
    let z = vec![Fe::one(); cb.num_variables()];
    assert!(!is_satisfied(&ix, &z));
}
