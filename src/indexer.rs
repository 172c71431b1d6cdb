use vstd::prelude::*;

use crate::circuit::ConstraintBuilder;
use crate::compiler::{
    IndexInfo,
    compile,
    compiles_to,
    lemma_compiled_circuit_satisfied,
    lemma_compiled_rows_small,
    no_forward_reads,
    satisfied,
    small_rows,
};
use crate::error::Error;
use crate::setup::{DomainSizes, MAX_DOMAIN_SIZE, domain_sizes, is_domain_size_for};
use crate::structure::{Matrix, check_structure, rows_of, well_structured};

verus! {

/// A compiled circuit that passed the structural validator, with its domains.
pub struct IndexedCircuit {
    pub info: IndexInfo,
    pub a: Matrix,
    pub b: Matrix,
    pub c: Matrix,
    pub domains: DomainSizes,
}

impl IndexedCircuit {
    /// One row per variable in each matrix, each row short and inside the witness vector.
    pub open spec fn wf(&self) -> bool {
        let n = self.info.number_of_constraints as int;
        &&& self.a@.len() == n
        &&& self.b@.len() == n
        &&& self.c@.len() == n
        &&& small_rows(rows_of(&self.a), n)
        &&& small_rows(rows_of(&self.b), n)
        &&& small_rows(rows_of(&self.c), n)
    }
}

/// Compiles a circuit, checks the shape of its matrices, and sizes its
/// evaluation domains: what prover and verifier both derive from the same circuit.
///
/// The structural check runs every time: a circuit in which a witness reads an
/// output is rejected with `StructuralViolation`. Domains too large for the
/// field fail with `Setup`.
pub fn index_circuit(cb: &ConstraintBuilder) -> (r: Result<IndexedCircuit, Error>)
    requires
        cb.wf(),
        cb.num_vars() <= usize::MAX / 2,
    ensures
        r == Err::<IndexedCircuit, Error>(Error::StructuralViolation) <==> !no_forward_reads(*cb),
        no_forward_reads(*cb) && cb.num_vars() <= MAX_DOMAIN_SIZE / 2 ==> r is Ok,
        r is Err ==> r->Err_0 == Error::StructuralViolation || r->Err_0 == Error::Setup,
        r is Ok ==> {
            let ix = r->Ok_0;
            &&& ix.wf()
            &&& ix.info.number_of_input_rows == cb.num_input_rows()
            &&& ix.info.number_of_constraints == cb.num_vars()
            &&& compiles_to(*cb, rows_of(&ix.a), rows_of(&ix.b), rows_of(&ix.c))
            &&& well_structured(
                rows_of(&ix.a),
                rows_of(&ix.b),
                rows_of(&ix.c),
                ix.info.number_of_input_rows as int,
            )
            &&& satisfied(rows_of(&ix.a), rows_of(&ix.b), rows_of(&ix.c), cb.z())
            &&& ix.domains.wf()
            &&& is_domain_size_for(
                ix.domains.domain_k as nat,
                ix.info.number_of_non_zero_entries as nat,
            )
            &&& is_domain_size_for(
                ix.domains.domain_h as nat,
                ix.info.number_of_constraints as nat,
            )
        },
{
    let (info, a, b, c) = compile(cb);
    if !check_structure(&a, &b, &c, info.number_of_input_rows) {
        return Err(Error::StructuralViolation);
    }
    let domains = match domain_sizes(&info) {
        Ok(d) => d,
        Err(e) => {
            return Err(e);
        },
    };
    proof {
        lemma_compiled_circuit_satisfied(*cb, rows_of(&a), rows_of(&b), rows_of(&c));
        lemma_compiled_rows_small(*cb, rows_of(&a), rows_of(&b), rows_of(&c));
    }
    Ok(IndexedCircuit { info, a, b, c, domains })
}

/// The labels of the nine matrix commitments of a verifying key, in its order:
/// row, column and value polynomials of A, then of B, then of C.
pub fn commitment_labels() -> (r: Vec<&'static str>)
    ensures
        r@.len() == 9,
        r@[0]@ == "a_row"@,
        r@[1]@ == "a_col"@,
        r@[2]@ == "a_val"@,
        r@[3]@ == "b_row"@,
        r@[4]@ == "b_col"@,
        r@[5]@ == "b_val"@,
        r@[6]@ == "c_row"@,
        r@[7]@ == "c_col"@,
        r@[8]@ == "c_val"@,
{
    vec!["a_row", "a_col", "a_val", "b_row", "b_col", "b_val", "c_row", "c_col", "c_val"]
}

/// Which of the nine commitments (positions in `commitment_labels`) the
/// structural proof takes for each of its arguments.
///
/// The proof checks strict *upper* triangularity of A and B, so it takes their
/// transposes: the column polynomial stands for the rows and the row polynomial
/// for the columns. C is diagonal, its own transpose, and is taken as it is.
#[derive(Clone, Copy, Debug, PartialEq, Eq, Structural)]
pub struct TripleRoles {
    pub row_a: usize,
    pub col_a: usize,
    pub row_b: usize,
    pub col_b: usize,
    pub row_c: usize,
    pub col_c: usize,
    pub val_c: usize,
}

pub fn triple_roles() -> (r: TripleRoles)
    ensures
        r == (TripleRoles {
            row_a: 1,
            col_a: 0,
            row_b: 4,
            col_b: 3,
            row_c: 6,
            col_c: 7,
            val_c: 8,
        }),
{
    TripleRoles { row_a: 1, col_a: 0, row_b: 4, col_b: 3, row_c: 6, col_c: 7, val_c: 8 }
}

} // verus!
