use vstd::prelude::*;

use crate::compiler::{dot, lemma_dot_one, lemma_dot_two, satisfied, small_row};
use crate::error::Error;
use crate::field::{Fe, fe_add, fe_mul, lemma_val_injective, modulus};
use crate::gadget::all_wf;
use crate::indexer::IndexedCircuit;
use crate::structure::rows_of;
use vstd::arithmetic::div_mod::{lemma_add_mod_noop, lemma_mul_mod_noop, lemma_small_mod};

verus! {

/// The product of a short row with `z`, in the field.
fn row_dot(row: &Vec<(i64, usize)>, z: &Vec<Fe>) -> (r: Fe)
    requires
        small_row(row@, z@.len() as int),
        all_wf(z@),
    ensures
        r.wf(),
        r.val() == dot(row@, z@) % (modulus() as int),
{
    let ghost p = modulus() as int;
    if row.len() == 0 {
        proof {
            lemma_small_mod(0, modulus());
        }
        Fe::zero()
    } else if row.len() == 1 {
        let (c0, j0) = row[0];
        let t0 = fe_mul(Fe::from_u64(c0 as u64), z[j0]);
        proof {
            assert(row@ =~= seq![(c0, j0)]);
            lemma_dot_one((c0, j0), z@);
            assert(dot(seq![(c0, j0)], z@) == c0 * z@[j0 as int].val());
            assert(z@[j0 as int].wf());
        }
        t0
    } else {
        let (c0, j0) = row[0];
        let (c1, j1) = row[1];
        let t0 = fe_mul(Fe::from_u64(c0 as u64), z[j0]);
        let t1 = fe_mul(Fe::from_u64(c1 as u64), z[j1]);
        let s = fe_add(t0, t1);
        proof {
            assert(row@ =~= seq![(c0, j0), (c1, j1)]);
            lemma_dot_two((c0, j0), (c1, j1), z@);
            assert(dot(seq![(c0, j0), (c1, j1)], z@) == c0 * z@[j0 as int].val() + c1 * z@[
                j1 as int
            ].val());
            assert(z@[j0 as int].wf());
            assert(z@[j1 as int].wf());
            lemma_add_mod_noop(c0 * z@[j0 as int].val(), c1 * z@[j1 as int].val(), p);
        }
        s
    }
}

/// Checks `A·z ∘ B·z = C·z` in the field for a candidate witness `z`, row by row.
pub fn is_satisfied(ix: &IndexedCircuit, z: &Vec<Fe>) -> (r: bool)
    requires
        ix.wf(),
        z@.len() == ix.info.number_of_constraints,
        all_wf(z@),
    ensures
        r == satisfied(rows_of(&ix.a), rows_of(&ix.b), rows_of(&ix.c), z@),
{
    let n = ix.a.len();
    let ghost p = modulus() as int;
    let mut r: usize = 0;
    while r < n
        invariant
            ix.wf(),
            n == ix.a@.len(),
            z@.len() == ix.info.number_of_constraints,
            all_wf(z@),
            p == modulus() as int,
            0 <= r <= n,
            forall|r2: int|
                0 <= r2 < r ==> (dot(#[trigger] rows_of(&ix.a)[r2], z@) * dot(rows_of(&ix.b)[r2], z@))
                    % p == dot(rows_of(&ix.c)[r2], z@) % p,
        decreases n - r,
    {
        assert(ix.a[r as int]@ == rows_of(&ix.a)[r as int]);
        assert(ix.b[r as int]@ == rows_of(&ix.b)[r as int]);
        assert(ix.c[r as int]@ == rows_of(&ix.c)[r as int]);
        assert(small_row(rows_of(&ix.a)[r as int], n as int));
        assert(small_row(rows_of(&ix.b)[r as int], n as int));
        assert(small_row(rows_of(&ix.c)[r as int], n as int));
        let da = row_dot(&ix.a[r], z);
        let db = row_dot(&ix.b[r], z);
        let dc = row_dot(&ix.c[r], z);
        let prod = fe_mul(da, db);
        proof {
            lemma_mul_mod_noop(dot(rows_of(&ix.a)[r as int], z@), dot(rows_of(&ix.b)[r as int], z@), p);
        }
        if prod != dc {
            proof {
                if prod.val() == dc.val() {
                    lemma_val_injective(prod, dc);
                }
            }
            return false;
        }
        r = r + 1;
    }
    true
}

/// The prover's guard: refuses, with `ProofGeneration`, a witness that does not
/// satisfy the constraint system, so that no proof is made for it.
pub fn check_witness(ix: &IndexedCircuit, z: &Vec<Fe>) -> (r: Result<(), Error>)
    requires
        ix.wf(),
        all_wf(z@),
    ensures
        r is Ok <==> z@.len() == ix.info.number_of_constraints && satisfied(
            rows_of(&ix.a),
            rows_of(&ix.b),
            rows_of(&ix.c),
            z@,
        ),
        r is Err ==> r->Err_0 == Error::ProofGeneration,
{
    if z.len() != ix.info.number_of_constraints || !is_satisfied(ix, z) {
        return Err(Error::ProofGeneration);
    }
    Ok(())
}

} // verus!
