use vstd::prelude::*;

use crate::circuit::{ConstraintBuilder, Gate, GateKind, VariableKind, Wire};
use crate::field::{Fe, modulus};
use crate::structure::{Matrix, rows_of, well_structured};
use vstd::arithmetic::div_mod::lemma_mod_twice;

verus! {

/// Dimensions of a compiled circuit, which prover and verifier both derive.
#[derive(Clone, Copy, Debug, PartialEq, Eq, Structural)]
pub struct IndexInfo {
    /// Rows of each matrix: one per variable, the constant included.
    pub number_of_constraints: usize,
    /// The largest count of non-zero entries among A, B and C.
    pub number_of_non_zero_entries: usize,
    /// Rows of the constant and the public inputs, which hold no constraint.
    pub number_of_input_rows: usize,
}

/// Row of A for a gate: both operands for an addition, the left one for a product.
pub open spec fn a_row(cb: ConstraintBuilder, g: Gate) -> Seq<(i64, usize)> {
    let l = cb.column(g.left) as usize;
    let r = cb.column(g.right) as usize;
    match g.kind {
        GateKind::Add => if l == r {
            seq![(2i64, l)]
        } else {
            seq![(1i64, l), (1i64, r)]
        },
        GateKind::Mul => seq![(1i64, l)],
    }
}

/// Row of B for a gate: the constant one for an addition, the right operand for a product.
pub open spec fn b_row(cb: ConstraintBuilder, g: Gate) -> Seq<(i64, usize)> {
    match g.kind {
        GateKind::Add => seq![(1i64, 0usize)],
        GateKind::Mul => seq![(1i64, cb.column(g.right) as usize)],
    }
}

/// Row of C for a gate whose result is column `r`.
pub open spec fn c_row(r: int) -> Seq<(i64, usize)> {
    seq![(1i64, r as usize)]
}

/// The number of entries of a sparse matrix.
pub open spec fn total_len(m: Seq<Seq<(i64, usize)>>) -> int
    decreases m.len(),
{
    if m.len() == 0 {
        0
    } else {
        total_len(m.drop_last()) + m.last().len()
    }
}

pub open spec fn max3(x: int, y: int, z: int) -> int {
    if x >= y && x >= z {
        x
    } else if y >= z {
        y
    } else {
        z
    }
}

/// Which gate has column `r` as its result, for `r` past the input rows: the
/// witness gates in order, then the output gates.
pub open spec fn row_gate(cb: ConstraintBuilder, r: int) -> Gate {
    let nir = cb.num_input_rows();
    let nw = cb.witnesses@.len() as int;
    if r < nir + nw {
        cb.witness_gates@[r - nir]
    } else {
        cb.output_gates@[r - nir - nw]
    }
}

/// The matrices that `cb` compiles to: one row per column of the witness
/// vector, empty for the inputs, then the row of whichever gate defines it.
pub open spec fn compiles_to(
    cb: ConstraintBuilder,
    a: Seq<Seq<(i64, usize)>>,
    b: Seq<Seq<(i64, usize)>>,
    c: Seq<Seq<(i64, usize)>>,
) -> bool {
    let n = cb.num_vars();
    let nir = cb.num_input_rows();
    &&& a.len() == n
    &&& b.len() == n
    &&& c.len() == n
    &&& forall|r: int|
        0 <= r < nir ==> (#[trigger] a[r]).len() == 0 && b[r].len() == 0 && c[r].len() == 0
    &&& forall|r: int|
        nir <= r < n ==> (#[trigger] a[r]) == a_row(cb, row_gate(cb, r)) && b[r] == b_row(
            cb,
            row_gate(cb, r),
        ) && c[r] == c_row(r)
}

/// Row `r` of A, B and C is the row of whichever gate defines column `r`.
pub open spec fn rows_match(
    cb: ConstraintBuilder,
    a: Seq<(i64, usize)>,
    b: Seq<(i64, usize)>,
    c: Seq<(i64, usize)>,
    r: int,
) -> bool {
    &&& a == a_row(cb, row_gate(cb, r))
    &&& b == b_row(cb, row_gate(cb, r))
    &&& c == c_row(r)
}

/// No witness reads an output: the only way for a gate to read a column
/// after its own.
pub open spec fn no_forward_reads(cb: ConstraintBuilder) -> bool {
    forall|k: int|
        0 <= k < cb.witness_gates@.len() ==> (#[trigger] cb.witness_gates@[k]).left.kind
            != VariableKind::Output && cb.witness_gates@[k].right.kind != VariableKind::Output
}

/// The operands of row `r`'s gate lie inside the witness vector, and before
/// row `r` unless a witness reads an output.
proof fn lemma_operand_columns(cb: ConstraintBuilder, r: int)
    requires
        cb.wf(),
        cb.num_input_rows() <= r < cb.num_vars(),
    ensures
        ({
            let g = row_gate(cb, r);
            let nir = cb.num_input_rows();
            let nw = cb.witnesses@.len() as int;
            let wit = r < nir + nw;
            &&& cb.in_range(g.left)
            &&& cb.in_range(g.right)
            &&& 0 <= cb.column(g.left) < cb.num_vars()
            &&& 0 <= cb.column(g.right) < cb.num_vars()
            &&& (cb.column(g.left) < r <==> !(wit && g.left.kind == VariableKind::Output))
            &&& (cb.column(g.right) < r <==> !(wit && g.right.kind == VariableKind::Output))
            &&& (wit && g.left.kind == VariableKind::Output ==> cb.column(g.left) >= nir + nw)
            &&& (wit && g.right.kind == VariableKind::Output ==> cb.column(g.right) >= nir + nw)
            &&& (!wit && g.left.kind != VariableKind::Output ==> cb.column(g.left) < nir + nw)
            &&& (!wit && g.right.kind != VariableKind::Output ==> cb.column(g.right) < nir + nw)
        }),
{
    let nir = cb.num_input_rows();
    let nw = cb.witnesses@.len() as int;
    if r < nir + nw {
        let k = r - nir;
        assert(cb.gate_wf(cb.witness_gates@[k], VariableKind::Witness, k, cb.witnesses@[k]));
    } else {
        let k = r - nir - nw;
        assert(cb.gate_wf(cb.output_gates@[k], VariableKind::Output, k, cb.outputs@[k]));
    }
}

/// The witness vector holds each variable's value at its column.
pub proof fn lemma_z_column(cb: ConstraintBuilder, w: Wire)
    requires
        cb.in_range(w),
    ensures
        cb.z()[cb.column(w)] == cb.value_of(w),
{
    let ni = cb.inputs@.len() as int;
    let nw = cb.witnesses@.len() as int;
    match w.kind {
        VariableKind::Input => assert((cb.inputs@ + cb.witnesses@)[w.index as int]
            == cb.inputs@[w.index as int]),
        VariableKind::Witness => assert((cb.inputs@ + cb.witnesses@)[ni + w.index]
            == cb.witnesses@[w.index as int]),
        VariableKind::Output => {},
    }
}

proof fn lemma_total_len_push(m: Seq<Seq<(i64, usize)>>, row: Seq<(i64, usize)>)
    ensures
        total_len(m.push(row)) == total_len(m) + row.len(),
{
    assert(m.push(row).drop_last() =~= m);
}

proof fn lemma_rows_push(m: Matrix, row: Vec<(i64, usize)>, pushed: Matrix)
    requires
        pushed@ == m@.push(row),
    ensures
        rows_of(&pushed) == rows_of(&m).push(row@),
{
    assert(rows_of(&pushed) =~= rows_of(&m).push(row@));
}

/// The product of one sparse row with the vector `z`.
pub open spec fn dot(row: Seq<(i64, usize)>, z: Seq<Fe>) -> int
    decreases row.len(),
{
    if row.len() == 0 {
        0
    } else {
        row[0].0 * z[row[0].1 as int].val() + dot(row.skip(1), z)
    }
}

/// `A·z ∘ B·z = C·z` in the field, row by row.
pub open spec fn satisfied(
    a: Seq<Seq<(i64, usize)>>,
    b: Seq<Seq<(i64, usize)>>,
    c: Seq<Seq<(i64, usize)>>,
    z: Seq<Fe>,
) -> bool {
    &&& a.len() == b.len()
    &&& b.len() == c.len()
    &&& forall|r: int|
        0 <= r < a.len() ==> (dot(#[trigger] a[r], z) * dot(b[r], z)) % (modulus() as int) == dot(
            c[r],
            z,
        ) % (modulus() as int)
}

pub(crate) proof fn lemma_dot_one(e: (i64, usize), z: Seq<Fe>)
    ensures
        dot(seq![e], z) == e.0 * z[e.1 as int].val(),
{
    assert(seq![e].skip(1) =~= Seq::<(i64, usize)>::empty());
    reveal_with_fuel(dot, 2);
}

pub(crate) proof fn lemma_dot_two(e: (i64, usize), f: (i64, usize), z: Seq<Fe>)
    ensures
        dot(seq![e, f], z) == e.0 * z[e.1 as int].val() + f.0 * z[f.1 as int].val(),
{
    assert(seq![e, f].skip(1) =~= seq![f]);
    lemma_dot_one(f, z);
}

/// A circuit's own values satisfy the constraint system it compiles to:
/// `A·z ∘ B·z = C·z` with `z` its witness vector.
pub proof fn lemma_compiled_circuit_satisfied(
    cb: ConstraintBuilder,
    a: Seq<Seq<(i64, usize)>>,
    b: Seq<Seq<(i64, usize)>>,
    c: Seq<Seq<(i64, usize)>>,
)
    requires
        cb.wf(),
        cb.num_vars() <= usize::MAX,
        compiles_to(cb, a, b, c),
    ensures
        satisfied(a, b, c, cb.z()),
{
    let z = cb.z();
    let nir = cb.num_input_rows();
    let nw = cb.witnesses@.len() as int;
    let p = modulus() as int;
    assert(p > 0);
    assert forall|r: int| 0 <= r < a.len() implies (dot(#[trigger] a[r], z) * dot(b[r], z)) % p
        == dot(c[r], z) % p by {
        if r < nir {
            assert(a[r].len() == 0);
            assert(b[r].len() == 0);
            assert(c[r].len() == 0);
            assert(dot(a[r], z) == 0);
            assert(dot(b[r], z) == 0);
            assert(dot(c[r], z) == 0);
        } else {
            let g = row_gate(cb, r);
            lemma_operand_columns(cb, r);
            let result = if r < nir + nw {
                let k = r - nir;
                assert(cb.gate_wf(cb.witness_gates@[k], VariableKind::Witness, k, cb.witnesses@[k]));
                lemma_z_column(cb, Wire { kind: VariableKind::Witness, index: k as usize });
                cb.witnesses@[k]
            } else {
                let k = r - nir - nw;
                assert(cb.gate_wf(cb.output_gates@[k], VariableKind::Output, k, cb.outputs@[k]));
                lemma_z_column(cb, Wire { kind: VariableKind::Output, index: k as usize });
                cb.outputs@[k]
            };
            assert(cb.gate_wf(g, if r < nir + nw { VariableKind::Witness } else { VariableKind::Output }, if r < nir + nw { r - nir } else { r - nir - nw }, result));
            assert(z[r] == result);
            lemma_z_column(cb, g.left);
            lemma_z_column(cb, g.right);
            lemma_z_column(cb, Wire { kind: VariableKind::Input, index: 0 });
            let cl = cb.column(g.left);
            let cr = cb.column(g.right);
            let zl = cb.value_of(g.left).val() as int;
            let zr = cb.value_of(g.right).val() as int;
            assert(z[cl].val() == zl);
            assert(z[cr].val() == zr);
            assert(a[r] == a_row(cb, g));
            assert(c[r] == c_row(r));
            lemma_dot_one((1i64, r as usize), z);
            assert((r as usize) as int == r);
            assert(dot(seq![(1i64, r as usize)], z) == 1 * z[(r as usize) as int].val());
            assert(dot(c[r], z) == result.val());
            assert(a[r] == a_row(cb, g));
            assert(b[r] == b_row(cb, g));
            assert((cl as usize) as int == cl);
            assert((cr as usize) as int == cr);
            match g.kind {
                GateKind::Add => {
                    lemma_dot_one((1i64, 0usize), z);
                    assert(dot(seq![(1i64, 0usize)], z) == 1 * z[0].val());
                    assert(b[r] == seq![(1i64, 0usize)]);
                    assert(z[0].val() == 1);
                    assert(dot(b[r], z) == 1);
                    if cl == cr {
                        lemma_dot_one((2i64, cl as usize), z);
                        assert(dot(seq![(2i64, cl as usize)], z) == 2 * z[cl].val());
                        assert(dot(a[r], z) == zl + zr);
                    } else {
                        lemma_dot_two((1i64, cl as usize), (1i64, cr as usize), z);
                        assert(dot(seq![(1i64, cl as usize), (1i64, cr as usize)], z) == 1 * z[cl].val()
                            + 1 * z[cr].val());
                        assert(dot(a[r], z) == zl + zr);
                    }
                    let (da, db) = (dot(a[r], z), dot(b[r], z));
                    assert(da * db == zl + zr) by (nonlinear_arith)
                        requires
                            db == 1,
                            da == zl + zr,
                    ;
                    assert(result.val() == (zl + zr) % p);
                    lemma_mod_twice(zl + zr, p);
                },
                GateKind::Mul => {
                    lemma_dot_one((1i64, cl as usize), z);
                    lemma_dot_one((1i64, cr as usize), z);
                    assert(dot(seq![(1i64, cl as usize)], z) == 1 * z[cl].val());
                    assert(dot(seq![(1i64, cr as usize)], z) == 1 * z[cr].val());
                    assert(a[r] == seq![(1i64, cl as usize)]);
                    assert(b[r] == seq![(1i64, cr as usize)]);
                    assert(dot(a[r], z) == 1 * z[cl].val());
                    assert(dot(b[r], z) == 1 * z[cr].val());
                    assert(dot(a[r], z) * dot(b[r], z) == zl * zr);
                    assert(result.val() == (zl * zr) % p);
                    lemma_mod_twice(zl * zr, p);
                },
            }
        }
    }
}

/// Each row has at most two entries, with coefficients 1 or 2 and columns below `n`.
pub open spec fn small_row(row: Seq<(i64, usize)>, n: int) -> bool {
    &&& row.len() <= 2
    &&& forall|j: int| 0 <= j < row.len() ==> 1 <= (#[trigger] row[j]).0 <= 2 && row[j].1 < n
}

pub open spec fn small_rows(m: Seq<Seq<(i64, usize)>>, n: int) -> bool {
    forall|r: int| 0 <= r < m.len() ==> small_row(#[trigger] m[r], n)
}

/// Whatever a circuit compiles to passes the structural validator exactly
/// when no witness reads an output: A and B are then strictly lower triangular
/// beyond the input rows, and C holds one entry per constraint row, on the
/// diagonal; a witness that reads an output reads a later column.
pub proof fn lemma_compiled_well_structured(
    cb: ConstraintBuilder,
    ra: Seq<Seq<(i64, usize)>>,
    rb: Seq<Seq<(i64, usize)>>,
    rc: Seq<Seq<(i64, usize)>>,
)
    requires
        cb.wf(),
        cb.num_vars() <= usize::MAX,
        compiles_to(cb, ra, rb, rc),
    ensures
        well_structured(ra, rb, rc, cb.num_input_rows()) <==> no_forward_reads(cb),
{
    let nir = cb.num_input_rows();
    let nw = cb.witnesses@.len() as int;
    if no_forward_reads(cb) {
        assert forall|r: int| 0 <= r < ra.len() implies crate::structure::row_below_diagonal(
            #[trigger] ra[r],
            r,
            nir,
        ) by {
            if r >= nir {
                lemma_operand_columns(cb, r);
                let g = row_gate(cb, r);
                if r < nir + nw {
                    assert(cb.witness_gates@[r - nir] == g);
                }
                assert(ra[r] == a_row(cb, g));
                assert((cb.column(g.left) as usize) as int == cb.column(g.left));
                assert((cb.column(g.right) as usize) as int == cb.column(g.right));
            }
        }
        assert forall|r: int| 0 <= r < rb.len() implies crate::structure::row_below_diagonal(
            #[trigger] rb[r],
            r,
            nir,
        ) by {
            if r >= nir {
                lemma_operand_columns(cb, r);
                let g = row_gate(cb, r);
                if r < nir + nw {
                    assert(cb.witness_gates@[r - nir] == g);
                }
                assert(ra[r] == a_row(cb, g));
                assert(rb[r] == b_row(cb, g));
                assert((cb.column(g.right) as usize) as int == cb.column(g.right));
            } else {
                assert(ra[r].len() == 0);
            }
        }
        assert forall|r: int| 0 <= r < rc.len() implies (if r < nir {
            (#[trigger] rc[r]).len() == 0
        } else {
            rc[r].len() == 1 && rc[r][0].1 == r && rc[r][0].0 != 0
        }) by {
            if r >= nir {
                assert(ra[r] == a_row(cb, row_gate(cb, r)));
                assert(rc[r] == c_row(r));
                assert(rc[r][0] == (1i64, r as usize));
            } else {
                assert(ra[r].len() == 0);
            }
        }
    } else {
        let k = choose|k: int|
            0 <= k < cb.witness_gates@.len() && !((#[trigger] cb.witness_gates@[k]).left.kind
                != VariableKind::Output && cb.witness_gates@[k].right.kind != VariableKind::Output);
        let r = nir + k;
        lemma_operand_columns(cb, r);
        let g = row_gate(cb, r);
        assert(g == cb.witness_gates@[k]);
        assert(ra[r] == a_row(cb, g));
        assert(rb[r] == b_row(cb, g));
        let cl = cb.column(g.left);
        let cr = cb.column(g.right);
        assert((cl as usize) as int == cl);
        assert((cr as usize) as int == cr);
        if g.left.kind == VariableKind::Output {
            assert(ra[r][0].1 == cl);
            assert(!crate::structure::entry_below_diagonal(ra[r][0], r, nir));
            assert(!crate::structure::row_below_diagonal(ra[r], r, nir));
        } else {
            match g.kind {
                GateKind::Add => {
                    assert(ra[r][1].1 == cr);
                    assert(!crate::structure::entry_below_diagonal(ra[r][1], r, nir));
                    assert(!crate::structure::row_below_diagonal(ra[r], r, nir));
                },
                GateKind::Mul => {
                    assert(rb[r][0].1 == cr);
                    assert(!crate::structure::entry_below_diagonal(rb[r][0], r, nir));
                    assert(!crate::structure::row_below_diagonal(rb[r], r, nir));
                },
            }
        }
    }
}

/// The rows that a circuit compiles to are short, with small coefficients and
/// columns inside the witness vector.
pub proof fn lemma_compiled_rows_small(
    cb: ConstraintBuilder,
    a: Seq<Seq<(i64, usize)>>,
    b: Seq<Seq<(i64, usize)>>,
    c: Seq<Seq<(i64, usize)>>,
)
    requires
        cb.wf(),
        cb.num_vars() <= usize::MAX,
        compiles_to(cb, a, b, c),
    ensures
        small_rows(a, cb.num_vars()),
        small_rows(b, cb.num_vars()),
        small_rows(c, cb.num_vars()),
{
    let n = cb.num_vars();
    let nir = cb.num_input_rows();
    assert forall|r: int| 0 <= r < a.len() implies small_row(#[trigger] a[r], n) && small_row(
        b[r],
        n,
    ) && small_row(c[r], n) by {
        if r >= nir {
            lemma_operand_columns(cb, r);
            let g = row_gate(cb, r);
            assert(a[r] == a_row(cb, g));
            assert((cb.column(g.left) as usize) as int == cb.column(g.left));
            assert((cb.column(g.right) as usize) as int == cb.column(g.right));
            assert(c[r] == c_row(r));
            assert((r as usize) as int == r);
        } else {
            assert(a[r].len() == 0);
        }
    }
    assert forall|r: int| 0 <= r < b.len() implies small_row(#[trigger] b[r], n) by {
        assert(small_row(a[r], n));
    }
    assert forall|r: int| 0 <= r < c.len() implies small_row(#[trigger] c[r], n) by {
        assert(small_row(a[r], n));
    }
}

/// The matrices depend on a circuit's shape alone, its gates and its number of
/// inputs, never on its values: a prover and a verifier who build the same
/// circuit from different inputs derive the same A, B and C.
pub proof fn lemma_compile_depends_on_shape(
    cb1: ConstraintBuilder,
    cb2: ConstraintBuilder,
    a1: Seq<Seq<(i64, usize)>>,
    b1: Seq<Seq<(i64, usize)>>,
    c1: Seq<Seq<(i64, usize)>>,
    a2: Seq<Seq<(i64, usize)>>,
    b2: Seq<Seq<(i64, usize)>>,
    c2: Seq<Seq<(i64, usize)>>,
)
    requires
        cb1.wf(),
        cb2.wf(),
        cb1.inputs@.len() == cb2.inputs@.len(),
        cb1.witness_gates@ == cb2.witness_gates@,
        cb1.output_gates@ == cb2.output_gates@,
        compiles_to(cb1, a1, b1, c1),
        compiles_to(cb2, a2, b2, c2),
    ensures
        a1 == a2,
        b1 == b2,
        c1 == c2,
{
    let nir = cb1.num_input_rows();
    assert forall|r: int| 0 <= r < a1.len() implies #[trigger] a1[r] == a2[r] && b1[r] == b2[r]
        && c1[r] == c2[r] by {
        if r < nir {
            assert(a1[r].len() == 0 && a2[r].len() == 0);
            assert(a1[r] =~= a2[r]);
            assert(b1[r] =~= b2[r]);
            assert(c1[r] =~= c2[r]);
        } else {
            assert(a1[r] == a_row(cb1, row_gate(cb1, r)));
            assert(a2[r] == a_row(cb2, row_gate(cb2, r)));
            assert(row_gate(cb1, r) == row_gate(cb2, r));
        }
    }
    assert(a1 =~= a2);
    assert forall|r: int| 0 <= r < b1.len() implies #[trigger] b1[r] == b2[r] by {
        assert(a1[r] == a2[r]);
    }
    assert(b1 =~= b2);
    assert forall|r: int| 0 <= r < c1.len() implies #[trigger] c1[r] == c2[r] by {
        assert(a1[r] == a2[r]);
    }
    assert(c1 =~= c2);
}

fn column_of(cb: &ConstraintBuilder, w: Wire) -> (c: usize)
    requires
        cb.in_range(w),
        cb.num_vars() <= usize::MAX,
    ensures
        c == cb.column(w),
{
    match w.kind {
        VariableKind::Input => w.index,
        VariableKind::Witness => cb.inputs.len() + w.index,
        VariableKind::Output => cb.inputs.len() + cb.witnesses.len() + w.index,
    }
}

/// Lowers a circuit into the sparse matrices A, B, C of `A·z ∘ B·z = C·z`,
/// where `z` is its witness vector: one row per column, empty for the inputs,
/// then one per witness gate and one per output gate.
pub fn compile(cb: &ConstraintBuilder) -> (r: (IndexInfo, Matrix, Matrix, Matrix))
    requires
        cb.wf(),
        cb.num_vars() <= usize::MAX / 2,
    ensures
        r.0.number_of_input_rows == cb.num_input_rows(),
        r.0.number_of_constraints == cb.num_vars(),
        compiles_to(*cb, rows_of(&r.1), rows_of(&r.2), rows_of(&r.3)),
        r.0.number_of_non_zero_entries <= 2 * (cb.num_vars() - cb.num_input_rows()),
        r.0.number_of_non_zero_entries == max3(
            total_len(rows_of(&r.1)),
            total_len(rows_of(&r.2)),
            total_len(rows_of(&r.3)),
        ),
        well_structured(
            rows_of(&r.1),
            rows_of(&r.2),
            rows_of(&r.3),
            r.0.number_of_input_rows as int,
        ) <==> no_forward_reads(*cb),
{
    let nir = cb.inputs.len();
    let nw = cb.witnesses.len();
    let total = nw + cb.outputs.len();
    let n = nir + total;
    let mut a: Matrix = Vec::new();
    let mut b: Matrix = Vec::new();
    let mut c: Matrix = Vec::new();
    let mut i: usize = 0;
    while i < nir
        invariant
            nir == cb.num_input_rows(),
            0 <= i <= nir,
            a@.len() == i,
            b@.len() == i,
            c@.len() == i,
            forall|r: int|
                0 <= r < i ==> (#[trigger] rows_of(&a)[r]).len() == 0 && rows_of(&b)[r].len() == 0
                    && rows_of(&c)[r].len() == 0,
            total_len(rows_of(&a)) == 0,
            total_len(rows_of(&b)) == 0,
            total_len(rows_of(&c)) == 0,
        decreases nir - i,
    {
        let ghost (a0, b0, c0) = (a, b, c);
        let ea: Vec<(i64, usize)> = Vec::new();
        let eb: Vec<(i64, usize)> = Vec::new();
        let ec: Vec<(i64, usize)> = Vec::new();
        proof {
            lemma_total_len_push(rows_of(&a0), ea@);
            lemma_total_len_push(rows_of(&b0), eb@);
            lemma_total_len_push(rows_of(&c0), ec@);
        }
        a.push(ea);
        b.push(eb);
        c.push(ec);
        proof {
            lemma_rows_push(a0, ea, a);
            lemma_rows_push(b0, eb, b);
            lemma_rows_push(c0, ec, c);
            assert forall|r: int| 0 <= r < i + 1 implies (#[trigger] rows_of(&a)[r]).len() == 0
                && rows_of(&b)[r].len() == 0 && rows_of(&c)[r].len() == 0 by {
                if r < i {
                    assert(rows_of(&a)[r] == rows_of(&a0)[r]);
                    assert(rows_of(&b)[r] == rows_of(&b0)[r]);
                    assert(rows_of(&c)[r] == rows_of(&c0)[r]);
                }
            }
        }
        i = i + 1;
    }
    let mut nnz_a: usize = 0;
    let mut k: usize = 0;
    while k < total
        invariant
            cb.wf(),
            n == cb.num_vars(),
            n <= usize::MAX / 2,
            nir == cb.num_input_rows(),
            nw == cb.witnesses@.len(),
            total == nw + cb.outputs@.len(),
            n == nir + total,
            0 <= k <= total,
            a@.len() == nir + k,
            b@.len() == nir + k,
            c@.len() == nir + k,
            forall|r: int|
                0 <= r < nir ==> (#[trigger] rows_of(&a)[r]).len() == 0 && rows_of(&b)[r].len() == 0
                    && rows_of(&c)[r].len() == 0,
            forall|r: int|
                nir <= r < nir + k ==> rows_match(*cb, #[trigger] rows_of(&a)[r], rows_of(&b)[r], rows_of(&c)[r], r),
            nnz_a == total_len(rows_of(&a)),
            nnz_a <= 2 * k,
            total_len(rows_of(&b)) == k,
            total_len(rows_of(&c)) == k,
        decreases total - k,
    {
        let g = if k < nw {
            cb.witness_gates[k]
        } else {
            cb.output_gates[k - nw]
        };
        let row = nir + k;
        proof {
            assert(g == row_gate(*cb, row as int));
            lemma_operand_columns(*cb, row as int);
            if k < nw {
                assert(cb.gate_wf(cb.witness_gates@[k as int], VariableKind::Witness, k as int, cb.witnesses@[k as int]));
            } else {
                assert(cb.gate_wf(cb.output_gates@[k - nw], VariableKind::Output, k - nw, cb.outputs@[k - nw]));
            }
        }
        let cl = column_of(cb, g.left);
        let cr = column_of(cb, g.right);
        let ea: Vec<(i64, usize)> = match g.kind {
            GateKind::Add => if cl == cr {
                vec![(2i64, cl)]
            } else {
                vec![(1i64, cl), (1i64, cr)]
            },
            GateKind::Mul => vec![(1i64, cl)],
        };
        let eb: Vec<(i64, usize)> = match g.kind {
            GateKind::Add => vec![(1i64, 0usize)],
            GateKind::Mul => vec![(1i64, cr)],
        };
        let ec: Vec<(i64, usize)> = vec![(1i64, row)];
        assert(ea@ =~= a_row(*cb, g));
        assert(eb@ =~= b_row(*cb, g));
        assert(ec@ =~= c_row(row as int));
        let ghost (a0, b0, c0) = (a, b, c);
        let ghost (va, vb, vc) = (ea@, eb@, ec@);
        proof {
            lemma_total_len_push(rows_of(&a0), ea@);
            lemma_total_len_push(rows_of(&b0), eb@);
            lemma_total_len_push(rows_of(&c0), ec@);
        }
        nnz_a = nnz_a + ea.len();
        a.push(ea);
        b.push(eb);
        c.push(ec);
        proof {
            lemma_rows_push(a0, ea, a);
            lemma_rows_push(b0, eb, b);
            lemma_rows_push(c0, ec, c);
            assert forall|r: int| 0 <= r < nir implies (#[trigger] rows_of(&a)[r]).len() == 0
                && rows_of(&b)[r].len() == 0 && rows_of(&c)[r].len() == 0 by {
                assert(rows_of(&a)[r] == rows_of(&a0)[r]);
                assert(rows_of(&b)[r] == rows_of(&b0)[r]);
                assert(rows_of(&c)[r] == rows_of(&c0)[r]);
            }
            assert forall|r: int| nir <= r < nir + k + 1 implies rows_match(
                *cb,
                #[trigger] rows_of(&a)[r],
                rows_of(&b)[r],
                rows_of(&c)[r],
                r,
            ) by {
                if r < nir + k {
                    assert(rows_of(&a)[r] == rows_of(&a0)[r]);
                    assert(rows_of(&b)[r] == rows_of(&b0)[r]);
                    assert(rows_of(&c)[r] == rows_of(&c0)[r]);
                    assert(rows_match(*cb, rows_of(&a0)[r], rows_of(&b0)[r], rows_of(&c0)[r], r));
                } else {
                    assert(r == row);
                    assert(rows_of(&a)[r] == va);
                    assert(rows_of(&b)[r] == vb);
                    assert(rows_of(&c)[r] == vc);
                    assert(va == a_row(*cb, row_gate(*cb, r)));
                    assert(vb == b_row(*cb, row_gate(*cb, r)));
                    assert(vc == c_row(r));
                }
            }
        }
        k = k + 1;
    }
    let nnz = if nnz_a >= total {
        nnz_a
    } else {
        total
    };
    let info = IndexInfo {
        number_of_constraints: n,
        number_of_non_zero_entries: nnz,
        number_of_input_rows: nir,
    };
    proof {
        assert forall|r: int| nir <= r < n implies (#[trigger] rows_of(&a)[r]) == a_row(
            *cb,
            row_gate(*cb, r),
        ) && rows_of(&b)[r] == b_row(*cb, row_gate(*cb, r)) && rows_of(&c)[r] == c_row(r) by {
            assert(rows_match(*cb, rows_of(&a)[r], rows_of(&b)[r], rows_of(&c)[r], r));
        }
        lemma_compiled_well_structured(*cb, rows_of(&a), rows_of(&b), rows_of(&c));
    }
    (info, a, b, c)
}
} // verus!
