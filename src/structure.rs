use vstd::prelude::*;

verus! {

/// A sparse matrix: for each row, its non-zero entries as (coefficient, column).
pub type Matrix = Vec<Vec<(i64, usize)>>;

/// The rows of a matrix as sequences of entries.
pub open spec fn rows_of(m: &Matrix) -> Seq<Seq<(i64, usize)>> {
    m@.map_values(|r: Vec<(i64, usize)>| r@)
}

/// Every entry of row `r` lies left of the diagonal, and `r` is past the input rows.
pub open spec fn row_below_diagonal(row: Seq<(i64, usize)>, r: int, num_input_rows: int) -> bool {
    forall|j: int| 0 <= j < row.len() ==> entry_below_diagonal(#[trigger] row[j], r, num_input_rows)
}

pub open spec fn entry_below_diagonal(e: (i64, usize), r: int, num_input_rows: int) -> bool {
    num_input_rows <= r && e.1 < r
}

/// Every entry lies below the public-input rows and strictly left of the diagonal:
/// a constraint refers only to variables defined before it.
pub open spec fn strictly_lower_triangular(m: Seq<Seq<(i64, usize)>>, num_input_rows: int) -> bool {
    forall|r: int| 0 <= r < m.len() ==> row_below_diagonal(#[trigger] m[r], r, num_input_rows)
}

/// The public-input rows are empty and every other row holds exactly one
/// non-zero entry, on the diagonal: each constraint binds one output wire.
pub open spec fn diagonal(m: Seq<Seq<(i64, usize)>>, num_input_rows: int) -> bool {
    forall|r: int|
        0 <= r < m.len() ==> if r < num_input_rows {
            (#[trigger] m[r]).len() == 0
        } else {
            m[r].len() == 1 && m[r][0].1 == r && m[r][0].0 != 0
        }
}

pub open spec fn well_structured(
    a: Seq<Seq<(i64, usize)>>,
    b: Seq<Seq<(i64, usize)>>,
    c: Seq<Seq<(i64, usize)>>,
    num_input_rows: int,
) -> bool {
    &&& strictly_lower_triangular(a, num_input_rows)
    &&& strictly_lower_triangular(b, num_input_rows)
    &&& diagonal(c, num_input_rows)
}

fn row_is_below_diagonal(row: &Vec<(i64, usize)>, r: usize, num_input_rows: usize) -> (b: bool)
    ensures
        b == row_below_diagonal(row@, r as int, num_input_rows as int),
{
    let mut j: usize = 0;
    while j < row.len()
        invariant
            0 <= j <= row@.len(),
            forall|j2: int|
                0 <= j2 < j ==> entry_below_diagonal(
                    #[trigger] row@[j2],
                    r as int,
                    num_input_rows as int,
                ),
        decreases row@.len() - j,
    {
        if r < num_input_rows || row[j].1 >= r {
            assert(row@[j as int] == row[j as int]);
            return false;
        }
        j = j + 1;
    }
    true
}

/// Checks one matrix for strict lower-triangularity beyond the input rows.
pub fn is_strictly_lower_triangular(m: &Matrix, num_input_rows: usize) -> (b: bool)
    ensures
        b == strictly_lower_triangular(rows_of(m), num_input_rows as int),
{
    let mut r: usize = 0;
    while r < m.len()
        invariant
            0 <= r <= m@.len(),
            forall|r2: int|
                0 <= r2 < r ==> row_below_diagonal(
                    #[trigger] rows_of(m)[r2],
                    r2,
                    num_input_rows as int,
                ),
        decreases m@.len() - r,
    {
        assert(m[r as int]@ == rows_of(m)[r as int]);
        if !row_is_below_diagonal(&m[r], r, num_input_rows) {
            return false;
        }
        r = r + 1;
    }
    true
}

/// Checks one matrix for the diagonal shape beyond the input rows.
pub fn is_diagonal(m: &Matrix, num_input_rows: usize) -> (r: bool)
    ensures
        r == diagonal(rows_of(m), num_input_rows as int),
{
    let mut r: usize = 0;
    while r < m.len()
        invariant
            0 <= r <= m@.len(),
            forall|r2: int|
                0 <= r2 < r ==> if r2 < num_input_rows {
                    (#[trigger] rows_of(m)[r2]).len() == 0
                } else {
                    rows_of(m)[r2].len() == 1 && rows_of(m)[r2][0].1 == r2 && rows_of(m)[r2][0].0
                        != 0
                },
        decreases m@.len() - r,
    {
        let row = &m[r];
        assert(row@ == rows_of(m)[r as int]);
        if r < num_input_rows {
            if row.len() != 0 {
                return false;
            }
        } else {
            if row.len() != 1 || row[0].1 != r || row[0].0 == 0 {
                return false;
            }
        }
        r = r + 1;
    }
    true
}

/// The structural predicate on compiled matrices: A and B strictly lower
/// triangular beyond the input rows, C diagonal.
pub fn check_structure(a: &Matrix, b: &Matrix, c: &Matrix, num_input_rows: usize) -> (r: bool)
    ensures
        r == well_structured(rows_of(a), rows_of(b), rows_of(c), num_input_rows as int),
{
    is_strictly_lower_triangular(a, num_input_rows) && is_strictly_lower_triangular(
        b,
        num_input_rows,
    ) && is_diagonal(c, num_input_rows)
}

} // verus!
