//! Gaussian forward elimination over any field.
//!
//! Column by column, the pivot row is scaled and taken off every row below
//! it, so that the column below the pivot becomes zero. Nothing is divided or
//! subtracted: a row is reduced by adding the additive inverse of a product
//! with the multiplicative inverse of the pivot. Rows are never swapped: a
//! column whose pivot is zero is left as it stands.

use crate::base::markers::{
    lemma_zero_and_one, AssociativeOp, CommutativeOp, DistributiveOp, FieldEl, InverseEl,
    NeutralEl, RingEl,
};
use crate::base::theorems::{lemma_divide_multiply, lemma_inverse_of_neutral, lemma_mul_zero};
use crate::base::types::{has_shape, Matrix};
use std::ops::IndexMut;
use vstd::prelude::*;

verus! {

/// One entry of a reduced row: `entry + -(factor * pivot_entry)`.
pub open spec fn reduce_entry<EL, ADD, MUL>(entry: EL, factor: EL, pivot_entry: EL) -> EL where
    EL: FieldEl<ADD, MUL>,
    ADD: AssociativeOp<EL> + CommutativeOp<EL>,
    MUL: AssociativeOp<EL> + CommutativeOp<EL> + DistributiveOp<EL, ADD>,
 {
    ADD::op_spec(entry, <EL as InverseEl<ADD>>::inverse_spec(&MUL::op_spec(factor, pivot_entry)))
}

/// The factor by which the pivot row is taken off `row` in column `j`:
/// `row[j] * pivot_row[j]^-1`.
pub open spec fn reduce_factor<EL, ADD, MUL>(row: Seq<EL>, pivot_row: Seq<EL>, j: int) -> EL where
    EL: FieldEl<ADD, MUL>,
    ADD: AssociativeOp<EL> + CommutativeOp<EL>,
    MUL: AssociativeOp<EL> + CommutativeOp<EL> + DistributiveOp<EL, ADD>,
 {
    MUL::op_spec(row[j], pivot_row[j].multiplicative_inverse_spec())
}

/// `row` with the pivot row taken off, scaled so that column `j` cancels.
pub open spec fn reduce_row<EL, ADD, MUL>(row: Seq<EL>, pivot_row: Seq<EL>, j: int) -> Seq<
    EL,
> where
    EL: FieldEl<ADD, MUL>,
    ADD: AssociativeOp<EL> + CommutativeOp<EL>,
    MUL: AssociativeOp<EL> + CommutativeOp<EL> + DistributiveOp<EL, ADD>,
 {
    Seq::new(
        row.len(),
        |k: int|
            reduce_entry::<EL, ADD, MUL>(
                row[k],
                reduce_factor::<EL, ADD, MUL>(row, pivot_row, j),
                pivot_row[k],
            ),
    )
}

/// The pass on column `j`: if the pivot `m[j][j]` is zero, or there is no
/// row `j`, `m` itself; else `m` with every row below row `j` reduced by
/// row `j`.
pub open spec fn eliminate_column<EL, ADD, MUL>(m: Seq<Seq<EL>>, j: int) -> Seq<Seq<EL>> where
    EL: FieldEl<ADD, MUL>,
    ADD: AssociativeOp<EL> + CommutativeOp<EL>,
    MUL: AssociativeOp<EL> + CommutativeOp<EL> + DistributiveOp<EL, ADD>,
 {
    if 0 <= j < m.len() && m[j][j] != <EL as RingEl<ADD, MUL>>::ZERO {
        Seq::new(
            m.len(),
            |i: int|
                if i > j {
                    reduce_row::<EL, ADD, MUL>(m[i], m[j], j)
                } else {
                    m[i]
                },
        )
    } else {
        m
    }
}

/// `m` after the passes on its first `n` columns, in their order.
pub open spec fn eliminate_columns<EL, ADD, MUL>(m: Seq<Seq<EL>>, n: nat) -> Seq<Seq<EL>> where
    EL: FieldEl<ADD, MUL>,
    ADD: AssociativeOp<EL> + CommutativeOp<EL>,
    MUL: AssociativeOp<EL> + CommutativeOp<EL> + DistributiveOp<EL, ADD>,

    decreases n,
{
    if n == 0 {
        m
    } else {
        eliminate_column::<EL, ADD, MUL>(
            eliminate_columns::<EL, ADD, MUL>(m, (n - 1) as nat),
            n - 1,
        )
    }
}

/// Forward elimination: returns `matrix` after the passes on all its `N`
/// columns, first to last.
///
/// The pivot that the pass on column `j` meets is the one found on the
/// diagonal of the result, since no later pass touches row `j`. Where it is
/// not zero, the column below it is zero in the result; where it is zero,
/// its own pass changed nothing. The first row is never touched, so the
/// first pivot is that of `matrix` itself.
pub fn gaussian_elimination<EL, ADD, MUL, const M: usize, const N: usize>(
    matrix: Matrix<EL, M, N>,
) -> (result: Matrix<EL, M, N>) where
    EL: FieldEl<ADD, MUL>,
    ADD: AssociativeOp<EL> + CommutativeOp<EL>,
    MUL: AssociativeOp<EL> + CommutativeOp<EL> + DistributiveOp<EL, ADD>,

    ensures
        result@ == eliminate_columns::<EL, ADD, MUL>(matrix@, N as nat),
        has_shape(result@, M as nat, N as nat),
        forall|j: int, i: int|
            0 <= j < N && j < i < M && result@[j][j] != <EL as RingEl<ADD, MUL>>::ZERO
                ==> #[trigger] result@[i][j] == <EL as RingEl<ADD, MUL>>::ZERO,
        M > 0 ==> result@[0] == matrix@[0],
        M > 0 && N > 0 && matrix@[0][0] != <EL as RingEl<ADD, MUL>>::ZERO ==> forall|i: int|
            0 < i < M ==> (#[trigger] result@[i])[0] == <EL as RingEl<ADD, MUL>>::ZERO,
{
    let mut res = matrix.clone();
    proof {
        matrix.lemma_shape();
    }
    for j in 0..N
        invariant
            has_shape(res@, M as nat, N as nat),
            res@ == eliminate_columns::<EL, ADD, MUL>(matrix@, j as nat),
    {
        let ghost before = res@;
        let mut i: usize = j + 1;
        while i < M
            invariant
                j < N,
                j < i,
                has_shape(before, M as nat, N as nat),
                has_shape(res@, M as nat, N as nat),
                forall|r: int|
                    0 <= r < M ==> #[trigger] res@[r] == if j < r < i && before[j as int][j as int]
                        != <EL as RingEl<ADD, MUL>>::ZERO {
                        reduce_row::<EL, ADD, MUL>(before[r], before[j as int], j as int)
                    } else {
                        before[r]
                    },
            decreases M - i,
        {
            let pivot = res[j][j];
            proof {
                EL::lemma_eq(pivot, <EL as RingEl<ADD, MUL>>::ZERO);
            }
            if pivot != EL::ZERO {
                let factor = MUL::op(res[i][j], pivot.multiplicative_inverse());
                let ghost start = res@;
                let ghost row = start[i as int];
                for k in 0..N
                    invariant
                        j < N,
                        j < i < M,
                        has_shape(res@, M as nat, N as nat),
                        row.len() == N,
                        factor == reduce_factor::<EL, ADD, MUL>(row, before[j as int], j as int),
                        res@[j as int] == before[j as int],
                        forall|r: int| 0 <= r < M && r != i ==> #[trigger] res@[r] == start[r],
                        forall|c: int|
                            0 <= c < N ==> #[trigger] res@[i as int][c] == if c < k {
                                reduce_entry::<EL, ADD, MUL>(row[c], factor, before[j as int][c])
                            } else {
                                row[c]
                            },
                {
                    let entry = ADD::op(
                        res[i][k],
                        InverseEl::<ADD>::inverse(&MUL::op(factor, res[j][k])),
                    );
                    *res.index_mut(i).index_mut(k) = entry;
                }
                proof {
                    assert(res@[i as int] =~= reduce_row::<EL, ADD, MUL>(
                        row,
                        before[j as int],
                        j as int,
                    ));
                }
            }
            i += 1;
        }
        proof {
            assert(res@ =~= eliminate_column::<EL, ADD, MUL>(before, j as int));
        }
    }
    proof {
        let zero = <EL as RingEl<ADD, MUL>>::ZERO;
        let (rows, cols) = (M as nat, N as nat);
        assert forall|j: int, i: int|
            0 <= j < N && j < i < M && res@[j][j] != zero implies #[trigger] res@[i][j] == zero by {
            lemma_upper_rows_settled::<EL, ADD, MUL>(matrix@, rows, cols, j as nat, cols, j);
            lemma_column_zeroed::<EL, ADD, MUL>(matrix@, rows, cols, j as nat, cols, i);
        }
        if M > 0 {
            lemma_upper_rows_settled::<EL, ADD, MUL>(matrix@, rows, cols, 0, cols, 0);
            assert(res@[0][0] == matrix@[0][0]);
        }
    }
    res
}

/// A pass keeps the shape of the matrix.
pub proof fn lemma_eliminate_column_shape<EL, ADD, MUL>(
    m: Seq<Seq<EL>>,
    rows: nat,
    cols: nat,
    j: int,
) where
    EL: FieldEl<ADD, MUL>,
    ADD: AssociativeOp<EL> + CommutativeOp<EL>,
    MUL: AssociativeOp<EL> + CommutativeOp<EL> + DistributiveOp<EL, ADD>,

    requires
        has_shape(m, rows, cols),
    ensures
        has_shape(eliminate_column::<EL, ADD, MUL>(m, j), rows, cols),
{
}

/// Elimination keeps the shape of the matrix.
pub proof fn lemma_eliminate_columns_shape<EL, ADD, MUL>(
    m: Seq<Seq<EL>>,
    rows: nat,
    cols: nat,
    n: nat,
) where
    EL: FieldEl<ADD, MUL>,
    ADD: AssociativeOp<EL> + CommutativeOp<EL>,
    MUL: AssociativeOp<EL> + CommutativeOp<EL> + DistributiveOp<EL, ADD>,

    requires
        has_shape(m, rows, cols),
    ensures
        has_shape(eliminate_columns::<EL, ADD, MUL>(m, n), rows, cols),
    decreases n,
{
    if n > 0 {
        lemma_eliminate_columns_shape::<EL, ADD, MUL>(m, rows, cols, (n - 1) as nat);
        lemma_eliminate_column_shape::<EL, ADD, MUL>(
            eliminate_columns::<EL, ADD, MUL>(m, (n - 1) as nat),
            rows,
            cols,
            n - 1,
        );
    }
}

/// Zero-pivot pass-through: where the pivot of column `j` is zero, the pass
/// on column `j` changes nothing, in any row or column.
pub proof fn lemma_zero_pivot_pass_through<EL, ADD, MUL>(m: Seq<Seq<EL>>, j: int) where
    EL: FieldEl<ADD, MUL>,
    ADD: AssociativeOp<EL> + CommutativeOp<EL>,
    MUL: AssociativeOp<EL> + CommutativeOp<EL> + DistributiveOp<EL, ADD>,

    requires
        0 <= j < m.len(),
        m[j][j] == <EL as RingEl<ADD, MUL>>::ZERO,
    ensures
        eliminate_column::<EL, ADD, MUL>(m, j) == m,
{
}

/// The passes from column `t` on leave the rows up to row `t` as they are.
pub proof fn lemma_upper_rows_settled<EL, ADD, MUL>(
    m: Seq<Seq<EL>>,
    rows: nat,
    cols: nat,
    t: nat,
    n: nat,
    r: int,
) where
    EL: FieldEl<ADD, MUL>,
    ADD: AssociativeOp<EL> + CommutativeOp<EL>,
    MUL: AssociativeOp<EL> + CommutativeOp<EL> + DistributiveOp<EL, ADD>,

    requires
        has_shape(m, rows, cols),
        t <= n,
        0 <= r <= t,
        r < rows,
    ensures
        eliminate_columns::<EL, ADD, MUL>(m, n)[r] == eliminate_columns::<EL, ADD, MUL>(m, t)[r],
    decreases n,
{
    if n > t {
        lemma_upper_rows_settled::<EL, ADD, MUL>(m, rows, cols, t, (n - 1) as nat, r);
        lemma_eliminate_columns_shape::<EL, ADD, MUL>(m, rows, cols, (n - 1) as nat);
    }
}

/// A row reduced by a pivot row whose pivot is not zero has zero in the
/// pivot's column.
pub proof fn lemma_reduce_row_cancels<EL, ADD, MUL>(row: Seq<EL>, pivot_row: Seq<EL>, j: int) where
    EL: FieldEl<ADD, MUL>,
    ADD: AssociativeOp<EL> + CommutativeOp<EL>,
    MUL: AssociativeOp<EL> + CommutativeOp<EL> + DistributiveOp<EL, ADD>,

    requires
        0 <= j < row.len(),
        pivot_row[j] != <EL as RingEl<ADD, MUL>>::ZERO,
    ensures
        reduce_row::<EL, ADD, MUL>(row, pivot_row, j)[j] == <EL as RingEl<ADD, MUL>>::ZERO,
{
    lemma_zero_and_one::<EL, ADD, MUL>();
    lemma_divide_multiply::<EL, ADD, MUL>(row[j], pivot_row[j]);
    <EL as InverseEl<ADD>>::lemma_inverse(row[j]);
}

/// A row reduced by a pivot row that has zero in column `c` keeps its entry
/// in column `c`.
pub proof fn lemma_reduce_row_keeps_entry<EL, ADD, MUL>(
    row: Seq<EL>,
    pivot_row: Seq<EL>,
    j: int,
    c: int,
) where
    EL: FieldEl<ADD, MUL>,
    ADD: AssociativeOp<EL> + CommutativeOp<EL>,
    MUL: AssociativeOp<EL> + CommutativeOp<EL> + DistributiveOp<EL, ADD>,

    requires
        0 <= c < row.len(),
        pivot_row[c] == <EL as RingEl<ADD, MUL>>::ZERO,
    ensures
        reduce_row::<EL, ADD, MUL>(row, pivot_row, j)[c] == row[c],
{
    lemma_zero_and_one::<EL, ADD, MUL>();
    lemma_mul_zero::<EL, ADD, MUL>(reduce_factor::<EL, ADD, MUL>(row, pivot_row, j));
    lemma_inverse_of_neutral::<EL, ADD>();
    <EL as NeutralEl<ADD>>::lemma_neutral(row[c]);
}

/// Column zeroing: every entry below the pivot of column `j` is zero after
/// the pass on column `j`, and stays zero through every later pass, provided
/// that the pivot which that pass meets is not zero, or that the column
/// below it is zero already when the pass is due.
pub proof fn lemma_column_zeroed<EL, ADD, MUL>(
    m: Seq<Seq<EL>>,
    rows: nat,
    cols: nat,
    j: nat,
    n: nat,
    i: int,
) where
    EL: FieldEl<ADD, MUL>,
    ADD: AssociativeOp<EL> + CommutativeOp<EL>,
    MUL: AssociativeOp<EL> + CommutativeOp<EL> + DistributiveOp<EL, ADD>,

    requires
        has_shape(m, rows, cols),
        j < n <= cols,
        j < i < rows,
        eliminate_columns::<EL, ADD, MUL>(m, j)[j as int][j as int] != <
            EL as RingEl<ADD, MUL>
        >::ZERO || forall|r: int|
            j < r < rows ==> (#[trigger] eliminate_columns::<EL, ADD, MUL>(m, j)[r])[j as int] == <
                EL as RingEl<ADD, MUL>
            >::ZERO,
    ensures
        eliminate_columns::<EL, ADD, MUL>(m, n)[i][j as int] == <EL as RingEl<ADD, MUL>>::ZERO,
    decreases n,
{
    let zero = <EL as RingEl<ADD, MUL>>::ZERO;
    let before = eliminate_columns::<EL, ADD, MUL>(m, (n - 1) as nat);
    lemma_eliminate_columns_shape::<EL, ADD, MUL>(m, rows, cols, (n - 1) as nat);
    if n == j + 1 {
        if before[j as int][j as int] != zero {
            lemma_reduce_row_cancels::<EL, ADD, MUL>(before[i], before[j as int], j as int);
        }
    } else {
        let p = n - 1;
        lemma_column_zeroed::<EL, ADD, MUL>(m, rows, cols, j, (n - 1) as nat, i);
        if i > p && p < rows && before[p][p] != zero {
            lemma_column_zeroed::<EL, ADD, MUL>(m, rows, cols, j, (n - 1) as nat, p);
            lemma_reduce_row_keeps_entry::<EL, ADD, MUL>(before[i], before[p], p, j as int);
        }
    }
}

/// After a zero pivot: where the pass on column `j` meets a zero pivot, the
/// entries below it in column `j` keep their values through that pass and
/// every later one, down to and including the first of them that is not
/// zero. So a column with a zero pivot and an entry below it that is not
/// zero is not cleared.
pub proof fn lemma_column_kept<EL, ADD, MUL>(
    m: Seq<Seq<EL>>,
    rows: nat,
    cols: nat,
    j: nat,
    n: nat,
    i: int,
) where
    EL: FieldEl<ADD, MUL>,
    ADD: AssociativeOp<EL> + CommutativeOp<EL>,
    MUL: AssociativeOp<EL> + CommutativeOp<EL> + DistributiveOp<EL, ADD>,

    requires
        has_shape(m, rows, cols),
        j <= n <= cols,
        j < i < rows,
        eliminate_columns::<EL, ADD, MUL>(m, j)[j as int][j as int] == <
            EL as RingEl<ADD, MUL>
        >::ZERO,
        forall|r: int|
            j < r < i ==> (#[trigger] eliminate_columns::<EL, ADD, MUL>(m, j)[r])[j as int] == <
                EL as RingEl<ADD, MUL>
            >::ZERO,
    ensures
        eliminate_columns::<EL, ADD, MUL>(m, n)[i][j as int] == eliminate_columns::<EL, ADD, MUL>(
            m,
            j,
        )[i][j as int],
    decreases n,
{
    let zero = <EL as RingEl<ADD, MUL>>::ZERO;
    if n > j {
        let p = n - 1;
        let before = eliminate_columns::<EL, ADD, MUL>(m, p as nat);
        lemma_eliminate_columns_shape::<EL, ADD, MUL>(m, rows, cols, p as nat);
        lemma_column_kept::<EL, ADD, MUL>(m, rows, cols, j, p as nat, i);
        if p > j && i > p && before[p][p] != zero {
            lemma_column_kept::<EL, ADD, MUL>(m, rows, cols, j, p as nat, p);
            lemma_reduce_row_keeps_entry::<EL, ADD, MUL>(before[i], before[p], p, j as int);
        }
    }
}

} // verus!
