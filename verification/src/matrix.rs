use crate::reduce::{dot, is_dot, strided_in_bounds};
use crate::scalar::Scalar;
use crate::tensor::strided;
use vstd::arithmetic::div_mod::lemma_fundamental_div_mod_converse;
use vstd::prelude::*;

verus! {

/// The element in row `r` and column `c` of a row-major grid with `cols` columns.
pub open spec fn grid_at<T>(grid: Seq<T>, cols: int, r: int, c: int) -> T {
    grid[r * cols + c]
}

/// The position of a cell in row-major order, and the cell of that position.
pub proof fn lemma_cell_index(r: int, c: int, rows: int, cols: int)
    requires
        0 <= r < rows,
        0 <= c < cols,
    ensures
        0 <= r * cols + c < rows * cols,
        (r * cols + c) / cols == r,
        (r * cols + c) % cols == c,
{
    assert(0 <= r * cols && r * cols + cols <= rows * cols) by (nonlinear_arith)
        requires
            0 <= r,
            r + 1 <= rows,
            0 <= cols,
    ;
    lemma_fundamental_div_mod_converse(r * cols + c, cols, r, c);
}

/// The cell of a position in row-major order.
pub proof fn lemma_index_cell(q: int, rows: int, cols: int)
    requires
        0 <= q < rows * cols,
        0 < cols,
    ensures
        0 <= q / cols < rows,
        0 <= q % cols < cols,
        q == (q / cols) * cols + q % cols,
{
    let r = q / cols;
    let c = q % cols;
    assert(q == r * cols + c && 0 <= c < cols && 0 <= r) by (nonlinear_arith)
        requires
            0 <= q,
            0 < cols,
            r == q / cols,
            c == q % cols,
    ;
    assert(r < rows) by (nonlinear_arith)
        requires
            r * cols + c < rows * cols,
            0 <= c,
            0 < cols,
    ;
}

/// The last element that a row-major walk with the given strides reaches lies
/// inside a store of `len` elements.
pub open spec fn walk_in_bounds(len: nat, outer: usize, outer_step: usize, inner: usize, inner_step: usize) -> bool {
    &&& len <= usize::MAX
    &&& outer >= 1
    &&& inner >= 1
    &&& (outer - 1) * outer_step + (inner - 1) * inner_step < len
}

/// Row `i` of a walk that stays in bounds starts at a machine size, and its
/// elements lie inside the store.
pub proof fn lemma_walk(len: nat, outer: usize, outer_step: usize, inner: usize, inner_step: usize, i: int)
    requires
        walk_in_bounds(len, outer, outer_step, inner, inner_step),
        0 <= i < outer,
    ensures
        0 <= i * outer_step <= usize::MAX,
        strided_in_bounds(len, (i * outer_step) as usize, inner_step, inner),
{
    assert(0 <= i * outer_step <= (outer - 1) * outer_step) by (nonlinear_arith)
        requires
            0 <= i <= outer - 1,
            0 <= outer_step,
    ;
    assert(0 <= (inner - 1) * inner_step) by (nonlinear_arith)
        requires
            0 <= inner - 1,
            0 <= inner_step,
    ;
}

/// `out` is the row-major product of two matrices that are read through strides:
/// the left one has element `(r, k)` at `r * a_row + k * a_col` of `a`, the right one
/// has element `(k, c)` at `k * b_row + c * b_col` of `b`.
pub open spec fn is_matrix_product<T: Scalar>(
    a: Seq<T>,
    a_row: int,
    a_col: int,
    b: Seq<T>,
    b_row: int,
    b_col: int,
    rows: nat,
    inner: nat,
    cols: nat,
    out: Seq<T>,
) -> bool {
    &&& out.len() == rows * cols
    &&& forall|r: int, c: int|
        0 <= r < rows && 0 <= c < cols ==> is_dot(
            strided(a, r * a_row, a_col, inner),
            strided(b, c * b_col, b_row, inner),
            #[trigger] grid_at(out, cols as int, r, c),
        )
}

/// `v` is the cell of position `q` of the product.
pub open spec fn is_product_cell<T: Scalar>(
    a: Seq<T>,
    a_row: int,
    a_col: int,
    b: Seq<T>,
    b_row: int,
    b_col: int,
    inner: nat,
    cols: nat,
    q: int,
    v: T,
) -> bool {
    is_dot(
        strided(a, (q / cols as int) * a_row, a_col, inner),
        strided(b, (q % cols as int) * b_col, b_row, inner),
        v,
    )
}

/// The product of two matrices that are read through strides.
pub(crate) fn matrix_product<T: Scalar>(
    a: &Vec<T>,
    a_row: usize,
    a_col: usize,
    b: &Vec<T>,
    b_row: usize,
    b_col: usize,
    rows: usize,
    inner: usize,
    cols: usize,
) -> (out: Vec<T>)
    requires
        walk_in_bounds(a@.len(), rows, a_row, inner, a_col),
        walk_in_bounds(b@.len(), cols, b_col, inner, b_row),
        rows * cols <= usize::MAX,
    ensures
        is_matrix_product(
            a@,
            a_row as int,
            a_col as int,
            b@,
            b_row as int,
            b_col as int,
            rows as nat,
            inner as nat,
            cols as nat,
            out@,
        ),
{
    let count = rows * cols;
    let mut out: Vec<T> = Vec::new();
    let mut q: usize = 0;
    while q < count
        invariant
            q <= count,
            count == rows * cols,
            walk_in_bounds(a@.len(), rows, a_row, inner, a_col),
            walk_in_bounds(b@.len(), cols, b_col, inner, b_row),
            out@.len() == q,
            forall|p: int|
                0 <= p < q ==> is_product_cell(
                    a@,
                    a_row as int,
                    a_col as int,
                    b@,
                    b_row as int,
                    b_col as int,
                    inner as nat,
                    cols as nat,
                    p,
                    #[trigger] out@[p],
                ),
        decreases count - q,
    {
        let r = q / cols;
        let c = q % cols;
        proof {
            lemma_index_cell(q as int, rows as int, cols as int);
            lemma_walk(a@.len(), rows, a_row, inner, a_col, r as int);
            lemma_walk(b@.len(), cols, b_col, inner, b_row, c as int);
        }
        let v = dot(a, r * a_row, a_col, b, c * b_col, b_row, inner);
        out.push(v);
        q += 1;
    }
    proof {
        assert forall|r: int, c: int| 0 <= r < rows && 0 <= c < cols implies is_dot(
            strided(a@, r * a_row, a_col as int, inner as nat),
            strided(b@, c * b_col, b_row as int, inner as nat),
            #[trigger] grid_at(out@, cols as int, r, c),
        ) by {
            lemma_cell_index(r, c, rows as int, cols as int);
        }
    }
    out
}

} // verus!
