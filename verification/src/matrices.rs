//! Index bookkeeping of the cofactor-expansion matrix inverse.
//!
//! The determinant and the adjugate-based inverse of the renderer's 4x4
//! transforms are built from submatrices (one row and one column deleted)
//! and from cofactors (minors with a sign that alternates like a
//! checkerboard). The arithmetic on the entries is f64 and stays with the
//! embedding renderer; what this module carries is the exact index rule
//! of the deletion - entry (y, x) of the submatrix is entry (y', x') of
//! the square, where an index at or past the deleted one moves up by one
//! - and the parity rule of the cofactor sign.

use vstd::prelude::*;

verus! {

/// Where row or column `i` of a submatrix comes from when row or column
/// `deleted` of the square was deleted.
pub open spec fn skip_index(deleted: int, i: int) -> int {
    if i < deleted {
        i
    } else {
        i + 1
    }
}

/// Deletes row `row` and column `col` of a square matrix of side `n`,
/// held flat in row-major order, giving the flat row-major submatrix of
/// side `n - 1`.
pub fn submatrix_grid<T: Copy>(m: &Vec<T>, n: usize, row: usize, col: usize) -> (r: Vec<T>)
    requires
        m@.len() == n * n,
        1 <= n,
        row < n,
        col < n,
    ensures
        r@.len() == (n - 1) * (n - 1),
        forall|y: int, x: int|
            0 <= y < n - 1 && 0 <= x < n - 1 ==> #[trigger] r@[y * (n - 1) + x] == m@[
                skip_index(row as int, y) * n + skip_index(col as int, x)
            ],
{
    let total = m.len();
    let side = n - 1;
    let mut r: Vec<T> = Vec::new();
    let mut y: usize = 0;
    while y < side
        invariant
            m@.len() == n * n,
            n * n <= usize::MAX,
            side == n - 1,
            row < n,
            col < n,
            y <= side,
            r@.len() == y * side,
            forall|yy: int, x: int|
                0 <= yy < y && 0 <= x < side ==> #[trigger] r@[yy * side + x] == m@[
                    skip_index(row as int, yy) * n + skip_index(col as int, x)
                ],
        decreases side - y,
    {
        let src_y = if y < row {
            y
        } else {
            y + 1
        };
        let mut x: usize = 0;
        while x < side
            invariant
                m@.len() == n * n,
                n * n <= usize::MAX,
                side == n - 1,
                row < n,
                col < n,
                y < side,
                src_y == skip_index(row as int, y as int),
                src_y < n,
                x <= side,
                r@.len() == y * side + x,
                forall|yy: int, xx: int|
                    0 <= yy < y && 0 <= xx < side ==> #[trigger] r@[yy * side + xx] == m@[
                        skip_index(row as int, yy) * n + skip_index(col as int, xx)
                    ],
                forall|xx: int|
                    0 <= xx < x ==> #[trigger] r@[y * side + xx] == m@[
                        skip_index(row as int, y as int) * n + skip_index(col as int, xx)
                    ],
            decreases side - x,
        {
            let src_x = if x < col {
                x
            } else {
                x + 1
            };
            proof {
                lemma_grid_bounds(n as int, side as int, y as int, x as int, src_y as int, src_x as int);
            }
            r.push(m[src_y * n + src_x]);
            proof {
                assert forall|yy: int, xx: int|
                    0 <= yy < y && 0 <= xx < side implies #[trigger] r@[yy * side + xx] == m@[
                        skip_index(row as int, yy) * n + skip_index(col as int, xx)
                    ] by {
                    lemma_distinct_rows(side as int, yy, xx, y as int);
                }
            }
            x = x + 1;
        }
        proof {
            assert((y as int + 1) * (side as int) == y as int * side as int + side as int)
                by (nonlinear_arith);
        }
        y = y + 1;
    }
    r
}

/// Index bounds of one copied cell.
proof fn lemma_grid_bounds(n: int, side: int, y: int, x: int, src_y: int, src_x: int)
    by (nonlinear_arith)
    requires
        side == n - 1,
        0 <= y < side,
        0 <= x < side,
        0 <= src_y < n,
        0 <= src_x < n,
    ensures
        0 <= src_y * n + src_x < n * n,
        y * side + x + 1 <= side * side,
{
}

/// Cells of earlier rows keep their index after a push into row `y`.
proof fn lemma_distinct_rows(side: int, yy: int, xx: int, y: int)
    by (nonlinear_arith)
    requires
        0 <= yy < y,
        0 <= xx < side,
    ensures
        yy * side + xx < y * side,
{
}

/// Whether the cofactor at (row, col) keeps the sign of its minor: on
/// cells where row + col is even, in the checkerboard sign pattern of the
/// cofactor expansion.
pub fn cofactor_sign_is_positive(row: usize, col: usize) -> (r: bool)
    ensures
        r == ((row + col) % 2 == 0),
{
    proof {
        lemma_even_sum(row as int, col as int);
    }
    (row % 2) == (col % 2)
}

/// A sum of two integers is even exactly when they share a parity.
proof fn lemma_even_sum(a: int, b: int)
    by (nonlinear_arith)
    requires
        0 <= a,
        0 <= b,
    ensures
        ((a + b) % 2 == 0) == (a % 2 == b % 2),
{
}

} // verus!
