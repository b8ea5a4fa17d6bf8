//! The pixel grid that a render fills.
//!
//! The grid is rectangular and row-major: the pixel at column `x` and row
//! `y` sits at index `y * width + x`, with row 0 the top of the image.
//! Rendering writes each cell exactly once; nothing else about the scene is
//! mutated during a render, so the grid is the only state this library
//! models for the render loop. The element type is left generic: the
//! embedding renderer stores its linear-RGB colors, the encoder stores
//! clamped bytes.

use vstd::prelude::*;

verus! {

/// A rectangular, row-major pixel grid.
#[derive(Debug, Clone)]
pub struct Canvas<T> {
    /// Width in pixels (number of columns).
    pub width: usize,
    /// Height in pixels (number of rows).
    pub height: usize,
    /// The cells in row-major order; `arr[y * width + x]` is column `x` of
    /// row `y`.
    pub arr: Vec<T>,
}

/// The row-major cell index of column `x` in row `y` of a grid `width`
/// cells wide.
pub open spec fn cell_index(width: int, x: int, y: int) -> int {
    y * width + x
}

proof fn lemma_cell_index_in_range(width: int, height: int, x: int, y: int)
    by (nonlinear_arith)
    requires
        0 <= x < width,
        0 <= y < height,
    ensures
        0 <= cell_index(width, x, y) < width * height,
        cell_index(width, x, y) == y * width + x,
{
}

impl<T> Canvas<T> {
    /// The grid is well formed: it holds one cell per pixel.
    pub open spec fn wf(&self) -> bool {
        self.arr@.len() == self.width * self.height
    }

    /// The cell at column `x`, row `y`.
    pub open spec fn pix(&self, x: int, y: int) -> T {
        self.arr@[cell_index(self.width as int, x, y)]
    }

    /// Row `y` of the grid, left to right.
    pub open spec fn row_view(&self, y: int) -> Seq<T> {
        Seq::new(self.width as nat, |x: int| self.pix(x, y))
    }

    /// The whole grid as rows, top to bottom.
    pub open spec fn grid_view(&self) -> Seq<Seq<T>> {
        Seq::new(self.height as nat, |y: int| self.row_view(y))
    }

    /// Reads the pixel at column `x`, row `y`.
    pub fn read(&self, x: usize, y: usize) -> (c: &T)
        requires
            self.wf(),
            x < self.width,
            y < self.height,
        ensures
            *c == self.pix(x as int, y as int),
    {
        let _len = self.arr.len();
        proof {
            lemma_cell_index_in_range(
                self.width as int,
                self.height as int,
                x as int,
                y as int,
            );
        }
        &self.arr[y * self.width + x]
    }

    /// Writes `col` to the pixel at column `x`, row `y` and changes no
    /// other cell.
    pub fn write_px(&mut self, x: usize, y: usize, col: T)
        requires
            old(self).wf(),
            x < old(self).width,
            y < old(self).height,
        ensures
            final(self).wf(),
            final(self).width == old(self).width,
            final(self).height == old(self).height,
            final(self).arr@ == old(self).arr@.update(
                cell_index(old(self).width as int, x as int, y as int),
                col,
            ),
            final(self).pix(x as int, y as int) == col,
            forall|xx: int, yy: int|
                0 <= xx < old(self).width && 0 <= yy < old(self).height && !(xx == x && yy == y)
                    ==> final(self).pix(xx, yy) == old(self).pix(xx, yy),
    {
        let _len = self.arr.len();
        proof {
            lemma_cell_index_in_range(
                self.width as int,
                self.height as int,
                x as int,
                y as int,
            );
        }
        let i = y * self.width + x;
        self.arr[i] = col;
        proof {
            assert forall|xx: int, yy: int|
                0 <= xx < self.width && 0 <= yy < self.height && !(xx == x && yy == y)
                    implies self.pix(xx, yy) == old(self).pix(xx, yy) by {
                lemma_cell_index_in_range(
                    self.width as int,
                    self.height as int,
                    xx,
                    yy,
                );
                lemma_distinct_cells(self.width as int, x as int, y as int, xx, yy);
            }
        }
    }
}

/// Distinct pixels occupy distinct cells of the row-major grid. Because
/// of this, per-pixel writes during a render are independent of one
/// another: each pixel computation touches exactly one cell, and no two
/// touch the same one, which is what lets a render loop fill pixels in
/// any order or in parallel over disjoint regions.
pub proof fn lemma_distinct_cells(width: int, x: int, y: int, xx: int, yy: int)
    by (nonlinear_arith)
    requires
        0 <= x < width,
        0 <= xx < width,
        0 <= y,
        0 <= yy,
        !(xx == x && yy == y),
    ensures
        cell_index(width, x, y) != cell_index(width, xx, yy),
{
}

impl<T: Copy> Canvas<T> {
    /// A fresh grid with every pixel set to `background`.
    pub fn new(width: usize, height: usize, background: T) -> (c: Self)
        requires
            width * height <= usize::MAX,
        ensures
            c.wf(),
            c.width == width,
            c.height == height,
            forall|x: int, y: int|
                0 <= x < width && 0 <= y < height ==> c.pix(x, y) == background,
    {
        proof {
            lemma_area_bound(width as int, height as int);
        }
        let total = width * height;
        let mut arr: Vec<T> = Vec::new();
        let mut i: usize = 0;
        while i < total
            invariant
                i <= total,
                arr@.len() == i,
                forall|j: int| 0 <= j < i ==> arr@[j] == background,
            decreases total - i,
        {
            arr.push(background);
            i = i + 1;
        }
        let c = Canvas { width, height, arr };
        proof {
            assert forall|x: int, y: int|
                0 <= x < width && 0 <= y < height implies c.pix(x, y) == background by {
                lemma_cell_index_in_range(width as int, height as int, x, y);
            }
        }
        c
    }
}

proof fn lemma_area_bound(width: int, height: int)
    by (nonlinear_arith)
    requires
        0 <= width,
        0 <= height,
        width * height <= usize::MAX,
    ensures
        width * height >= 0,
{
}

} // verus!
