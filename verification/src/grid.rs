use crate::error::PipelineError;
use vstd::prelude::*;

verus! {

/// A two-dimensional grid of samples held in one contiguous row-major
/// buffer: the cell in column `x` of row `y` sits at index `y * width + x`.
///
/// The luminance image, the local-mean, local-dispersion and MSCN coefficient
/// grids, and the pooled block grid are all grids of this shape; the sample
/// type is left generic so a driver can instantiate it with its numeric type.
#[derive(Debug)]
pub struct Grid<T> {
    cells: Vec<T>,
    width: usize,
    height: usize,
}

impl<T> View for Grid<T> {
    type V = Seq<T>;

    closed spec fn view(&self) -> Seq<T> {
        self.cells@
    }
}

/// A row-major index stays inside the buffer of a well-formed grid.
proof fn lemma_row_major_index_bound(x: int, y: int, width: int, height: int)
    requires
        0 <= x < width,
        0 <= y < height,
    ensures
        0 <= y * width + x < width * height,
{
    assert(0 <= y * width + x < width * height) by (nonlinear_arith)
        requires
            0 <= x < width,
            0 <= y < height,
    ;
}

impl<T> Grid<T> {
    /// Number of columns.
    pub closed spec fn spec_width(&self) -> int {
        self.width as int
    }

    /// Number of rows.
    pub closed spec fn spec_height(&self) -> int {
        self.height as int
    }

    /// Well-formed: both dimensions are positive and the buffer holds
    /// exactly one sample per cell.
    pub open spec fn wf(&self) -> bool {
        &&& 0 < self.spec_width()
        &&& 0 < self.spec_height()
        &&& self@.len() == self.spec_width() * self.spec_height()
    }

    /// `(x, y)` names a cell of this grid.
    pub open spec fn in_bounds(&self, x: int, y: int) -> bool {
        0 <= x < self.spec_width() && 0 <= y < self.spec_height()
    }

    /// The sample stored at `(x, y)`.
    pub open spec fn cell(&self, x: int, y: int) -> T {
        self@[y * self.spec_width() + x]
    }

    /// Wraps an existing row-major buffer as a `width × height` grid.
    /// Rejects with `InvalidParameter` a zero dimension, or one whose cell
    /// count exceeds the address space, and with `DimensionMismatch` a buffer
    /// whose length is not `width * height`.
    pub fn from_vec(cells: Vec<T>, width: usize, height: usize) -> (result: Result<
        Grid<T>,
        PipelineError,
    >)
        ensures
            match result {
                Ok(g) => {
                    &&& width > 0 && height > 0
                    &&& cells@.len() == width * height
                    &&& g.wf()
                    &&& g.spec_width() == width
                    &&& g.spec_height() == height
                    &&& g@ == cells@
                },
                Err(e) => (e == PipelineError::InvalidParameter && (width == 0 || height == 0
                    || width * height > usize::MAX)) || (e == PipelineError::DimensionMismatch
                    && width > 0 && height > 0 && width * height <= usize::MAX && cells@.len()
                    != width * height),
            },
    {
        if width == 0 || height == 0 {
            return Err(PipelineError::InvalidParameter);
        }
        let total = match width.checked_mul(height) {
            Some(t) => t,
            None => {
                return Err(PipelineError::InvalidParameter);
            },
        };
        if cells.len() != total {
            return Err(PipelineError::DimensionMismatch);
        }
        Ok(Grid { cells, width, height })
    }

    /// Overwrites the cell at `(x, y)`; the dimensions and every other cell
    /// are unchanged.
    pub fn put(&mut self, x: usize, y: usize, v: T)
        requires
            old(self).wf(),
            old(self).in_bounds(x as int, y as int),
        ensures
            final(self).wf(),
            final(self).spec_width() == old(self).spec_width(),
            final(self).spec_height() == old(self).spec_height(),
            final(self)@ == old(self)@.update(y as int * old(self).spec_width() + x as int, v),
    {
        proof {
            lemma_row_major_index_bound(
                x as int,
                y as int,
                self.spec_width(),
                self.spec_height(),
            );
        }
        let _n = self.cells.len();
        let idx = y * self.width + x;
        self.cells.set(idx, v);
    }

    /// Number of columns.
    pub fn width(&self) -> (w: usize)
        ensures
            w == self.spec_width(),
    {
        self.width
    }

    /// Number of rows.
    pub fn height(&self) -> (h: usize)
        ensures
            h == self.spec_height(),
    {
        self.height
    }

    /// Number of cells.
    pub fn len(&self) -> (n: usize)
        ensures
            n == self@.len(),
    {
        self.cells.len()
    }
}

impl<T: Copy> Grid<T> {
    /// Builds a `width × height` grid with every cell set to `fill`.
    /// Rejects with `InvalidParameter` a zero dimension, or one whose cell
    /// count exceeds the address space.
    pub fn new_filled(width: usize, height: usize, fill: T) -> (result: Result<
        Grid<T>,
        PipelineError,
    >)
        ensures
            match result {
                Ok(g) => {
                    &&& width > 0 && height > 0
                    &&& g.wf()
                    &&& g.spec_width() == width
                    &&& g.spec_height() == height
                    &&& forall|i: int| 0 <= i < g@.len() ==> g@[i] == fill
                },
                Err(e) => e == PipelineError::InvalidParameter && (width == 0 || height == 0
                    || width * height > usize::MAX),
            },
    {
        if width == 0 || height == 0 {
            return Err(PipelineError::InvalidParameter);
        }
        let total = match width.checked_mul(height) {
            Some(t) => t,
            None => {
                return Err(PipelineError::InvalidParameter);
            },
        };
        let mut cells: Vec<T> = Vec::new();
        let mut i: usize = 0;
        while i < total
            invariant
                i <= total,
                cells@.len() == i,
                forall|j: int| 0 <= j < i ==> cells@[j] == fill,
            decreases total - i,
        {
            cells.push(fill);
            i = i + 1;
        }
        Ok(Grid { cells, width, height })
    }

    /// Reads the cell at `(x, y)`; the caller must stay in bounds.
    pub fn at(&self, x: usize, y: usize) -> (v: T)
        requires
            self.wf(),
            self.in_bounds(x as int, y as int),
        ensures
            v == self.cell(x as int, y as int),
    {
        proof {
            lemma_row_major_index_bound(
                x as int,
                y as int,
                self.spec_width(),
                self.spec_height(),
            );
        }
        let _n = self.cells.len();
        let idx = y * self.width + x;
        self.cells[idx]
    }

    /// Bounds-checked read: `Ok` exactly on in-bounds coordinates,
    /// `OutOfRange` otherwise.
    pub fn get(&self, x: usize, y: usize) -> (result: Result<T, PipelineError>)
        requires
            self.wf(),
        ensures
            match result {
                Ok(v) => self.in_bounds(x as int, y as int) && v == self.cell(x as int, y as int),
                Err(e) => e == PipelineError::OutOfRange && !self.in_bounds(x as int, y as int),
            },
    {
        if x < self.width && y < self.height {
            Ok(self.at(x, y))
        } else {
            Err(PipelineError::OutOfRange)
        }
    }
}

/// Checks that two grids share their dimensions, as the MSCN combination of
/// the image with its mean and dispersion grids demands; `DimensionMismatch`
/// otherwise.
pub fn ensure_same_dims<T, U>(a: &Grid<T>, b: &Grid<U>) -> (result: Result<(), PipelineError>)
    ensures
        match result {
            Ok(_) => a.spec_width() == b.spec_width() && a.spec_height() == b.spec_height(),
            Err(e) => e == PipelineError::DimensionMismatch && (a.spec_width() != b.spec_width()
                || a.spec_height() != b.spec_height()),
        },
{
    if a.width() == b.width() && a.height() == b.height() {
        Ok(())
    } else {
        Err(PipelineError::DimensionMismatch)
    }
}

} // verus!
