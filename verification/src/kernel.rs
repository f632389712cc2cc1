use crate::error::PipelineError;
use vstd::prelude::*;

verus! {

/// Side length of a square kernel window of the given radius.
pub open spec fn side_of(radius: int) -> int {
    2 * radius + 1
}

/// A square convolution weight table of side `2 * radius + 1`, indexed by a
/// signed offset `(dx, dy)` with `|dx|, |dy| <= radius`. The weights are
/// stored row-major, rows ordered by `dy`; the sample type is generic, so the
/// numeric normalization of the Gaussian weights stays with the driver that
/// computes them.
#[derive(Debug)]
pub struct Kernel<T> {
    weights: Vec<T>,
    radius: usize,
}

impl<T> View for Kernel<T> {
    type V = Seq<T>;

    closed spec fn view(&self) -> Seq<T> {
        self.weights@
    }
}

/// A side length whose square fits the address space fits 32 bits itself.
proof fn lemma_side_bound(s: int)
    requires
        1 <= s,
        s * s <= usize::MAX,
    ensures
        s <= 0xFFFF_FFFF,
{
    if s > 0xFFFF_FFFF {
        assert(0x1_0000_0000 * 0x1_0000_0000 <= s * s) by (nonlinear_arith)
            requires
                s >= 0x1_0000_0000,
        ;
        assert(false);
    }
}

impl<T> Kernel<T> {
    /// The configured radius.
    pub closed spec fn spec_radius(&self) -> int {
        self.radius as int
    }

    /// Well-formed: the table holds exactly one weight per offset of the
    /// `side_of(radius)`-sided square window.
    pub open spec fn wf(&self) -> bool {
        self@.len() == side_of(self.spec_radius()) * side_of(self.spec_radius())
    }

    /// `(dx, dy)` is an offset this kernel covers.
    pub open spec fn offset_in_range(&self, dx: int, dy: int) -> bool {
        &&& -self.spec_radius() <= dx <= self.spec_radius()
        &&& -self.spec_radius() <= dy <= self.spec_radius()
    }

    /// The weight stored for offset `(dx, dy)`.
    pub open spec fn entry(&self, dx: int, dy: int) -> T {
        self@[(dy + self.spec_radius()) * side_of(self.spec_radius()) + (dx + self.spec_radius())]
    }

    /// Wraps a row-major weight table of the given radius. Rejects with
    /// `InvalidParameter` a table whose length is not the square of the
    /// window side.
    pub fn from_weights(weights: Vec<T>, radius: usize) -> (result: Result<
        Kernel<T>,
        PipelineError,
    >)
        requires
            radius <= 0x7FFE,
        ensures
            match result {
                Ok(k) => {
                    &&& weights@.len() == side_of(radius as int) * side_of(radius as int)
                    &&& k.wf()
                    &&& k.spec_radius() == radius
                    &&& k@ == weights@
                },
                Err(e) => e == PipelineError::InvalidParameter && weights@.len() != side_of(
                    radius as int,
                ) * side_of(radius as int),
            },
    {
        proof {
            let s = side_of(radius as int);
            assert(s <= s * s && s * s <= 0xFFFF_FFFF) by (nonlinear_arith)
                requires
                    1 <= s <= 0xFFFD,
            ;
        }
        let side = 2 * radius + 1;
        let total = side * side;
        if weights.len() != total {
            return Err(PipelineError::InvalidParameter);
        }
        Ok(Kernel { weights, radius })
    }

    /// The configured radius.
    pub fn radius(&self) -> (r: usize)
        ensures
            r == self.spec_radius(),
    {
        self.radius
    }

    /// The side length of the window, `2 * radius + 1`.
    pub fn side(&self) -> (s: usize)
        requires
            self.wf(),
        ensures
            s == side_of(self.spec_radius()),
    {
        let _n = self.weights.len();
        proof {
            let s = side_of(self.spec_radius());
            assert(s <= s * s) by (nonlinear_arith)
                requires
                    1 <= s,
            ;
        }
        2 * self.radius + 1
    }
}

/// The table is unchanged by reflecting it through its center: the weight at
/// flat position `i` equals the weight at `len - 1 - i`.
pub open spec fn point_symmetric<T>(k: &Kernel<T>) -> bool {
    forall|i: int| 0 <= i < k@.len() ==> #[trigger] k@[i] == k@[k@.len() - 1 - i]
}

/// Every row of the table reads the same backwards: the weight at flat
/// position `i` equals the weight at the mirrored column of the same row.
pub open spec fn row_palindromic<T>(k: &Kernel<T>) -> bool {
    let s = side_of(k.spec_radius());
    forall|i: int|
        0 <= i < k@.len() ==> #[trigger] k@[i] == k@[(i / s) * s + (s - 1 - i % s)]
}

/// An isotropic weight table looks the same in all four quadrants: if the
/// table is symmetric under point reflection and under mirroring each row —
/// as a table of weights depending only on `dx² + dy²` is — then the entry at
/// `(dx, dy)` equals the entries at `(-dx, -dy)`, `(-dx, dy)` and `(dx, -dy)`.
pub proof fn lemma_kernel_symmetry<T>(k: &Kernel<T>, dx: int, dy: int)
    requires
        k.wf(),
        k.offset_in_range(dx, dy),
        point_symmetric(k),
        row_palindromic(k),
    ensures
        k.entry(dx, dy) == k.entry(-dx, -dy),
        k.entry(dx, dy) == k.entry(-dx, dy),
        k.entry(dx, dy) == k.entry(dx, -dy),
{
    let r = k.spec_radius();
    let s = side_of(r);
    let n = k@.len() as int;
    lemma_offset_index_algebra(r, dx, dy);
    lemma_offset_index_algebra(r, -dx, dy);
    let i1 = (dy + r) * s + (dx + r);
    let i2 = (dy + r) * s + (-dx + r);
    // Mirroring the row maps (dx, dy) to (-dx, dy) ...
    assert(k@[i1] == k@[(i1 / s) * s + (s - 1 - i1 % s)]);
    // ... and point reflection maps (dx, dy) to (-dx, -dy) and
    // (-dx, dy) to (dx, -dy).
    assert(k@[i1] == k@[n - 1 - i1]);
    assert(k@[i2] == k@[n - 1 - i2]);
}

/// Index algebra behind the symmetry law: where the offset `(dx, dy)` sits in
/// the flat table, that its row mirror is the offset `(-dx, dy)`, and that
/// its point reflection is the offset `(-dx, -dy)`.
proof fn lemma_offset_index_algebra(r: int, dx: int, dy: int)
    requires
        0 <= r,
        -r <= dx <= r,
        -r <= dy <= r,
    ensures
        ({
            let s = side_of(r);
            let i = (dy + r) * s + (dx + r);
            &&& 0 <= i < s * s
            &&& i / s == dy + r
            &&& i % s == dx + r
            &&& (i / s) * s + (s - 1 - i % s) == (dy + r) * s + (-dx + r)
            &&& s * s - 1 - i == (-dy + r) * s + (-dx + r)
        }),
{
    let s = side_of(r);
    let i = (dy + r) * s + (dx + r);
    vstd::arithmetic::div_mod::lemma_fundamental_div_mod_converse(i, s, dy + r, dx + r);
    assert(0 <= i < s * s && s * s - 1 - i == (-dy + r) * s + (-dx + r)) by (nonlinear_arith)
        requires
            0 <= dy + r < s,
            0 <= dx + r < s,
            i == (dy + r) * s + (dx + r),
            s == 2 * r + 1,
    ;
}

impl<T: Copy> Kernel<T> {
    /// Looks the weight for offset `(dx, dy)` up: `Ok` with the stored entry
    /// exactly when `|dx|, |dy| <= radius`, `OutOfRange` otherwise.
    pub fn value(&self, dx: i32, dy: i32) -> (result: Result<T, PipelineError>)
        requires
            self.wf(),
        ensures
            match result {
                Ok(v) => self.offset_in_range(dx as int, dy as int) && v == self.entry(
                    dx as int,
                    dy as int,
                ),
                Err(e) => e == PipelineError::OutOfRange && !self.offset_in_range(
                    dx as int,
                    dy as int,
                ),
            },
    {
        let _n = self.weights.len();
        proof {
            lemma_side_bound(side_of(self.spec_radius()));
        }
        let r = self.radius as i64;
        let dxl = dx as i64;
        let dyl = dy as i64;
        if dxl < -r || r < dxl || dyl < -r || r < dyl {
            return Err(PipelineError::OutOfRange);
        }
        let side = 2 * self.radius + 1;
        let ix = (dxl + r) as usize;
        let iy = (dyl + r) as usize;
        proof {
            assert((iy as int) * (side as int) + (ix as int) < (side as int) * (side as int))
                by (nonlinear_arith)
                requires
                    (ix as int) < (side as int),
                    (iy as int) < (side as int),
                    0 <= (ix as int),
                    0 <= (iy as int),
            ;
        }
        let idx = iy * side + ix;
        Ok(self.weights[idx])
    }
}

} // verus!
