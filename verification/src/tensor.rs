//! Dense tables of one, two and three axes.
//!
//! The tables are stored by `ndarray`. Verus cannot look inside an `ndarray`
//! array, so each table type keeps its array in a private field and is read
//! through a handful of small functions whose contracts are taken on trust
//! from `ndarray`'s documentation and source. Everything else in this crate
//! is proved against those contracts.
//!
//! The mathematical picture of a table is its axis lengths together with its
//! cells in row-major order: the last axis varies fastest.

use vstd::prelude::*;
use crate::error::WnnError;

verus! {

/// Position of cell `(i, j, k)` in the row-major order of a table whose last
/// two axes have lengths `d1` and `d2`.
pub open spec fn offset3(d1: nat, d2: nat, i: int, j: int, k: int) -> int {
    (i * d1 + j) * d2 + k
}

/// A zero-length axis counts as one when `ndarray` bounds the size of a shape.
pub open spec fn axis_or_one(d: nat) -> nat {
    if d == 0 { 1 } else { d }
}

/// `ndarray` accepts a shape only if the product of its non-zero axis
/// lengths does not exceed `isize::MAX`.
pub open spec fn axes_fit(d0: nat, d1: nat, d2: nat) -> bool {
    axis_or_one(d0) * axis_or_one(d1) * axis_or_one(d2) <= isize::MAX
}

/// The same bound for a shape of two axes.
pub open spec fn axes_fit2(d0: nat, d1: nat) -> bool {
    axis_or_one(d0) * axis_or_one(d1) <= isize::MAX
}

/// Model of a table with three axes.
pub struct Cube<T> {
    pub d0: nat,
    pub d1: nat,
    pub d2: nat,
    pub cells: Seq<T>,
}

impl<T> Cube<T> {
    /// There is exactly one cell per index triple.
    pub open spec fn wf(self) -> bool {
        self.cells.len() == self.d0 * self.d1 * self.d2
    }

    pub open spec fn has(self, i: int, j: int, k: int) -> bool {
        0 <= i < self.d0 && 0 <= j < self.d1 && 0 <= k < self.d2
    }

    pub open spec fn at(self, i: int, j: int, k: int) -> T {
        self.cells[offset3(self.d1, self.d2, i, j, k)]
    }
}

/// Model of a table with two axes.
pub struct Grid<T> {
    pub rows: nat,
    pub cols: nat,
    pub cells: Seq<T>,
}

impl<T> Grid<T> {
    pub open spec fn wf(self) -> bool {
        self.cells.len() == self.rows * self.cols
    }

    pub open spec fn has(self, r: int, c: int) -> bool {
        0 <= r < self.rows && 0 <= c < self.cols
    }

    pub open spec fn at(self, r: int, c: int) -> T {
        self.cells[r * self.cols + c]
    }
}

/// Every index triple inside a table names a position inside its cells.
pub proof fn lemma_offset3_in_range(d0: nat, d1: nat, d2: nat, i: int, j: int, k: int)
    requires
        0 <= i < d0,
        0 <= j < d1,
        0 <= k < d2,
    ensures
        0 <= offset3(d1, d2, i, j, k) < d0 * d1 * d2,
        0 <= i * d1 + j < d0 * d1,
{
    assert(0 <= i * d1 + j <= d0 * d1 - 1) by (nonlinear_arith)
        requires
            0 <= i < d0,
            0 <= j < d1,
    ;
    let p = i * d1 + j;
    let n = d0 * d1;
    assert(0 <= p * d2 + k < n * d2) by (nonlinear_arith)
        requires
            0 <= p <= n - 1,
            0 <= k < d2,
    ;
}

/// The error that `ndarray` reports for a shape it cannot build.
#[verifier::external_type_specification]
#[verifier::external_body]
pub struct ExShapeError(ndarray::ShapeError);

// ---------------------------------------------------------------------------
// Three axes of bits.
// ---------------------------------------------------------------------------

/// A three-axis table of bits, held as an `ndarray::Array3<bool>`.
#[derive(Debug)]
#[verifier::external_body]
pub struct BitCube {
    cells: ndarray::Array3<bool>,
}

/// The three axis lengths of the array inside a `BitCube`.
pub uninterp spec fn bit_cube_axes(a: BitCube) -> (nat, nat, nat);

/// The elements of the array inside a `BitCube`, in row-major index order.
pub uninterp spec fn bit_cube_cells(a: BitCube) -> Seq<bool>;

impl View for BitCube {
    type V = Cube<bool>;

    open spec fn view(&self) -> Cube<bool> {
        Cube {
            d0: bit_cube_axes(*self).0,
            d1: bit_cube_axes(*self).1,
            d2: bit_cube_axes(*self).2,
            cells: bit_cube_cells(*self),
        }
    }
}

/// Calls `ndarray::ArrayBase::from_shape_vec` with a three-axis shape in the
/// default (row-major) layout. Trusted: the call succeeds exactly when the
/// shape passes `ndarray`'s size bound and has as many cells as the vector
/// has elements, and the array then has that shape and holds the vector's
/// elements in row-major order.
#[verifier::external_body]
fn bit_cube_from_shape_vec(d0: usize, d1: usize, d2: usize, v: Vec<bool>) -> (r: Result<BitCube, ndarray::ShapeError>)
    ensures
        r.is_ok() == (axes_fit(d0 as nat, d1 as nat, d2 as nat) && v.len() == d0 * d1 * d2),
        r is Ok ==> bit_cube_axes(r->Ok_0) == (d0 as nat, d1 as nat, d2 as nat),
        r is Ok ==> bit_cube_cells(r->Ok_0) == v@,
{
    match ndarray::Array3::from_shape_vec((d0, d1, d2), v) {
        Ok(cells) => Ok(BitCube { cells }),
        Err(e) => Err(e),
    }
}

/// Calls `ndarray::ArrayBase::dim`. Trusted: the result is the three axis
/// lengths, and the array has one element per index triple.
#[verifier::external_body]
fn bit_cube_dim(a: &BitCube) -> (d: (usize, usize, usize))
    ensures
        bit_cube_axes(*a) == (d.0 as nat, d.1 as nat, d.2 as nat),
        bit_cube_cells(*a).len() == d.0 * d.1 * d.2,
{
    a.cells.dim()
}

/// Indexes the array with `[i, j, k]`, which panics outside the shape.
/// Trusted: inside the shape the result is the element at that index triple.
#[verifier::external_body]
fn bit_cube_index(a: &BitCube, i: usize, j: usize, k: usize) -> (x: bool)
    requires
        i < bit_cube_axes(*a).0,
        j < bit_cube_axes(*a).1,
        k < bit_cube_axes(*a).2,
    ensures
        x == bit_cube_cells(*a)[offset3(bit_cube_axes(*a).1, bit_cube_axes(*a).2, i as int, j as int, k as int)],
{
    a.cells[[i, j, k]]
}

impl BitCube {
    /// Builds a table of shape `d0 x d1 x d2` from its cells in row-major
    /// order.
    pub fn from_shape_vec(d0: usize, d1: usize, d2: usize, cells: Vec<bool>) -> (r: Result<BitCube, WnnError>)
        ensures
            r is Ok <==> axes_fit(d0 as nat, d1 as nat, d2 as nat) && cells.len() == d0 * d1 * d2,
            r matches Ok(a) ==> a@ == (Cube {
                d0: d0 as nat,
                d1: d1 as nat,
                d2: d2 as nat,
                cells: cells@,
            }),
            r matches Err(e) ==> e == WnnError::ShapeError,
    {
        match bit_cube_from_shape_vec(d0, d1, d2, cells) {
            Ok(a) => Ok(a),
            Err(_) => Err(WnnError::ShapeError),
        }
    }

    /// The three axis lengths.
    pub fn dim(&self) -> (d: (usize, usize, usize))
        ensures
            self@.d0 == d.0,
            self@.d1 == d.1,
            self@.d2 == d.2,
            self@.wf(),
    {
        bit_cube_dim(self)
    }

    /// The bit at `(i, j, k)`.
    pub fn get(&self, i: usize, j: usize, k: usize) -> (x: bool)
        requires
            self@.has(i as int, j as int, k as int),
        ensures
            x == self@.at(i as int, j as int, k as int),
    {
        let _ = bit_cube_dim(self);
        bit_cube_index(self, i, j, k)
    }
}

// ---------------------------------------------------------------------------
// Three axes of levels.
// ---------------------------------------------------------------------------

/// A three-axis table of levels, held as an `ndarray::Array3<u16>`.
///
/// A level stands for a threshold on an intensity: the least intensity, from 0
/// to 255, that reaches the threshold, or 256 where none does.
#[derive(Debug)]
#[verifier::external_body]
pub struct ThresholdCube {
    cells: ndarray::Array3<u16>,
}

/// The three axis lengths of the array inside a `ThresholdCube`.
pub uninterp spec fn threshold_cube_axes(a: ThresholdCube) -> (nat, nat, nat);

/// The elements of the array inside a `ThresholdCube`, in row-major index order.
pub uninterp spec fn threshold_cube_cells(a: ThresholdCube) -> Seq<u16>;

impl View for ThresholdCube {
    type V = Cube<u16>;

    open spec fn view(&self) -> Cube<u16> {
        Cube {
            d0: threshold_cube_axes(*self).0,
            d1: threshold_cube_axes(*self).1,
            d2: threshold_cube_axes(*self).2,
            cells: threshold_cube_cells(*self),
        }
    }
}

/// Calls `ndarray::ArrayBase::from_shape_vec` with a three-axis shape in the
/// default (row-major) layout. Trusted: the call succeeds exactly when the
/// shape passes `ndarray`'s size bound and has as many cells as the vector
/// has elements, and the array then has that shape and holds the vector's
/// elements in row-major order.
#[verifier::external_body]
fn threshold_cube_from_shape_vec(d0: usize, d1: usize, d2: usize, v: Vec<u16>) -> (r: Result<ThresholdCube, ndarray::ShapeError>)
    ensures
        r.is_ok() == (axes_fit(d0 as nat, d1 as nat, d2 as nat) && v.len() == d0 * d1 * d2),
        r is Ok ==> threshold_cube_axes(r->Ok_0) == (d0 as nat, d1 as nat, d2 as nat),
        r is Ok ==> threshold_cube_cells(r->Ok_0) == v@,
{
    match ndarray::Array3::from_shape_vec((d0, d1, d2), v) {
        Ok(cells) => Ok(ThresholdCube { cells }),
        Err(e) => Err(e),
    }
}

/// Calls `ndarray::ArrayBase::dim`. Trusted: the result is the three axis
/// lengths, and the array has one element per index triple.
#[verifier::external_body]
fn threshold_cube_dim(a: &ThresholdCube) -> (d: (usize, usize, usize))
    ensures
        threshold_cube_axes(*a) == (d.0 as nat, d.1 as nat, d.2 as nat),
        threshold_cube_cells(*a).len() == d.0 * d.1 * d.2,
{
    a.cells.dim()
}

/// Indexes the array with `[i, j, k]`, which panics outside the shape.
/// Trusted: inside the shape the result is the element at that index triple.
#[verifier::external_body]
fn threshold_cube_index(a: &ThresholdCube, i: usize, j: usize, k: usize) -> (x: u16)
    requires
        i < threshold_cube_axes(*a).0,
        j < threshold_cube_axes(*a).1,
        k < threshold_cube_axes(*a).2,
    ensures
        x == threshold_cube_cells(*a)[offset3(threshold_cube_axes(*a).1, threshold_cube_axes(*a).2, i as int, j as int, k as int)],
{
    a.cells[[i, j, k]]
}

impl ThresholdCube {
    /// Builds a table of shape `d0 x d1 x d2` from its cells in row-major
    /// order.
    pub fn from_shape_vec(d0: usize, d1: usize, d2: usize, cells: Vec<u16>) -> (r: Result<ThresholdCube, WnnError>)
        ensures
            r is Ok <==> axes_fit(d0 as nat, d1 as nat, d2 as nat) && cells.len() == d0 * d1 * d2,
            r matches Ok(a) ==> a@ == (Cube {
                d0: d0 as nat,
                d1: d1 as nat,
                d2: d2 as nat,
                cells: cells@,
            }),
            r matches Err(e) ==> e == WnnError::ShapeError,
    {
        match threshold_cube_from_shape_vec(d0, d1, d2, cells) {
            Ok(a) => Ok(a),
            Err(_) => Err(WnnError::ShapeError),
        }
    }

    /// The three axis lengths.
    pub fn dim(&self) -> (d: (usize, usize, usize))
        ensures
            self@.d0 == d.0,
            self@.d1 == d.1,
            self@.d2 == d.2,
            self@.wf(),
    {
        threshold_cube_dim(self)
    }

    /// The level at `(i, j, k)`.
    pub fn get(&self, i: usize, j: usize, k: usize) -> (x: u16)
        requires
            self@.has(i as int, j as int, k as int),
        ensures
            x == self@.at(i as int, j as int, k as int),
    {
        let _ = threshold_cube_dim(self);
        threshold_cube_index(self, i, j, k)
    }
}

// ---------------------------------------------------------------------------
// Two axes of intensities.
// ---------------------------------------------------------------------------

/// A grid of single-channel intensities, held as an `ndarray::Array2<u8>`.
#[derive(Debug)]
#[verifier::external_body]
pub struct PixelGrid {
    cells: ndarray::Array2<u8>,
}

/// The two axis lengths of the array inside a `PixelGrid`.
pub uninterp spec fn pixel_grid_axes(a: PixelGrid) -> (nat, nat);

/// The elements of the array inside a `PixelGrid`, in row-major index order.
pub uninterp spec fn pixel_grid_cells(a: PixelGrid) -> Seq<u8>;

impl View for PixelGrid {
    type V = Grid<u8>;

    open spec fn view(&self) -> Grid<u8> {
        Grid {
            rows: pixel_grid_axes(*self).0,
            cols: pixel_grid_axes(*self).1,
            cells: pixel_grid_cells(*self),
        }
    }
}

/// Calls `ndarray::ArrayBase::from_shape_vec` with a two-axis shape in the
/// default (row-major) layout. Trusted: the call succeeds exactly when the
/// shape passes `ndarray`'s size bound and has as many cells as the vector
/// has elements, and the array then has that shape and holds the vector's
/// elements in row-major order.
#[verifier::external_body]
fn pixel_grid_from_shape_vec(rows: usize, cols: usize, v: Vec<u8>) -> (r: Result<PixelGrid, ndarray::ShapeError>)
    ensures
        r.is_ok() == (axes_fit2(rows as nat, cols as nat) && v.len() == rows * cols),
        r is Ok ==> pixel_grid_axes(r->Ok_0) == (rows as nat, cols as nat),
        r is Ok ==> pixel_grid_cells(r->Ok_0) == v@,
{
    match ndarray::Array2::from_shape_vec((rows, cols), v) {
        Ok(cells) => Ok(PixelGrid { cells }),
        Err(e) => Err(e),
    }
}

/// Calls `ndarray::ArrayBase::dim`. Trusted: the result is the two axis
/// lengths, and the array has one element per index pair.
#[verifier::external_body]
fn pixel_grid_dim(a: &PixelGrid) -> (d: (usize, usize))
    ensures
        pixel_grid_axes(*a) == (d.0 as nat, d.1 as nat),
        pixel_grid_cells(*a).len() == d.0 * d.1,
{
    a.cells.dim()
}

/// Indexes the array with `[r, c]`, which panics outside the shape.
/// Trusted: inside the shape the result is the element at that index pair.
#[verifier::external_body]
fn pixel_grid_index(a: &PixelGrid, r: usize, c: usize) -> (x: u8)
    requires
        r < pixel_grid_axes(*a).0,
        c < pixel_grid_axes(*a).1,
    ensures
        x == pixel_grid_cells(*a)[r * pixel_grid_axes(*a).1 + c],
{
    a.cells[[r, c]]
}

impl PixelGrid {
    /// Builds a grid of `rows x cols` intensities from its cells in row-major
    /// order.
    pub fn from_shape_vec(rows: usize, cols: usize, cells: Vec<u8>) -> (r: Result<PixelGrid, WnnError>)
        ensures
            r is Ok <==> axes_fit2(rows as nat, cols as nat) && cells.len() == rows * cols,
            r matches Ok(a) ==> a@ == (Grid { rows: rows as nat, cols: cols as nat, cells: cells@ }),
            r matches Err(e) ==> e == WnnError::ShapeError,
    {
        match pixel_grid_from_shape_vec(rows, cols, cells) {
            Ok(a) => Ok(a),
            Err(_) => Err(WnnError::ShapeError),
        }
    }

    /// The number of rows and of columns.
    pub fn dim(&self) -> (d: (usize, usize))
        ensures
            self@.rows == d.0,
            self@.cols == d.1,
            self@.wf(),
    {
        pixel_grid_dim(self)
    }

    /// The intensity at row `r`, column `c`.
    pub fn get(&self, r: usize, c: usize) -> (x: u8)
        requires
            self@.has(r as int, c as int),
        ensures
            x == self@.at(r as int, c as int),
    {
        let _ = pixel_grid_dim(self);
        pixel_grid_index(self, r, c)
    }
}

// ---------------------------------------------------------------------------
// Three axes of bytes.
// ---------------------------------------------------------------------------

/// A three-axis table of bytes, held as an `ndarray::Array3<u8>`.
///
/// This is the shape in which a decoded colour image arrives: rows, columns,
/// and the channels of each pixel.
#[derive(Debug)]
#[verifier::external_body]
pub struct ByteCube {
    cells: ndarray::Array3<u8>,
}

/// The three axis lengths of the array inside a `ByteCube`.
pub uninterp spec fn byte_cube_axes(a: ByteCube) -> (nat, nat, nat);

/// The elements of the array inside a `ByteCube`, in row-major index order.
pub uninterp spec fn byte_cube_cells(a: ByteCube) -> Seq<u8>;

impl View for ByteCube {
    type V = Cube<u8>;

    open spec fn view(&self) -> Cube<u8> {
        Cube {
            d0: byte_cube_axes(*self).0,
            d1: byte_cube_axes(*self).1,
            d2: byte_cube_axes(*self).2,
            cells: byte_cube_cells(*self),
        }
    }
}

/// Calls `ndarray::ArrayBase::from_shape_vec` with a three-axis shape in the
/// default (row-major) layout. Trusted: the call succeeds exactly when the
/// shape passes `ndarray`'s size bound and has as many cells as the vector
/// has elements, and the array then has that shape and holds the vector's
/// elements in row-major order.
#[verifier::external_body]
fn byte_cube_from_shape_vec(d0: usize, d1: usize, d2: usize, v: Vec<u8>) -> (r: Result<ByteCube, ndarray::ShapeError>)
    ensures
        r.is_ok() == (axes_fit(d0 as nat, d1 as nat, d2 as nat) && v.len() == d0 * d1 * d2),
        r is Ok ==> byte_cube_axes(r->Ok_0) == (d0 as nat, d1 as nat, d2 as nat),
        r is Ok ==> byte_cube_cells(r->Ok_0) == v@,
{
    match ndarray::Array3::from_shape_vec((d0, d1, d2), v) {
        Ok(cells) => Ok(ByteCube { cells }),
        Err(e) => Err(e),
    }
}

/// Calls `ndarray::ArrayBase::index_axis_move` on the last axis, which panics
/// if `k` is not an index of that axis. Trusted: the result keeps the first
/// two axes, and its element at `[r, c]` is the cube's element at `[r, c, k]`;
/// in row-major positions, element `p` of the result is element
/// `p * d2 + k` of the cube, where `d2` is the length of the last axis.
#[verifier::external_body]
fn byte_cube_index_last_axis(a: ByteCube, k: usize) -> (g: PixelGrid)
    requires
        k < byte_cube_axes(a).2,
    ensures
        pixel_grid_axes(g) == (byte_cube_axes(a).0, byte_cube_axes(a).1),
        pixel_grid_cells(g) == Seq::new(
            byte_cube_axes(a).0 * byte_cube_axes(a).1,
            |p: int| byte_cube_cells(a)[p * byte_cube_axes(a).2 + k],
        ),
{
    PixelGrid { cells: a.cells.index_axis_move(ndarray::Axis(2), k) }
}

impl ByteCube {
    /// Builds a table of shape `d0 x d1 x d2` from its cells in row-major
    /// order.
    pub fn from_shape_vec(d0: usize, d1: usize, d2: usize, cells: Vec<u8>) -> (r: Result<ByteCube, WnnError>)
        ensures
            r is Ok <==> axes_fit(d0 as nat, d1 as nat, d2 as nat) && cells.len() == d0 * d1 * d2,
            r matches Ok(a) ==> a@ == (Cube {
                d0: d0 as nat,
                d1: d1 as nat,
                d2: d2 as nat,
                cells: cells@,
            }),
            r matches Err(e) ==> e == WnnError::ShapeError,
    {
        match byte_cube_from_shape_vec(d0, d1, d2, cells) {
            Ok(a) => Ok(a),
            Err(_) => Err(WnnError::ShapeError),
        }
    }

    /// Keeps plane `k` of the last axis and drops that axis.
    pub fn into_plane(self, k: usize) -> (g: PixelGrid)
        requires
            k < self@.d2,
        ensures
            g@.rows == self@.d0,
            g@.cols == self@.d1,
            g@.cells == Seq::new(self@.d0 * self@.d1, |p: int| self@.cells[p * self@.d2 + k]),
    {
        byte_cube_index_last_axis(self, k)
    }
}

// ---------------------------------------------------------------------------
// One axis of indices.
// ---------------------------------------------------------------------------

/// A row of indices, held as an `ndarray::Array1<u64>`.
#[derive(Debug)]
#[verifier::external_body]
pub struct IndexRow {
    cells: ndarray::Array1<u64>,
}

/// The elements of the array inside an `IndexRow`, in index order.
pub uninterp spec fn index_row_cells(a: IndexRow) -> Seq<u64>;

impl View for IndexRow {
    type V = Seq<u64>;

    open spec fn view(&self) -> Seq<u64> {
        index_row_cells(*self)
    }
}

/// Calls `ndarray::ArrayBase::from_shape_vec` with a one-axis shape.
/// Trusted: the call succeeds exactly when the length passes `ndarray`'s size
/// bound and is the vector's length, and the array then holds the vector's
/// elements in order.
#[verifier::external_body]
fn index_row_from_shape_vec(n: usize, v: Vec<u64>) -> (r: Result<IndexRow, ndarray::ShapeError>)
    ensures
        r.is_ok() == (axis_or_one(n as nat) <= isize::MAX && v.len() == n),
        r is Ok ==> index_row_cells(r->Ok_0) == v@,
{
    match ndarray::Array1::from_shape_vec(n, v) {
        Ok(cells) => Ok(IndexRow { cells }),
        Err(e) => Err(e),
    }
}

/// Calls `ndarray::ArrayBase::len`. Trusted: the result is the number of
/// elements.
#[verifier::external_body]
fn index_row_len(a: &IndexRow) -> (n: usize)
    ensures
        n == index_row_cells(*a).len(),
{
    a.cells.len()
}

/// Indexes the array with `[i]`, which panics outside its length.
/// Trusted: inside the length the result is the element at `i`.
#[verifier::external_body]
fn index_row_index(a: &IndexRow, i: usize) -> (x: u64)
    requires
        i < index_row_cells(*a).len(),
    ensures
        x == index_row_cells(*a)[i as int],
{
    a.cells[i]
}

impl IndexRow {
    /// Builds a row from its elements.
    pub fn from_vec(cells: Vec<u64>) -> (r: Result<IndexRow, WnnError>)
        ensures
            r is Ok <==> cells.len() <= isize::MAX,
            r matches Ok(a) ==> a@ == cells@,
            r matches Err(e) ==> e == WnnError::ShapeError,
    {
        let n: usize = cells.len();
        match index_row_from_shape_vec(n, cells) {
            Ok(a) => Ok(a),
            Err(_) => Err(WnnError::ShapeError),
        }
    }

    /// The number of elements.
    pub fn len(&self) -> (n: usize)
        ensures
            n == self@.len(),
    {
        index_row_len(self)
    }

    /// The element at `i`.
    pub fn get(&self, i: usize) -> (x: u64)
        requires
            i < self@.len(),
        ensures
            x == self@[i as int],
    {
        index_row_index(self, i)
    }
}

} // verus!
