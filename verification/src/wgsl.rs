//! Host-side representations of WGSL vectors and matrices.
use vstd::prelude::*;

verus! {

/// Marker for types that can be shared between the host and the gpu.
pub trait HostSharable: Copy {

}

impl HostSharable for i32 {

}

impl HostSharable for u32 {

}

impl<T: HostSharable, const N: usize> HostSharable for [T; N] {

}

/// Scalars that WGSL allows inside an atomic.
pub trait AtomicScalar: Copy {

}

impl AtomicScalar for i32 {

}

impl AtomicScalar for u32 {

}

/// Wrapper for an atomic type.
#[derive(Debug, Clone, Copy, PartialEq, Eq, PartialOrd, Ord)]
pub struct Atomic<T: AtomicScalar>(pub T);

impl HostSharable for Atomic<i32> {

}

impl HostSharable for Atomic<u32> {

}

/// Integer scalars that WGSL allows inside a vector.
pub trait VectorScalar: Copy {

}

impl VectorScalar for i32 {

}

impl VectorScalar for u32 {

}

/// A vector of two elements.
#[derive(Debug, Clone, Copy, PartialEq, Eq, PartialOrd, Ord)]
pub struct Vec2<T>(pub [T; 2]);

/// A vector of three elements.
#[derive(Debug, Clone, Copy, PartialEq, Eq, PartialOrd, Ord)]
pub struct Vec3<T>(pub [T; 3]);

/// A vector of four elements.
#[derive(Debug, Clone, Copy, PartialEq, Eq, PartialOrd, Ord)]
pub struct Vec4<T>(pub [T; 4]);

impl<T: VectorScalar> HostSharable for Vec2<T> {

}

impl<T: VectorScalar> HostSharable for Vec3<T> {

}

impl<T: VectorScalar> HostSharable for Vec4<T> {

}

/// Conversion between a vector of `N` elements and an array.
pub trait VectorType<T, const N: usize>: Sized {
    /// Returns the elements of the vector.
    fn unpack(self) -> (r: [T; N])
        ensures
            r == self.elements(),
    ;

    /// Builds the vector with the elements `value`.
    fn pack(value: [T; N]) -> (r: Self)
        ensures
            r.elements() == value,
    ;

    /// The elements of the vector.
    spec fn elements(self) -> [T; N];
}

impl<T> VectorType<T, 2> for Vec2<T> {
    fn unpack(self) -> (r: [T; 2]) {
        self.0
    }

    fn pack(value: [T; 2]) -> (r: Self) {
        Vec2(value)
    }

    open spec fn elements(self) -> [T; 2] {
        self.0
    }
}

impl<T> VectorType<T, 3> for Vec3<T> {
    fn unpack(self) -> (r: [T; 3]) {
        self.0
    }

    fn pack(value: [T; 3]) -> (r: Self) {
        Vec3(value)
    }

    open spec fn elements(self) -> [T; 3] {
        self.0
    }
}

impl<T> VectorType<T, 4> for Vec4<T> {
    fn unpack(self) -> (r: [T; 4]) {
        self.0
    }

    fn pack(value: [T; 4]) -> (r: Self) {
        Vec4(value)
    }

    open spec fn elements(self) -> [T; 4] {
        self.0
    }
}

/// Whether `n` is the size of a WGSL vector.
pub open spec fn is_vector_size(n: usize) -> bool {
    2 <= n <= 4
}

/// A matrix of `C` columns of `R` rows, stored column by column.
#[derive(Debug, Clone, Copy, PartialEq, Eq, PartialOrd, Ord)]
pub struct Matrix<T, const C: usize, const R: usize> {
    pub data: [[T; R]; C],
}

impl<T: Copy, const C: usize, const R: usize> Matrix<T, C, R> {
    /// Instantiates a new matrix from its columns.
    pub fn new(data: [[T; R]; C]) -> (m: Self)
        requires
            is_vector_size(C),
            is_vector_size(R),
        ensures
            m.data == data,
    {
        Matrix { data }
    }

    /// Instantiates a new matrix from the given row vectors.
    pub fn from_rows(rows: [[T; C]; R]) -> (m: Self)
        requires
            is_vector_size(C),
            is_vector_size(R),
        ensures
            forall|c: int, r: int| 0 <= c < C && 0 <= r < R ==> #[trigger] m.data[c][r] == rows[r][c],
    {
        Self::from_rows_array(rows)
    }

    /// Instantiates a new matrix from the given row arrays.
    pub fn from_rows_array(rows: [[T; C]; R]) -> (m: Self)
        requires
            is_vector_size(C),
            is_vector_size(R),
        ensures
            forall|c: int, r: int| 0 <= c < C && 0 <= r < R ==> #[trigger] m.data[c][r] == rows[r][c],
    {
        let mut columns: [[T; R]; C] = [[rows[0][0];R];C];
        let mut c: usize = 0;
        while c < C
            invariant
                c <= C,
                forall|c2: int, r: int|
                    0 <= c2 < c && 0 <= r < R ==> #[trigger] columns[c2][r] == rows[r][c2],
            decreases C - c,
        {
            let mut column = columns[c];
            let mut r: usize = 0;
            while r < R
                invariant
                    c < C,
                    r <= R,
                    forall|r2: int| 0 <= r2 < r ==> #[trigger] column[r2] == rows[r2][c as int],
                decreases R - r,
            {
                column[r] = rows[r][c];
                r = r + 1;
            }
            columns[c] = column;
            c = c + 1;
        }
        Self::from_columns_array(columns)
    }

    /// Instantiates a new matrix from the given column vectors.
    pub fn from_columns(columns: [[T; R]; C]) -> (m: Self)
        requires
            is_vector_size(C),
            is_vector_size(R),
        ensures
            m.data == columns,
    {
        Self::new(columns)
    }

    /// Instantiates a new matrix from the given column arrays.
    pub fn from_columns_array(columns: [[T; R]; C]) -> (m: Self)
        requires
            is_vector_size(C),
            is_vector_size(R),
        ensures
            m.data == columns,
    {
        Self::from_columns(columns)
    }
}

/// A 2x2 Matrix.
pub type Matrix2x2<T> = Matrix<T, 2, 2>;

/// A 2x3 Matrix.
pub type Matrix2x3<T> = Matrix<T, 2, 3>;

/// A 2x4 Matrix.
pub type Matrix2x4<T> = Matrix<T, 2, 4>;

/// A 3x2 Matrix.
pub type Matrix3x2<T> = Matrix<T, 3, 2>;

/// A 3x3 Matrix.
pub type Matrix3x3<T> = Matrix<T, 3, 3>;

/// A 3x4 Matrix.
pub type Matrix3x4<T> = Matrix<T, 3, 4>;

/// A 4x2 Matrix.
pub type Matrix4x2<T> = Matrix<T, 4, 2>;

/// A 4x3 Matrix.
pub type Matrix4x3<T> = Matrix<T, 4, 3>;

/// A 4x4 Matrix.
pub type Matrix4x4<T> = Matrix<T, 4, 4>;

/// Building a matrix from rows transposes them, so building a matrix from
/// the columns of that matrix as rows gives back the original rows.
pub proof fn lemma_transpose_twice<T, const C: usize, const R: usize>(
    rows: [[T; C]; R],
    m1: Matrix<T, C, R>,
    m2: Matrix<T, R, C>,
)
    requires
        forall|c: int, r: int| 0 <= c < C && 0 <= r < R ==> #[trigger] m1.data[c][r] == rows[r][c],
        forall|r: int, c: int| 0 <= r < R && 0 <= c < C ==> #[trigger] m2.data[r][c] == m1.data[c][r],
    ensures
        m2.data == rows,
{
    assert forall|r: int| 0 <= r < R implies #[trigger] m2.data[r] == rows[r] by {
        assert forall|c: int| 0 <= c < C implies m2.data[r][c] == rows[r][c] by {
            assert(m2.data[r][c] == m1.data[c][r]);
        }
        assert(m2.data[r] =~= rows[r]);
    }
    assert(m2.data =~= rows);
}

} // verus!
