use ppc::wgsl::{Matrix, Matrix2x3, Matrix3x2, Vec2, Vec3, Vec4, VectorType};

#[test]
fn matrix_from_rows_transposes() {
    let m: Matrix2x3<i32> = Matrix::from_rows([[1, 2], [3, 4], [5, 6]]);
    assert_eq!(m.data, [[1, 3, 5], [2, 4, 6]]);
    let m: Matrix2x3<i32> = Matrix::from_rows_array([[1, 2], [3, 4], [5, 6]]);
    assert_eq!(m.data, [[1, 3, 5], [2, 4, 6]]);
}

#[test]
fn matrix_from_columns_keeps_columns() {
    let m: Matrix3x2<f32> = Matrix::from_columns([[1.0, 2.0], [3.0, 4.0], [5.0, 6.0]]);
    assert_eq!(m.data, [[1.0, 2.0], [3.0, 4.0], [5.0, 6.0]]);
    let n: Matrix3x2<f32> = Matrix::from_columns_array([[1.0, 2.0], [3.0, 4.0], [5.0, 6.0]]);
    assert_eq!(m, n);
    let k: Matrix3x2<f32> = Matrix::new([[1.0, 2.0], [3.0, 4.0], [5.0, 6.0]]);
    assert_eq!(m, k);
}

#[test]
fn transposing_twice_gives_the_rows() {
    let rows = [[1, 2, 3, 4], [5, 6, 7, 8]];
    let m: Matrix<i32, 4, 2> = Matrix::from_rows(rows);
    let back: Matrix<i32, 2, 4> = Matrix::from_rows(m.data);
    assert_eq!(back.data, rows);
}

#[test]
fn vectors_pack_and_unpack() {
    let v = Vec2::pack([1u32, 2]);
    assert_eq!(v, Vec2([1, 2]));
    assert_eq!(v.unpack(), [1, 2]);
    assert_eq!(Vec3::pack([1, 2, 3]).unpack(), [1, 2, 3]);
    assert_eq!(Vec4::pack([1.0f32, 2.0, 3.0, 4.0]).0, [1.0, 2.0, 3.0, 4.0]);
}
