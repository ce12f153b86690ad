use wasmgame::math::Mat4;

fn counting() -> Mat4<u32> {
    let mut b = [0u32; 16];
    for (i, x) in b.iter_mut().enumerate() {
        *x = i as u32;
    }
    Mat4::from_buf(b)
}

#[test]
fn layout_is_column_major() {
    let m = counting();
    assert_eq!(m.get(1, 2), 6);
    assert_eq!(m.row(1), [1, 5, 9, 13]);
    assert_eq!(m.column(1), [4, 5, 6, 7]);
    let c = Mat4::from_columns([[1, 2, 3, 4], [5, 6, 7, 8], [9, 10, 11, 12], [13, 14, 15, 16]]);
    assert_eq!(c.slice(), &[1, 2, 3, 4, 5, 6, 7, 8, 9, 10, 11, 12, 13, 14, 15, 16]);
}

#[test]
fn transpose_mirrors_and_undoes_itself() {
    let mut m = counting();
    m.transpose();
    assert_eq!(m.slice(), &[0, 4, 8, 12, 1, 5, 9, 13, 2, 6, 10, 14, 3, 7, 11, 15]);
    m.transpose();
    assert_eq!(m.slice(), counting().slice());
}

#[test]
fn upper_3x3_keeps_the_upper_left_block() {
    let m = counting().to_3x3(99);
    assert_eq!(m.slice(), &[0, 1, 2, 99, 4, 5, 6, 99, 8, 9, 10, 99, 99, 99, 99, 99]);
    let mut s = counting();
    s.set(3, 0, 77);
    assert_eq!(s.get(3, 0), 77);
}

fn sixteen() -> [f32; 16] {
    [1.0, 2.0, 3.0, 4.0, 5.0, 6.0, 7.0, 8.0, 9.0, 10.0, 11.0, 12.0, 13.0, 14.0, 15.0, 16.0]
}

#[test]
fn test_mat4_row() {
    let m = Mat4::from_buf(sixteen());
    assert_eq!(m.row(0), [1.0, 5.0, 9.0, 13.0]);
    assert_eq!(m.row(1), [2.0, 6.0, 10.0, 14.0]);
    assert_eq!(m.row(2), [3.0, 7.0, 11.0, 15.0]);
    assert_eq!(m.row(3), [4.0, 8.0, 12.0, 16.0]);
}

#[test]
fn test_mat4_union() {
    let m1 = Mat4::from_buf(sixteen());
    let m2 = Mat4::from_columns([
        [1.0, 2.0, 3.0, 4.0],
        [5.0, 6.0, 7.0, 8.0],
        [9.0, 10.0, 11.0, 12.0],
        [13.0, 14.0, 15.0, 16.0],
    ]);
    assert_eq!(m1.slice(), m2.slice());
}

#[test]
fn test_mat4_transpose() {
    let mut m1 = Mat4::from_buf(sixteen());
    let m2 = Mat4::from_buf([1.0, 5.0, 9.0, 13.0, 2.0, 6.0, 10.0, 14.0, 3.0, 7.0, 11.0, 15.0, 4.0, 8.0, 12.0, 16.0]);
    m1.transpose();
    assert_eq!(m1.slice(), m2.slice());
}
