//! The layout of a 4x4 matrix as the GPU reads it: sixteen values, column
//! after column, so that the value in column `c`, row `r` is at `c * 4 + r`.
use vstd::prelude::*;

verus! {

/// The place of the value in column `c`, row `r`.
pub open spec fn cell(c: int, r: int) -> int {
    c * 4 + r
}

/// A 4x4 matrix of values, stored column after column.
#[derive(Copy, Clone)]
pub struct Mat4<T> {
    buf: [T; 16],
}

impl<T> View for Mat4<T> {
    type V = Seq<T>;

    closed spec fn view(&self) -> Seq<T> {
        self.buf@
    }
}

impl<T: Copy> Mat4<T> {
    /// The value in column `c`, row `r`.
    pub open spec fn at(&self, c: int, r: int) -> T {
        self@[cell(c, r)]
    }

    /// The matrix whose storage is `buf`.
    pub fn from_buf(buf: [T; 16]) -> (m: Self)
        ensures
            m@ == buf@,
    {
        Mat4 { buf }
    }

    /// The matrix with the given columns.
    pub fn from_columns(columns: [[T; 4]; 4]) -> (m: Self)
        ensures
            m@.len() == 16,
            forall|c: int, r: int| 0 <= c < 4 && 0 <= r < 4 ==> #[trigger] m.at(c, r) == columns[c][r],
    {
        let c0 = columns[0];
        let c1 = columns[1];
        let c2 = columns[2];
        let c3 = columns[3];
        let m = Mat4 {
            buf: [
                c0[0], c0[1], c0[2], c0[3],
                c1[0], c1[1], c1[2], c1[3],
                c2[0], c2[1], c2[2], c2[3],
                c3[0], c3[1], c3[2], c3[3],
            ],
        };
        assert forall|c: int, r: int| 0 <= c < 4 && 0 <= r < 4 implies #[trigger] m.at(c, r) == columns[c][r] by {
            assert(cell(c, r) == c * 4 + r);
        }
        m
    }

    /// The matrix's values, column after column, as the GPU reads them.
    pub fn slice(&self) -> (s: &[T])
        ensures
            s@ == self@,
    {
        self.buf.as_slice()
    }

    /// The value in column `c`, row `r`, that is at place `c * 4 + r`.
    pub fn get(&self, c: usize, r: usize) -> (v: T)
        requires
            cell(c as int, r as int) < 16,
        ensures
            v == self.at(c as int, r as int),
    {
        self.buf[c * 4 + r]
    }

    /// Sets the value in column `c`, row `r`, that is at place `c * 4 + r`.
    pub fn set(&mut self, c: usize, r: usize, v: T)
        requires
            cell(c as int, r as int) < 16,
        ensures
            final(self)@ == old(self)@.update(cell(c as int, r as int), v),
    {
        self.buf[c * 4 + r] = v;
    }

    /// Row `i`, from the first column to the last.
    pub fn row(&self, i: usize) -> (row: [T; 4])
        requires
            i < 4,
        ensures
            forall|c: int| 0 <= c < 4 ==> #[trigger] row[c] == self.at(c, i as int),
    {
        [self.buf[i], self.buf[4 + i], self.buf[8 + i], self.buf[12 + i]]
    }

    /// Column `i`, from the first row to the last.
    pub fn column(&self, i: usize) -> (col: [T; 4])
        requires
            i < 4,
        ensures
            forall|r: int| 0 <= r < 4 ==> #[trigger] col[r] == self.at(i as int, r),
    {
        [self.buf[i * 4], self.buf[i * 4 + 1], self.buf[i * 4 + 2], self.buf[i * 4 + 3]]
    }

    /// Mirrors the matrix at its diagonal: rows become columns.
    pub fn transpose(&mut self)
        ensures
            final(self)@.len() == 16,
            forall|c: int, r: int| 0 <= c < 4 && 0 <= r < 4 ==> #[trigger] final(self).at(c, r) == old(self).at(r, c),
    {
        let b = self.buf;
        self.buf = [
            b[0], b[4], b[8], b[12],
            b[1], b[5], b[9], b[13],
            b[2], b[6], b[10], b[14],
            b[3], b[7], b[11], b[15],
        ];
        assert forall|c: int, r: int| 0 <= c < 4 && 0 <= r < 4 implies #[trigger] self.at(c, r) == old(self).at(r, c) by {
            assert(cell(c, r) == c * 4 + r);
            assert(cell(r, c) == r * 4 + c);
        }
    }

    /// The upper left 3x3 part of the matrix, with `zero` everywhere else.
    pub fn to_3x3(&self, zero: T) -> (m: Self)
        ensures
            m@.len() == 16,
            forall|c: int, r: int|
                0 <= c < 4 && 0 <= r < 4 ==> #[trigger] m.at(c, r) == if c < 3 && r < 3 {
                    self.at(c, r)
                } else {
                    zero
                },
    {
        let b = &self.buf;
        let m = Mat4 {
            buf: [
                b[0], b[1], b[2], zero,
                b[4], b[5], b[6], zero,
                b[8], b[9], b[10], zero,
                zero, zero, zero, zero,
            ],
        };
        assert forall|c: int, r: int| 0 <= c < 4 && 0 <= r < 4 implies #[trigger] m.at(c, r) == if c < 3 && r < 3 {
            self.at(c, r)
        } else {
            zero
        } by {
            assert(cell(c, r) == c * 4 + r);
        }
        m
    }
}

/// Transposing twice gives the matrix back; a row of the transposed matrix is
/// the column of the same number of the matrix.
pub proof fn law_transpose<T: Copy>(m: Mat4<T>, t: Mat4<T>, tt: Mat4<T>)
    requires
        m@.len() == 16,
        t@.len() == 16,
        tt@.len() == 16,
        forall|c: int, r: int| 0 <= c < 4 && 0 <= r < 4 ==> #[trigger] t.at(c, r) == m.at(r, c),
        forall|c: int, r: int| 0 <= c < 4 && 0 <= r < 4 ==> #[trigger] tt.at(c, r) == t.at(r, c),
    ensures
        tt@ == m@,
{
    assert forall|i: int| 0 <= i < 16 implies tt@[i] == m@[i] by {
        let c: int = i / 4;
        let r: int = i % 4;
        assert(cell(c, r) == i);
        assert(tt.at(c, r) == t.at(r, c));
        assert(t.at(r, c) == m.at(c, r));
    }
    assert(tt@ =~= m@);
}

} // verus!
