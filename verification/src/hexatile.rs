//! The hexagonal tiles of the game: the field they lie on and the state of
//! one tile.
use vstd::prelude::*;

verus! {

/// The field of tiles: `data` holds one byte per tile, row after row, rows
/// `width` tiles wide.
pub struct HexatileField {
    pub width: usize,
    pub data: Vec<u8>,
    pub changed: bool,
}

/// The place in the field's data of the tile in column `x`, row `y`.
pub open spec fn field_index(width: int, x: int, y: int) -> int {
    y * width + x
}

impl HexatileField {
    /// An empty field.
    pub fn new() -> (f: Self)
        ensures
            f.width == 0,
            f.data@ == Seq::<u8>::empty(),
            !f.changed,
    {
        HexatileField { width: 0, data: Vec::new(), changed: false }
    }

    /// The place in `data` of the tile in column `x`, row `y`.
    pub fn index(&self, x: usize, y: usize) -> (i: usize)
        requires
            field_index(self.width as int, x as int, y as int) <= usize::MAX,
        ensures
            i == field_index(self.width as int, x as int, y as int),
    {
        proof {
            assert(0 <= y * self.width <= y * self.width + x) by (nonlinear_arith)
                requires
                    0 <= x,
                    0 <= y,
                    0 <= self.width,
            ;
        }
        y * self.width + x
    }

    /// The column and row of the tile at place `i` in `data`.
    pub fn coords(&self, i: usize) -> (c: (usize, usize))
        requires
            self.width > 0,
        ensures
            c.0 == i % self.width,
            c.1 == i / self.width,
            c.0 < self.width,
            field_index(self.width as int, c.0 as int, c.1 as int) == i,
    {
        let x: usize = i % self.width;
        let y: usize = i / self.width;
        proof {
            let w: int = self.width as int;
            vstd::arithmetic::div_mod::lemma_fundamental_div_mod(i as int, w);
            assert(y * w == w * (i as int / w)) by (nonlinear_arith)
                requires
                    y == i as int / w,
            ;
        }
        (x, y)
    }
}

/// One tile: its cube coordinates and its flags.
#[derive(Copy, Clone, PartialEq, Eq, Debug)]
pub struct Hexatile {
    pub uvw: (i16, i16, i16),
    pub active: bool,
    pub hidden: bool,
    pub changed: bool,
}

/// The cube coordinates `uvw` with `v` folded into `u` and `w`: the same tile
/// named with `v` at 0.
pub open spec fn normal_uvw(uvw: (i16, i16, i16)) -> (int, int, int) {
    if uvw.1 != 0 {
        (uvw.0 + uvw.1, 0, uvw.2 + uvw.1)
    } else {
        (uvw.0 as int, 0, uvw.2 as int)
    }
}

/// Folding `v` into `u` and `w` fits in `i16`.
pub open spec fn fits_normal(uvw: (i16, i16, i16)) -> bool {
    let n = normal_uvw(uvw);
    i16::MIN <= n.0 <= i16::MAX && i16::MIN <= n.2 <= i16::MAX
}

impl Hexatile {
    /// A tile at the origin with every flag clear.
    pub fn new() -> (h: Self)
        ensures
            h.uvw == (0i16, 0i16, 0i16),
            !h.active,
            !h.hidden,
            !h.changed,
    {
        Hexatile { uvw: (0, 0, 0), active: false, hidden: false, changed: false }
    }

    /// Whether folding `v` into `u` and `w` fits in `i16`.
    pub fn can_normalize(uvw: (i16, i16, i16)) -> (r: bool)
        ensures
            r == fits_normal(uvw),
    {
        let (u, v, w) = uvw;
        if v == 0 {
            true
        } else {
            let su: i32 = u as i32 + v as i32;
            let sw: i32 = w as i32 + v as i32;
            i16::MIN as i32 <= su && su <= i16::MAX as i32 && i16::MIN as i32 <= sw && sw <= i16::MAX as i32
        }
    }

    /// The coordinates `uvw` with `v` folded into `u` and `w`.
    pub fn normalize_uvw(uvw: (i16, i16, i16)) -> (r: (i16, i16, i16))
        requires
            fits_normal(uvw),
        ensures
            (r.0 as int, r.1 as int, r.2 as int) == normal_uvw(uvw),
            r.0 == uvw.0 + uvw.1,
            r.1 == 0,
            r.2 == uvw.2 + uvw.1,
    {
        let (mut u, mut v, mut w) = uvw;
        if v != 0 {
            u = u + v;
            w = w + v;
            v = 0;
        }
        (u, v, w)
    }

    /// What the tile system does with a tile each frame: a changed tile has
    /// its change flag cleared and its coordinates normalized, and hands back
    /// the `u` and `w` its position is computed from; an unchanged tile is left
    /// alone and hands back nothing.
    pub fn settle(&mut self) -> (r: Option<(i16, i16)>)
        requires
            old(self).changed ==> fits_normal(old(self).uvw),
        ensures
            final(self).active == old(self).active,
            final(self).hidden == old(self).hidden,
            !old(self).changed ==> r is None && final(self).uvw == old(self).uvw && !final(self).changed,
            old(self).changed ==> {
                &&& !final(self).changed
                &&& (final(self).uvw.0 as int, final(self).uvw.1 as int, final(self).uvw.2 as int) == normal_uvw(old(self).uvw)
                &&& r == Some((final(self).uvw.0, final(self).uvw.2))
                &&& final(self).uvw.0 == old(self).uvw.0 + old(self).uvw.1
                &&& final(self).uvw.1 == 0
                &&& final(self).uvw.2 == old(self).uvw.2 + old(self).uvw.1
            },
    {
        if self.changed {
            self.changed = false;
            self.uvw = Hexatile::normalize_uvw(self.uvw);
            Some((self.uvw.0, self.uvw.2))
        } else {
            None
        }
    }
}

impl Default for Hexatile {
    fn default() -> (h: Self)
        ensures
            h.uvw == (0i16, 0i16, 0i16),
            !h.active,
            !h.hidden,
            !h.changed,
    {
        Hexatile::new()
    }
}

impl Default for HexatileField {
    fn default() -> (f: Self)
        ensures
            f.width == 0,
            f.data@ == Seq::<u8>::empty(),
            !f.changed,
    {
        HexatileField::new()
    }
}

/// The place of the tile in column `x`, row `y` names that tile again: for a
/// column inside the field, the column and row of `index(x, y)` are `x` and `y`.
pub proof fn law_coords_of_index(width: int, x: int, y: int)
    requires
        0 <= x < width,
        0 <= y,
    ensures
        field_index(width, x, y) % width == x,
        field_index(width, x, y) / width == y,
{
    vstd::arithmetic::div_mod::lemma_fundamental_div_mod_converse(field_index(width, x, y), width, y, x);
}

/// Every place in the data is the place of the tile at its column and row.
pub proof fn law_index_of_coords(width: int, i: int)
    requires
        width > 0,
        0 <= i,
    ensures
        field_index(width, i % width, i / width) == i,
        0 <= i % width < width,
{
    vstd::arithmetic::div_mod::lemma_fundamental_div_mod(i, width);
    assert(i / width * width == width * (i / width)) by (nonlinear_arith);
}

/// Normalizing adds `v` to both `u` and `w` and sets `v` to 0, for every
/// coordinates.
pub proof fn law_normal_uvw_folds_v(uvw: (i16, i16, i16))
    ensures
        normal_uvw(uvw).0 == uvw.0 + uvw.1,
        normal_uvw(uvw).1 == 0,
        normal_uvw(uvw).2 == uvw.2 + uvw.1,
{
}

/// Normalizing the coordinates of a tile sets `v` to 0, keeps `u - w`, and
/// leaves coordinates that are normal already as they are.
pub proof fn law_normalize(uvw: (i16, i16, i16))
    requires
        fits_normal(uvw),
    ensures
        normal_uvw(uvw).1 == 0,
        normal_uvw(uvw).0 - normal_uvw(uvw).2 == uvw.0 - uvw.2,
        uvw.1 == 0 ==> normal_uvw(uvw) == (uvw.0 as int, uvw.1 as int, uvw.2 as int),
        normal_uvw((normal_uvw(uvw).0 as i16, 0i16, normal_uvw(uvw).2 as i16)) == normal_uvw(uvw),
{
}

} // verus!
