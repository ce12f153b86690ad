//! Turning the polygons of a Wavefront OBJ model into the flat vertex data
//! that is drawn as triangles: per vertex its position and its normal.
use vstd::prelude::*;

verus! {

/// How many values one vertex takes in the vertex data: three for the
/// position, three for the normal.
pub const VALUES_PER_VERTEX: usize = 6;

/// The corner of a polygon: the index of its position, and of its texture
/// coordinate and normal where it has them.
#[derive(Copy, Clone, PartialEq, Eq, Debug)]
pub struct IndexTuple {
    pub position: usize,
    pub texture: Option<usize>,
    pub normal: Option<usize>,
}

/// The corner `v` refers to a position and, if any, a normal that exist.
pub open spec fn valid_corner<T>(positions: Seq<[T; 3]>, normals: Seq<[T; 3]>, v: IndexTuple) -> bool {
    &&& v.position < positions.len()
    &&& match v.normal {
        Some(k) => k < normals.len(),
        None => true,
    }
}

/// The polygon has at least three corners, each valid.
pub open spec fn valid_polygon<T>(positions: Seq<[T; 3]>, normals: Seq<[T; 3]>, poly: Seq<IndexTuple>) -> bool {
    &&& poly.len() >= 3
    &&& forall|i: int| 0 <= i < poly.len() ==> valid_corner(positions, normals, #[trigger] poly[i])
}

/// The vertex data of corner `v`: its position, then its normal, or `zero`
/// three times where it has none.
pub open spec fn vertex_values<T>(positions: Seq<[T; 3]>, normals: Seq<[T; 3]>, zero: T, v: IndexTuple) -> Seq<T> {
    positions[v.position as int]@ + match v.normal {
        Some(k) => normals[k as int]@,
        None => seq![zero, zero, zero],
    }
}

/// The vertex data of a sequence of corners, one after the other.
pub open spec fn corners_values<T>(positions: Seq<[T; 3]>, normals: Seq<[T; 3]>, zero: T, vs: Seq<IndexTuple>) -> Seq<T>
    decreases vs.len(),
{
    if vs.len() == 0 {
        Seq::empty()
    } else {
        corners_values(positions, normals, zero, vs.drop_last()) + vertex_values(positions, normals, zero, vs.last())
    }
}

/// The corners of the first `m - 1` triangles of the fan of `poly` around its
/// first corner: triangle `i` is corners 0, `i` and `i + 1`.
pub open spec fn fan_upto(poly: Seq<IndexTuple>, m: int) -> Seq<IndexTuple>
    decreases m,
{
    if m <= 1 {
        Seq::empty()
    } else {
        fan_upto(poly, m - 1) + seq![poly[0], poly[m - 1], poly[m]]
    }
}

/// The corners of all triangles of the fan of `poly`.
pub open spec fn fan(poly: Seq<IndexTuple>) -> Seq<IndexTuple> {
    fan_upto(poly, poly.len() - 1)
}

/// The vertex data of the first `k` polygons of `polys`, one after the other.
pub open spec fn polygons_values<T>(
    positions: Seq<[T; 3]>,
    normals: Seq<[T; 3]>,
    zero: T,
    polys: Seq<Seq<IndexTuple>>,
    k: int,
) -> Seq<T>
    decreases k,
{
    if k <= 0 {
        Seq::empty()
    } else {
        polygons_values(positions, normals, zero, polys, k - 1) + corners_values(positions, normals, zero, fan(polys[k - 1]))
    }
}

/// The vertex data of a whole object.
pub open spec fn object_values<T>(positions: Seq<[T; 3]>, normals: Seq<[T; 3]>, zero: T, polys: Seq<Seq<IndexTuple>>) -> Seq<T> {
    polygons_values(positions, normals, zero, polys, polys.len() as int)
}

/// Each vertex takes six values.
pub proof fn lemma_corners_values_len<T>(positions: Seq<[T; 3]>, normals: Seq<[T; 3]>, zero: T, vs: Seq<IndexTuple>)
    ensures
        corners_values(positions, normals, zero, vs).len() == VALUES_PER_VERTEX * vs.len(),
    decreases vs.len(),
{
    if vs.len() > 0 {
        lemma_corners_values_len(positions, normals, zero, vs.drop_last());
    }
}

/// A fan of `m - 1` triangles has `3 * (m - 1)` corners.
pub proof fn lemma_fan_upto_len(poly: Seq<IndexTuple>, m: int)
    ensures
        m >= 1 ==> fan_upto(poly, m).len() == 3 * (m - 1),
    decreases m,
{
    if m > 1 {
        lemma_fan_upto_len(poly, m - 1);
    }
}

/// The vertex data of a corner is six values: the three of the position it
/// names, then the three of the normal it names, or `zero` three times where it
/// names none.
pub proof fn law_vertex_values<T>(positions: Seq<[T; 3]>, normals: Seq<[T; 3]>, zero: T, v: IndexTuple)
    requires
        valid_corner(positions, normals, v),
    ensures
        vertex_values(positions, normals, zero, v).len() == 6,
        vertex_values(positions, normals, zero, v).subrange(0, 3) == positions[v.position as int]@,
        v.normal matches Some(k) ==> vertex_values(positions, normals, zero, v).subrange(3, 6) == normals[k as int]@,
        v.normal is None ==> vertex_values(positions, normals, zero, v).subrange(3, 6) == seq![zero, zero, zero],
{
    let vv = vertex_values(positions, normals, zero, v);
    assert(vv.subrange(0, 3) =~= positions[v.position as int]@);
    match v.normal {
        Some(k) => {
            assert(vv.subrange(3, 6) =~= normals[k as int]@);
        },
        None => {
            assert(vv.subrange(3, 6) =~= seq![zero, zero, zero]);
        },
    }
}

/// The fan of a polygon of `n` corners is `n - 2` triangles, and triangle `i`
/// (counting from 1) is the polygon's corners 0, `i` and `i + 1`.
pub proof fn law_fan_triangles(poly: Seq<IndexTuple>, i: int)
    requires
        poly.len() >= 2,
        1 <= i < poly.len() - 1,
    ensures
        fan(poly).len() == 3 * (poly.len() - 2),
        fan(poly).subrange(3 * (i - 1), 3 * i) == seq![poly[0], poly[i], poly[i + 1]],
{
    lemma_fan_upto_triangle(poly, poly.len() - 1, i);
}

/// Triangle `i` of the first `m - 1` triangles of a fan is corners 0, `i` and `i + 1`.
proof fn lemma_fan_upto_triangle(poly: Seq<IndexTuple>, m: int, i: int)
    requires
        1 <= i < m,
    ensures
        fan_upto(poly, m).len() == 3 * (m - 1),
        fan_upto(poly, m).subrange(3 * (i - 1), 3 * i) == seq![poly[0], poly[i], poly[i + 1]],
    decreases m,
{
    lemma_fan_upto_len(poly, m);
    let prev = fan_upto(poly, m - 1);
    let tri = seq![poly[0], poly[m - 1], poly[m]];
    lemma_fan_upto_len(poly, m - 1);
    if i < m - 1 {
        lemma_fan_upto_triangle(poly, m - 1, i);
        assert(fan_upto(poly, m).subrange(3 * (i - 1), 3 * i) =~= prev.subrange(3 * (i - 1), 3 * i));
    } else {
        assert(fan_upto(poly, m).subrange(3 * (i - 1), 3 * i) =~= tri);
    }
}

/// The vertex data of a concatenation is the concatenation of the vertex data.
proof fn lemma_corners_values_append<T>(
    positions: Seq<[T; 3]>,
    normals: Seq<[T; 3]>,
    zero: T,
    a: Seq<IndexTuple>,
    b: Seq<IndexTuple>,
)
    ensures
        corners_values(positions, normals, zero, a + b) == corners_values(positions, normals, zero, a)
            + corners_values(positions, normals, zero, b),
    decreases b.len(),
{
    if b.len() == 0 {
        assert(a + b =~= a);
    } else {
        lemma_corners_values_append(positions, normals, zero, a, b.drop_last());
        assert((a + b).drop_last() =~= a + b.drop_last());
    }
}

/// One more triangle of a fan adds its vertex data, eighteen values.
proof fn lemma_fan_step<T>(positions: Seq<[T; 3]>, normals: Seq<[T; 3]>, zero: T, poly: Seq<IndexTuple>, i: int)
    requires
        valid_polygon(positions, normals, poly),
        1 <= i < poly.len() - 1,
    ensures
        corners_values(positions, normals, zero, fan_upto(poly, i + 1)) == corners_values(
            positions,
            normals,
            zero,
            fan_upto(poly, i),
        ) + triangle_values(positions, normals, zero, poly, i),
        triangle_values(positions, normals, zero, poly, i).len() == 18,
{
    let tri = seq![poly[0], poly[i], poly[i + 1]];
    assert(fan_upto(poly, i + 1) == fan_upto(poly, i) + tri);
    lemma_corners_values_append(positions, normals, zero, fan_upto(poly, i), tri);
    let t1 = seq![poly[0]];
    let t2 = seq![poly[0], poly[i]];
    assert(t1.drop_last() =~= Seq::<IndexTuple>::empty());
    assert(t2.drop_last() =~= t1);
    assert(tri.drop_last() =~= t2);
    assert(corners_values(positions, normals, zero, Seq::<IndexTuple>::empty()) =~= Seq::<T>::empty());
    assert(corners_values(positions, normals, zero, t1) =~= vertex_values(positions, normals, zero, poly[0]));
    assert(corners_values(positions, normals, zero, t2) =~= vertex_values(positions, normals, zero, poly[0])
        + vertex_values(positions, normals, zero, poly[i]));
    assert(corners_values(positions, normals, zero, tri) =~= triangle_values(positions, normals, zero, poly, i));
    lemma_corners_values_len(positions, normals, zero, tri);
}

/// Appending the vertex data of triangle `i` after those of triangles 1 to
/// `i - 1` lists triangles 1 to `i`, each in its eighteen values.
proof fn lemma_triangle_listed<T>(
    positions: Seq<[T; 3]>,
    normals: Seq<[T; 3]>,
    zero: T,
    poly: Seq<IndexTuple>,
    start: Seq<T>,
    before: Seq<T>,
    after: Seq<T>,
    i: int,
)
    requires
        1 <= i,
        before.len() == start.len() + 18 * (i - 1),
        before.subrange(0, start.len() as int) == start,
        forall|j: int|
            1 <= j < i ==> before.subrange(start.len() + 18 * (j - 1), start.len() + 18 * j)
                == #[trigger] triangle_values(positions, normals, zero, poly, j),
        triangle_values(positions, normals, zero, poly, i).len() == 18,
        after == before + triangle_values(positions, normals, zero, poly, i),
    ensures
        after.len() == start.len() + 18 * i,
        after.subrange(0, start.len() as int) == start,
        forall|j: int|
            1 <= j < i + 1 ==> after.subrange(start.len() + 18 * (j - 1), start.len() + 18 * j)
                == #[trigger] triangle_values(positions, normals, zero, poly, j),
{
    let n = start.len() as int;
    assert(after.subrange(0, n) =~= before.subrange(0, n));
    assert forall|j: int| 1 <= j < i + 1 implies after.subrange(n + 18 * (j - 1), n + 18 * j)
        == #[trigger] triangle_values(positions, normals, zero, poly, j) by {
        if j < i {
            assert(after.subrange(n + 18 * (j - 1), n + 18 * j) =~= before.subrange(n + 18 * (j - 1), n + 18 * j));
        } else {
            assert(after.subrange(n + 18 * (j - 1), n + 18 * j) =~= triangle_values(positions, normals, zero, poly, i));
        }
    }
}

/// Appends the vertex data of corner `v` to `points`.
pub fn append_vertex<T: Copy>(
    positions: &Vec<[T; 3]>,
    normals: &Vec<[T; 3]>,
    v: IndexTuple,
    zero: T,
    points: &mut Vec<T>,
)
    requires
        valid_corner(positions@, normals@, v),
    ensures
        final(points)@ == old(points)@ + vertex_values(positions@, normals@, zero, v),
        final(points)@.len() == old(points)@.len() as int + 6,
        final(points)@.subrange(0, old(points)@.len() as int) == old(points)@,
        final(points)@.subrange(old(points)@.len() as int, old(points)@.len() as int + 3) == positions@[v.position as int]@,
        v.normal matches Some(k) ==> final(points)@.subrange(old(points)@.len() as int + 3, old(points)@.len() as int + 6)
            == normals@[k as int]@,
        v.normal is None ==> final(points)@.subrange(old(points)@.len() as int + 3, old(points)@.len() as int + 6) == seq![
            zero,
            zero,
            zero,
        ],
{
    let p = positions[v.position];
    points.push(p[0]);
    points.push(p[1]);
    points.push(p[2]);
    match v.normal {
        Some(k) => {
            let n = normals[k];
            points.push(n[0]);
            points.push(n[1]);
            points.push(n[2]);
        },
        None => {
            points.push(zero);
            points.push(zero);
            points.push(zero);
        },
    }
    assert(final(points)@ =~= old(points)@ + vertex_values(positions@, normals@, zero, v));
    let ghost n: int = old(points)@.len() as int;
    assert(final(points)@.subrange(0, n) =~= old(points)@);
    assert(final(points)@.subrange(n, n + 3) =~= positions@[v.position as int]@);
    assert(final(points)@.subrange(n + 3, n + 6) =~= vertex_values(positions@, normals@, zero, v).subrange(3, 6));
    proof {
        law_vertex_values(positions@, normals@, zero, v);
    }
}

/// The vertex data of triangle `i` of the fan of `poly`: that of its corners
/// 0, `i` and `i + 1`.
pub open spec fn triangle_values<T>(
    positions: Seq<[T; 3]>,
    normals: Seq<[T; 3]>,
    zero: T,
    poly: Seq<IndexTuple>,
    i: int,
) -> Seq<T> {
    vertex_values(positions, normals, zero, poly[0]) + vertex_values(positions, normals, zero, poly[i])
        + vertex_values(positions, normals, zero, poly[i + 1])
}

/// Appends the vertex data of the triangles of `poly`, fanned around its first
/// corner, to `points`.
pub fn append_triangles<T: Copy>(
    positions: &Vec<[T; 3]>,
    normals: &Vec<[T; 3]>,
    poly: &Vec<IndexTuple>,
    zero: T,
    points: &mut Vec<T>,
)
    requires
        valid_polygon(positions@, normals@, poly@),
    ensures
        final(points)@ == old(points)@ + corners_values(positions@, normals@, zero, fan(poly@)),
        final(points)@.len() == old(points)@.len() + 18 * (poly.len() - 2),
        final(points)@.subrange(0, old(points)@.len() as int) == old(points)@,
        forall|i: int|
            1 <= i < poly.len() - 1 ==> final(points)@.subrange(
                old(points)@.len() + 18 * (i - 1),
                old(points)@.len() + 18 * i,
            ) == #[trigger] triangle_values(positions@, normals@, zero, poly@, i),
{
    let ghost n: int = old(points)@.len() as int;
    let mut i: usize = 1;
    while i < poly.len() - 1
        invariant
            1 <= i <= poly.len() - 1,
            valid_polygon(positions@, normals@, poly@),
            points@ == old(points)@ + corners_values(positions@, normals@, zero, fan_upto(poly@, i as int)),
            n == old(points)@.len(),
            points@.len() == n + 18 * (i - 1),
            points@.subrange(0, n) == old(points)@,
            forall|j: int|
                1 <= j < i ==> points@.subrange(n + 18 * (j - 1), n + 18 * j) == #[trigger] triangle_values(
                    positions@,
                    normals@,
                    zero,
                    poly@,
                    j,
                ),
        decreases poly.len() - i,
    {
        let ghost before = points@;
        append_vertex(positions, normals, poly[0], zero, points);
        append_vertex(positions, normals, poly[i], zero, points);
        append_vertex(positions, normals, poly[i + 1], zero, points);
        proof {
            lemma_fan_step(positions@, normals@, zero, poly@, i as int);
            let tv = triangle_values(positions@, normals@, zero, poly@, i as int);
            assert(points@ =~= before + tv);
            assert(points@ =~= old(points)@ + corners_values(positions@, normals@, zero, fan_upto(poly@, i + 1)));
            lemma_triangle_listed(positions@, normals@, zero, poly@, old(points)@, before, points@, i as int);
        }
        i = i + 1;
    }
}

/// Where the data of one object lies in the vertex data: from `start` up to
/// but not including `end`.
#[derive(Copy, Clone, PartialEq, Eq, Structural, Debug)]
pub struct ObjectRange {
    pub start: usize,
    pub end: usize,
}

/// The objects' ranges lie one after the other from 0 to `len`, and range `i`
/// holds the vertex data of object `i`.
pub open spec fn lays_out<T>(
    positions: Seq<[T; 3]>,
    normals: Seq<[T; 3]>,
    zero: T,
    objects: Seq<Seq<Seq<IndexTuple>>>,
    points: Seq<T>,
    ranges: Seq<ObjectRange>,
) -> bool {
    &&& ranges.len() == objects.len()
    &&& forall|i: int| 0 <= i < ranges.len() ==> (#[trigger] ranges[i]).start <= ranges[i].end <= points.len()
    &&& ranges.len() > 0 ==> ranges[0].start == 0 && ranges[ranges.len() - 1].end == points.len()
    &&& ranges.len() == 0 ==> points.len() == 0
    &&& forall|i: int| 0 <= i < ranges.len() - 1 ==> (#[trigger] ranges[i]).end == ranges[i + 1].start
    &&& forall|i: int| 0 <= i < ranges.len() ==> points.subrange((#[trigger] ranges[i]).start as int, ranges[i].end as int)
        == object_values(positions, normals, zero, objects[i])
}

/// Every polygon of every object is valid.
pub open spec fn valid_objects<T>(positions: Seq<[T; 3]>, normals: Seq<[T; 3]>, objects: Seq<Seq<Seq<IndexTuple>>>) -> bool {
    forall|i: int, j: int|
        0 <= i < objects.len() && 0 <= j < objects[i].len() ==> valid_polygon(positions, normals, #[trigger] objects[i][j])
}

/// The vertex data of all objects, one after the other, with the range that
/// each object's data takes.
pub fn generate_vertex_data<T: Copy>(
    positions: &Vec<[T; 3]>,
    normals: &Vec<[T; 3]>,
    objects: &Vec<Vec<Vec<IndexTuple>>>,
    zero: T,
) -> (r: (Vec<T>, Vec<ObjectRange>))
    requires
        valid_objects(positions@, normals@, objects@.map_values(|o: Vec<Vec<IndexTuple>>| o@.map_values(|p: Vec<IndexTuple>| p@))),
    ensures
        lays_out(
            positions@,
            normals@,
            zero,
            objects@.map_values(|o: Vec<Vec<IndexTuple>>| o@.map_values(|p: Vec<IndexTuple>| p@)),
            r.0@,
            r.1@,
        ),
        r.0.len() % VALUES_PER_VERTEX == 0,
{
    let ghost objs = objects@.map_values(|o: Vec<Vec<IndexTuple>>| o@.map_values(|p: Vec<IndexTuple>| p@));
    let mut points: Vec<T> = Vec::new();
    let mut ranges: Vec<ObjectRange> = Vec::new();
    let mut o: usize = 0;
    while o < objects.len()
        invariant
            o <= objects.len(),
            objs == objects@.map_values(|o: Vec<Vec<IndexTuple>>| o@.map_values(|p: Vec<IndexTuple>| p@)),
            valid_objects(positions@, normals@, objs),
            ranges.len() == o,
            points.len() % VALUES_PER_VERTEX == 0,
            lays_out(positions@, normals@, zero, objs.take(o as int), points@, ranges@),
        decreases objects.len() - o,
    {
        let obj = &objects[o];
        let start: usize = points.len();
        let ghost before = points@;
        let mut p: usize = 0;
        while p < obj.len()
            invariant
                p <= obj.len(),
                obj@ == objects@[o as int]@,
                objs == objects@.map_values(|o: Vec<Vec<IndexTuple>>| o@.map_values(|p: Vec<IndexTuple>| p@)),
                o < objects.len(),
                valid_objects(positions@, normals@, objs),
                start == before.len(),
                points.len() % VALUES_PER_VERTEX == 0,
                points@ == before + polygons_values(positions@, normals@, zero, objs[o as int], p as int),
            decreases obj.len() - p,
        {
            assert(objs[o as int][p as int] == obj[p as int]@);
            assert(valid_polygon(positions@, normals@, objs[o as int][p as int]));
            let ghost mid = points@;
            append_triangles(positions, normals, &obj[p], zero, &mut points);
            proof {
                lemma_corners_values_len(positions@, normals@, zero, fan(obj[p as int]@));
                lemma_fan_upto_len(obj[p as int]@, obj[p as int]@.len() - 1);
                assert(corners_values(positions@, normals@, zero, fan(obj[p as int]@)).len() % 6 == 0) by (nonlinear_arith)
                    requires
                        corners_values(positions@, normals@, zero, fan(obj[p as int]@)).len() == 6 * fan(obj[p as int]@).len(),
                ;
                assert(points@ =~= before + polygons_values(positions@, normals@, zero, objs[o as int], p + 1));
            }
            p = p + 1;
        }
        let end: usize = points.len();
        ranges.push(ObjectRange { start, end });
        proof {
            assert(objs[o as int].len() == obj.len());
            assert(points@.subrange(start as int, end as int) =~= object_values(positions@, normals@, zero, objs[o as int]));
            let t = objs.take(o + 1);
            assert forall|i: int| 0 <= i < ranges.len() implies points@.subrange((#[trigger] ranges@[i]).start as int, ranges@[i].end as int)
                == object_values(positions@, normals@, zero, t[i]) by {
                if i < o {
                    assert(points@.subrange(ranges@[i].start as int, ranges@[i].end as int)
                        =~= before.subrange(ranges@[i].start as int, ranges@[i].end as int));
                }
            }
            assert(lays_out(positions@, normals@, zero, t, points@, ranges@));
        }
        o = o + 1;
    }
    assert(objs.take(objects.len() as int) =~= objs);
    (points, ranges)
}

/// The polygons of a list of objects, as mathematical sequences.
pub open spec fn objects_view(objects: Seq<Vec<Vec<IndexTuple>>>) -> Seq<Seq<Seq<IndexTuple>>> {
    objects.map_values(|o: Vec<Vec<IndexTuple>>| o@.map_values(|p: Vec<IndexTuple>| p@))
}

/// The parsed contents of one OBJ file: its positions, its normals, and the
/// polygons of each of its objects, object by object.
pub struct MeshFile<T> {
    pub positions: Vec<[T; 3]>,
    pub normals: Vec<[T; 3]>,
    pub objects: Vec<Vec<Vec<IndexTuple>>>,
}

impl<T> MeshFile<T> {
    /// Every polygon of every object of the file is valid.
    pub open spec fn valid(&self) -> bool {
        valid_objects(self.positions@, self.normals@, objects_view(self.objects@))
    }

    /// The vertex data of each object of the file, object by object.
    pub open spec fn blocks(&self, zero: T) -> Seq<Seq<T>> {
        objects_view(self.objects@).map_values(
            |o: Seq<Seq<IndexTuple>>| object_values(self.positions@, self.normals@, zero, o),
        )
    }
}

/// The vertex data of each object of the first `k` files, file by file and,
/// within a file, object by object.
pub open spec fn files_blocks<T>(files: Seq<MeshFile<T>>, zero: T, k: int) -> Seq<Seq<T>>
    decreases k,
{
    if k <= 0 {
        Seq::empty()
    } else {
        files_blocks(files, zero, k - 1) + files[k - 1].blocks(zero)
    }
}

/// `points` is the concatenation of `blocks`, and range `i` is where block
/// `i` lies in it: the ranges follow one another from 0 to `points.len()`.
pub open spec fn lays_out_blocks<T>(blocks: Seq<Seq<T>>, points: Seq<T>, ranges: Seq<ObjectRange>) -> bool {
    &&& ranges.len() == blocks.len()
    &&& forall|i: int| 0 <= i < ranges.len() ==> (#[trigger] ranges[i]).start <= ranges[i].end <= points.len()
    &&& ranges.len() > 0 ==> ranges[0].start == 0 && ranges[ranges.len() - 1].end == points.len()
    &&& ranges.len() == 0 ==> points.len() == 0
    &&& forall|i: int| 0 <= i < ranges.len() - 1 ==> (#[trigger] ranges[i]).end == ranges[i + 1].start
    &&& forall|i: int| 0 <= i < ranges.len() ==> points.subrange((#[trigger] ranges[i]).start as int, ranges[i].end as int)
        == blocks[i]
}

/// In a layout, a range ends no later than any range after it ends.
proof fn lemma_ranges_ordered<T>(blocks: Seq<Seq<T>>, points: Seq<T>, ranges: Seq<ObjectRange>, i: int, j: int)
    requires
        lays_out_blocks(blocks, points, ranges),
        0 <= i <= j < ranges.len(),
    ensures
        ranges[i].end <= ranges[j].end,
    decreases j - i,
{
    if i < j {
        lemma_ranges_ordered(blocks, points, ranges, i, j - 1);
        assert(ranges[j - 1].end == ranges[j].start);
        assert(ranges[j].start <= ranges[j].end);
    }
}

/// A laid-out buffer is the concatenation of its blocks, in order.
pub proof fn law_layout_is_concatenation<T>(blocks: Seq<Seq<T>>, points: Seq<T>, ranges: Seq<ObjectRange>)
    requires
        lays_out_blocks(blocks, points, ranges),
    ensures
        points == blocks.flatten(),
    decreases ranges.len(),
{
    if ranges.len() == 0 {
        assert(points =~= Seq::<T>::empty());
    } else {
        let n = ranges.len() - 1;
        let cut = ranges[n].start as int;
        assert(ranges[n].start <= ranges[n].end <= points.len());
        let p2 = points.subrange(0, cut);
        let b2 = blocks.drop_last();
        let r2 = ranges.drop_last();
        assert forall|i: int| 0 <= i < r2.len() implies (#[trigger] r2[i]).start <= r2[i].end <= p2.len() by {
            assert(r2[i] == ranges[i]);
            assert(ranges[i].start <= ranges[i].end);
            lemma_ranges_ordered(blocks, points, ranges, i, n - 1);
            assert(ranges[n - 1].end == ranges[n].start);
        }
        assert forall|i: int| 0 <= i < r2.len() - 1 implies (#[trigger] r2[i]).end == r2[i + 1].start by {
            assert(ranges[i].end == ranges[i + 1].start);
        }
        assert forall|i: int| 0 <= i < r2.len() implies p2.subrange((#[trigger] r2[i]).start as int, r2[i].end as int)
            == b2[i] by {
            assert(r2[i] == ranges[i]);
            assert(r2[i].start <= r2[i].end <= p2.len());
            assert(p2.subrange(r2[i].start as int, r2[i].end as int) =~= points.subrange(
                ranges[i].start as int,
                ranges[i].end as int,
            ));
            assert(points.subrange(ranges[i].start as int, ranges[i].end as int) == blocks[i]);
        }
        if r2.len() > 0 {
            assert(ranges[n - 1].end == ranges[n].start);
        } else {
            assert(ranges[0].start == 0);
        }
        assert(lays_out_blocks(b2, p2, r2));
        law_layout_is_concatenation(b2, p2, r2);
        assert(points.subrange(ranges[n].start as int, ranges[n].end as int) == blocks[n]);
        assert(points =~= p2 + blocks[n]);
        assert(blocks =~= b2.push(blocks[n]));
        b2.lemma_flatten_push(blocks[n]);
    }
}

/// The ranges of `r` moved up by `base`.
pub open spec fn shifted(r: Seq<ObjectRange>, base: int) -> Seq<ObjectRange> {
    r.map_values(|x: ObjectRange| ObjectRange { start: (x.start + base) as usize, end: (x.end + base) as usize })
}

/// Two layouts one after the other make the layout of both.
proof fn lemma_lays_out_concat<T>(
    b1: Seq<Seq<T>>,
    p1: Seq<T>,
    r1: Seq<ObjectRange>,
    b2: Seq<Seq<T>>,
    p2: Seq<T>,
    r2: Seq<ObjectRange>,
)
    requires
        lays_out_blocks(b1, p1, r1),
        lays_out_blocks(b2, p2, r2),
        p1.len() + p2.len() <= usize::MAX,
    ensures
        lays_out_blocks(b1 + b2, p1 + p2, r1 + shifted(r2, p1.len() as int)),
{
    let b = b1 + b2;
    let p = p1 + p2;
    let s = shifted(r2, p1.len() as int);
    let r = r1 + s;
    assert forall|i: int| 0 <= i < s.len() implies (#[trigger] s[i]).start == r2[i].start + p1.len() && s[i].end
        == r2[i].end + p1.len() by {}
    assert forall|i: int| 0 <= i < r.len() implies (#[trigger] r[i]).start <= r[i].end <= p.len() by {
        if i >= r1.len() {
            assert(r[i] == s[i - r1.len()]);
            assert(r2[i - r1.len()].start <= r2[i - r1.len()].end);
        } else {
            assert(r1[i].start <= r1[i].end);
        }
    }
    assert forall|i: int| 0 <= i < r.len() - 1 implies (#[trigger] r[i]).end == r[i + 1].start by {
        if i + 1 < r1.len() {
            assert(r1[i].end == r1[i + 1].start);
        } else if i + 1 == r1.len() {
            assert(r2.len() > 0);
            assert(r[i + 1] == s[0]);
        } else {
            assert(r[i] == s[i - r1.len()]);
            assert(r[i + 1] == s[i + 1 - r1.len()]);
            assert(r2[i - r1.len()].end == r2[i - r1.len() + 1].start);
        }
    }
    assert forall|i: int| 0 <= i < r.len() implies p.subrange((#[trigger] r[i]).start as int, r[i].end as int) == b[i] by {
        if i < r1.len() {
            assert(r1[i].start <= r1[i].end <= p1.len());
            assert(p.subrange(r[i].start as int, r[i].end as int) =~= p1.subrange(r1[i].start as int, r1[i].end as int));
        } else {
            let j = i - r1.len();
            assert(r[i] == s[j]);
            assert(r2[j].start <= r2[j].end <= p2.len());
            assert(p.subrange(r[i].start as int, r[i].end as int) =~= p2.subrange(r2[j].start as int, r2[j].end as int));
        }
    }
    if r.len() > 0 {
        if r1.len() == 0 {
            assert(p1.len() == 0);
            assert(r[0] == s[0]);
        }
        if r2.len() == 0 {
            assert(p2.len() == 0);
            assert(r[r.len() - 1] == r1[r1.len() - 1]);
        } else {
            assert(r[r.len() - 1] == s[r2.len() - 1]);
        }
    }
}

/// One file's layout, read as a layout of blocks.
proof fn lemma_file_blocks<T>(file: MeshFile<T>, zero: T, points: Seq<T>, ranges: Seq<ObjectRange>)
    requires
        lays_out(file.positions@, file.normals@, zero, objects_view(file.objects@), points, ranges),
    ensures
        lays_out_blocks(file.blocks(zero), points, ranges),
{
    let b = file.blocks(zero);
    assert forall|i: int| 0 <= i < ranges.len() implies points.subrange((#[trigger] ranges[i]).start as int, ranges[i].end as int)
        == b[i] by {}
}

/// The vertex data of the objects of every file, file by file and object by
/// object, all in one buffer, with the range that each object's data takes:
/// the ranges follow one another from 0 to the end of the buffer.
pub fn generate_output<T: Copy>(files: &Vec<MeshFile<T>>, zero: T) -> (r: (Vec<T>, Vec<ObjectRange>))
    requires
        forall|i: int| 0 <= i < files.len() ==> (#[trigger] files[i]).valid(),
    ensures
        r.0@ == files_blocks(files@, zero, files.len() as int).flatten(),
        lays_out_blocks(files_blocks(files@, zero, files.len() as int), r.0@, r.1@),
        r.0.len() % VALUES_PER_VERTEX == 0,
{
    let mut points: Vec<T> = Vec::new();
    let mut ranges: Vec<ObjectRange> = Vec::new();
    let mut f: usize = 0;
    while f < files.len()
        invariant
            f <= files.len(),
            forall|i: int| 0 <= i < files.len() ==> (#[trigger] files[i]).valid(),
            points.len() % VALUES_PER_VERTEX == 0,
            lays_out_blocks(files_blocks(files@, zero, f as int), points@, ranges@),
        decreases files.len() - f,
    {
        let file = &files[f];
        assert(file.valid());
        let (mut block, file_ranges) = generate_vertex_data(&file.positions, &file.normals, &file.objects, zero);
        proof {
            lemma_file_blocks(*file, zero, block@, file_ranges@);
        }
        let ghost p1 = points@;
        let ghost r1 = ranges@;
        let base: usize = points.len();
        let ghost blen = block.len();
        let ghost bv = block@;
        points.append(&mut block);
        assert(points@ == p1 + bv);
        let total: usize = points.len();
        let mut j: usize = 0;
        while j < file_ranges.len()
            invariant
                j <= file_ranges.len(),
                base == p1.len(),
                total == p1.len() + blen,
                bv.len() == blen,
                lays_out_blocks(files[f as int].blocks(zero), bv, file_ranges@),
                ranges@ == r1 + shifted(file_ranges@.take(j as int), base as int),
            decreases file_ranges.len() - j,
        {
            let x = file_ranges[j];
            assert(file_ranges@[j as int] == x);
            assert(x.start <= x.end <= blen);
            ranges.push(ObjectRange { start: base + x.start, end: base + x.end });
            assert(ranges@ =~= r1 + shifted(file_ranges@.take(j + 1), base as int));
            j = j + 1;
        }
        proof {
            assert(file_ranges@.take(file_ranges.len() as int) =~= file_ranges@);
            lemma_lays_out_concat(files_blocks(files@, zero, f as int), p1, r1, files[f as int].blocks(zero), bv, file_ranges@);
            assert(files_blocks(files@, zero, f + 1) == files_blocks(files@, zero, f as int) + files[f as int].blocks(zero));
            assert(points.len() % 6 == 0) by (nonlinear_arith)
                requires
                    points.len() == p1.len() + blen,
                    p1.len() % 6 == 0,
                    blen % 6 == 0,
            ;
        }
        f = f + 1;
    }
    proof {
        law_layout_is_concatenation(files_blocks(files@, zero, files.len() as int), points@, ranges@);
    }
    (points, ranges)
}

} // verus!
