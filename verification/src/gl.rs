//! Bookkeeping for GPU objects: the ids they are given and which one is
//! bound at each binding point.
use vstd::prelude::*;

verus! {

/// Something that can be bound to its binding point and unbound again.
pub trait Bindable {
    fn bind(&mut self);
    fn unbind(&mut self);
}

/// Hands out the ids of GPU objects: 1, 2, 3, ... so that no object gets 0,
/// the id that stands for "nothing bound".
pub struct ObjectIds {
    next: u32,
}

impl ObjectIds {
    /// No id handed out is 0.
    #[verifier::type_invariant]
    spec fn never_zero(&self) -> bool {
        self.next >= 1
    }

    /// The id that the next call of `next_object_id` hands out.
    pub closed spec fn upcoming(&self) -> u32 {
        self.next
    }

    /// Ids start at 1.
    pub fn new() -> (ids: Self)
        ensures
            ids.upcoming() == 1,
    {
        ObjectIds { next: 1 }
    }

    /// Hands out a fresh id: larger than every id handed out before.
    pub fn next_object_id(&mut self) -> (id: u32)
        requires
            old(self).upcoming() < u32::MAX,
        ensures
            id >= 1,
            id == old(self).upcoming(),
            final(self).upcoming() == id + 1,
    {
        proof {
            use_type_invariant(&*self);
        }
        let id: u32 = self.next;
        self.next = id + 1;
        id
    }

    /// Whether another id can be handed out.
    pub fn can_hand_out(&self) -> (r: bool)
        ensures
            r == (self.upcoming() < u32::MAX),
            self.upcoming() >= 1,
    {
        proof {
            use_type_invariant(self);
        }
        self.next < u32::MAX
    }
}

/// Remembers which object is bound at one binding point, by id; 0 stands for
/// "nothing bound". Binding a bound object, or unbinding one that is not
/// bound, is a mistake that the callers rule out.
pub struct BindingTracker {
    bound_id: u32,
}

impl BindingTracker {
    /// The id of the object bound at the moment (0: none).
    pub closed spec fn bound(&self) -> u32 {
        self.bound_id
    }

    /// Nothing is bound at first.
    pub fn new() -> (t: Self)
        ensures
            t.bound() == 0,
    {
        BindingTracker { bound_id: 0 }
    }

    /// The id of the object bound at the moment (0: none).
    pub fn bound_id(&self) -> (r: u32)
        ensures
            r == self.bound(),
    {
        self.bound_id
    }

    /// Checks that object `id` is bound.
    pub fn assert_bound(&self, id: u32)
        requires
            self.bound() == id,
    {
    }

    /// Checks that object `id` is bound, and records that it no longer is.
    pub fn assert_bound_then_unbind(&mut self, id: u32)
        requires
            old(self).bound() == id,
        ensures
            final(self).bound() == 0,
    {
        self.bound_id = 0;
    }

    /// Checks that object `id` is not bound.
    pub fn assert_unbound(&self, id: u32)
        requires
            self.bound() != id,
    {
    }

    /// Checks that object `id` is not bound, and records that it now is.
    pub fn assert_unbound_then_bind(&mut self, id: u32)
        requires
            old(self).bound() != id,
        ensures
            final(self).bound() == id,
    {
        self.bound_id = id;
    }
}

/// The two kinds of shader a program is linked from.
#[derive(Copy, Clone, PartialEq, Eq, Structural, Debug)]
pub enum ShaderType {
    Vertex,
    Fragment,
}

/// The number of uniform buffer binding points that a context offers.
pub const MAX_UNIFORM_BINDINGS: u32 = 48;

/// A uniform buffer binding point.
#[derive(Copy, Clone, PartialEq, Eq, Structural, Debug)]
pub struct UniformBinding(pub u32);

impl UniformBinding {
    /// The binding point numbered `index`; there are 48 of them.
    pub fn new(index: u32) -> (b: Self)
        requires
            index < MAX_UNIFORM_BINDINGS,
        ensures
            b.0 == index,
    {
        UniformBinding(index)
    }
}

/// The index of a uniform block in a linked program.
#[derive(Copy, Clone, PartialEq, Eq, Structural, Debug)]
pub struct UniformIndex(pub u32);

/// A vertex attribute: its first location and how many consecutive locations
/// it takes (1 for a vector, 4 for a 4x4 matrix, one column per location).
#[derive(Copy, Clone, PartialEq, Eq, Structural, Debug)]
pub struct Attribute(pub u32, pub usize);

/// How one attribute location reads floats from the bound buffer: `size`
/// floats per vertex, `stride` bytes between vertices, starting `offset` bytes
/// in.
#[derive(Copy, Clone, PartialEq, Eq, Structural, Debug)]
pub struct AttribPointer {
    pub index: u32,
    pub size: i32,
    pub stride: i32,
    pub offset: i32,
}

/// The size of a float in a buffer, in bytes.
pub const FLOAT_BYTES: i32 = 4;

/// The most locations whose byte offsets, 16 bytes apart, fit in `i32`.
pub const MAX_MAT4_SLOTS: usize = 0x0800_0000;

/// The locations an attribute takes fit in `u32`.
pub open spec fn locations_fit(a: Attribute) -> bool {
    a.0 + a.1 <= u32::MAX + 1
}

impl Attribute {
    /// The locations the attribute takes, in order: the ones enabled, disabled
    /// or given a divisor together.
    pub fn locations(&self) -> (r: Vec<u32>)
        requires
            locations_fit(*self),
        ensures
            r.len() == self.1,
            forall|i: int| 0 <= i < r.len() ==> r[i] == self.0 + i,
    {
        let mut out: Vec<u32> = Vec::new();
        let mut i: usize = 0;
        while i < self.1
            invariant
                i <= self.1,
                locations_fit(*self),
                out.len() == i,
                forall|j: int| 0 <= j < i ==> out[j] == self.0 + j,
            decreases self.1 - i,
        {
            out.push(self.0 + i as u32);
            i = i + 1;
        }
        out
    }

    /// How a 4x4 matrix per vertex is read: location `k` of the attribute reads
    /// column `k`, four floats, at a stride of one whole matrix.
    pub fn mat4_pointers(&self) -> (r: Vec<AttribPointer>)
        requires
            locations_fit(*self),
            self.1 <= MAX_MAT4_SLOTS,
        ensures
            r.len() == self.1,
            forall|i: int|
                0 <= i < r.len() ==> #[trigger] r[i] == (AttribPointer {
                    index: (self.0 + i) as u32,
                    size: 4,
                    stride: 64i32,
                    offset: (i * 4 * FLOAT_BYTES) as i32,
                }),
    {
        let mut out: Vec<AttribPointer> = Vec::new();
        let mut i: usize = 0;
        while i < self.1
            invariant
                i <= self.1,
                self.1 <= MAX_MAT4_SLOTS,
                locations_fit(*self),
                out.len() == i,
                forall|j: int|
                    0 <= j < i ==> #[trigger] out[j] == (AttribPointer {
                        index: (self.0 + j) as u32,
                        size: 4,
                        stride: 64i32,
                        offset: (j * 4 * FLOAT_BYTES) as i32,
                    }),
            decreases self.1 - i,
        {
            out.push(AttribPointer {
                index: self.0 + i as u32,
                size: 4,
                stride: 16 * FLOAT_BYTES,
                offset: i as i32 * 4 * FLOAT_BYTES,
            });
            i = i + 1;
        }
        out
    }

    /// How a 3-vector per vertex is read from interleaved data: `stride` and
    /// `offset` count floats.
    pub fn vec3_pointer(&self, stride: usize, offset: usize) -> (p: AttribPointer)
        requires
            stride * 4 <= i32::MAX,
            offset * 4 <= i32::MAX,
        ensures
            p == (AttribPointer {
                index: self.0,
                size: 3,
                stride: (stride * 4) as i32,
                offset: (offset * 4) as i32,
            }),
    {
        AttribPointer { index: self.0, size: 3, stride: stride as i32 * FLOAT_BYTES, offset: offset as i32 * FLOAT_BYTES }
    }
}

} // verus!
