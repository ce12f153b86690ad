//! Views of one kind of component in a world, and joins of several.
use vstd::prelude::*;

use crate::ecs::containers::lists_contents;
use crate::ecs::world::{as_ref_option, with_component, World, WorldModel};
use crate::ecs::{enumerates, entity_ids, ComponentId, Entity};

verus! {

/// A cursor over the components of a view, one after the other.
pub struct ComponentIter<'a, C> {
    items: Vec<&'a C>,
    pos: usize,
}

impl<'a, C> ComponentIter<'a, C> {
    /// What is still to come, in order.
    pub closed spec fn remaining(&self) -> Seq<&'a C> {
        self.items@.skip(self.pos as int)
    }

    pub closed spec fn wf(&self) -> bool {
        self.pos <= self.items.len()
    }

    /// A cursor at the start of `items`.
    pub fn wrap(items: Vec<&'a C>) -> (it: Self)
        ensures
            it.wf(),
            it.remaining() == items@,
    {
        let it = ComponentIter { items, pos: 0 };
        assert(it.remaining() =~= it.items@);
        it
    }

    /// The next component, or `None` at the end.
    pub fn next(&mut self) -> (r: Option<&'a C>)
        requires
            old(self).wf(),
        ensures
            final(self).wf(),
            old(self).remaining().len() == 0 ==> r is None && final(self).remaining() == old(self).remaining(),
            old(self).remaining().len() > 0 ==> r == Some(old(self).remaining()[0])
                && final(self).remaining() == old(self).remaining().drop_first(),
    {
        if self.pos < self.items.len() {
            let c = self.items[self.pos];
            self.pos = self.pos + 1;
            assert(self.remaining() =~= old(self).remaining().drop_first());
            Some(c)
        } else {
            None
        }
    }
}

/// A cursor over the entities of a view with their components.
pub struct EntityComponentIter<'a, C> {
    items: Vec<(Entity, &'a C)>,
    pos: usize,
}

impl<'a, C> EntityComponentIter<'a, C> {
    /// What is still to come, in order.
    pub closed spec fn remaining(&self) -> Seq<(Entity, &'a C)> {
        self.items@.skip(self.pos as int)
    }

    pub closed spec fn wf(&self) -> bool {
        self.pos <= self.items.len()
    }

    /// A cursor at the start of `items`.
    pub fn wrap(items: Vec<(Entity, &'a C)>) -> (it: Self)
        ensures
            it.wf(),
            it.remaining() == items@,
    {
        let it = EntityComponentIter { items, pos: 0 };
        assert(it.remaining() =~= it.items@);
        it
    }

    /// The next entity with its component, or `None` at the end.
    pub fn next(&mut self) -> (r: Option<(Entity, &'a C)>)
        requires
            old(self).wf(),
        ensures
            final(self).wf(),
            old(self).remaining().len() == 0 ==> r is None && final(self).remaining() == old(self).remaining(),
            old(self).remaining().len() > 0 ==> r == Some(old(self).remaining()[0])
                && final(self).remaining() == old(self).remaining().drop_first(),
    {
        if self.pos < self.items.len() {
            let c = self.items[self.pos];
            self.pos = self.pos + 1;
            assert(self.remaining() =~= old(self).remaining().drop_first());
            Some(c)
        } else {
            None
        }
    }
}

/// A cursor over the entities that carried a component of one kind when it
/// was made, by increasing entity, that hands out each component to change
/// in place in the world given to `next`.
pub struct ComponentIterMut {
    id: ComponentId,
    entities: Vec<Entity>,
    pos: usize,
}

impl ComponentIterMut {
    /// The kind of component handed out.
    pub closed spec fn id(&self) -> ComponentId {
        self.id
    }

    /// The entities still to come, in order.
    pub closed spec fn remaining(&self) -> Seq<Entity> {
        self.entities@.skip(self.pos as int)
    }

    pub closed spec fn wf(&self) -> bool {
        self.pos <= self.entities.len()
    }

    /// The component of kind `id()` of the next entity, to change in place;
    /// `None` at the end, and then nothing changes.
    pub fn next<'w, V>(&mut self, world: &'w mut World<V>) -> (r: Option<&'w mut V>)
        requires
            old(self).wf(),
            old(world).wf(),
            old(self).remaining().len() > 0 ==> old(world)@.readable(old(self).id(), old(self).remaining()[0]),
        ensures
            final(self).wf(),
            final(self).id() == old(self).id(),
            final(world).wf(),
            old(self).remaining().len() == 0 ==> r is None && final(self).remaining() == old(self).remaining()
                && final(world)@ == old(world)@,
            old(self).remaining().len() > 0 ==> {
                let e = old(self).remaining()[0];
                let id = old(self).id();
                &&& final(self).remaining() == old(self).remaining().drop_first()
                &&& final(world)@.entities == old(world)@.entities
                &&& old(world)@.component(id, e) is Some ==> {
                    &&& r.is_some()
                    &&& *r.unwrap() == old(world)@.component(id, e)->Some_0
                    &&& final(world)@.components == with_component(old(world)@, id, e, *final(r.unwrap()))
                }
                &&& old(world)@.component(id, e) is None ==> r.is_none() && final(world)@.components
                    == old(world)@.components
            },
    {
        if self.pos < self.entities.len() {
            let e = self.entities[self.pos];
            self.pos = self.pos + 1;
            assert(self.remaining() =~= old(self).remaining().drop_first());
            world.get_component_mut(self.id, e)
        } else {
            None
        }
    }
}

/// A cursor over the entities that carried a component of one kind when it
/// was made, by increasing entity, that hands out each entity with its
/// component to change in place in the world given to `next`.
pub struct EntityComponentIterMut {
    inner: ComponentIterMut,
}

impl EntityComponentIterMut {
    /// The kind of component handed out.
    pub closed spec fn id(&self) -> ComponentId {
        self.inner.id()
    }

    /// The entities still to come, in order.
    pub closed spec fn remaining(&self) -> Seq<Entity> {
        self.inner.remaining()
    }

    pub closed spec fn wf(&self) -> bool {
        self.inner.wf()
    }

    /// The next entity with its component of kind `id()`, to change in place;
    /// `None` at the end, and then nothing changes.
    pub fn next<'w, V>(&mut self, world: &'w mut World<V>) -> (r: Option<(Entity, &'w mut V)>)
        requires
            old(self).wf(),
            old(world).wf(),
            old(self).remaining().len() > 0 ==> old(world)@.readable(old(self).id(), old(self).remaining()[0]),
        ensures
            final(self).wf(),
            final(self).id() == old(self).id(),
            final(world).wf(),
            old(self).remaining().len() == 0 ==> r is None && final(self).remaining() == old(self).remaining()
                && final(world)@ == old(world)@,
            old(self).remaining().len() > 0 ==> {
                let e = old(self).remaining()[0];
                let id = old(self).id();
                &&& final(self).remaining() == old(self).remaining().drop_first()
                &&& final(world)@.entities == old(world)@.entities
                &&& old(world)@.component(id, e) is Some ==> {
                    &&& r.is_some()
                    &&& r.unwrap().0 == e
                    &&& *r.unwrap().1 == old(world)@.component(id, e)->Some_0
                    &&& final(world)@.components == with_component(old(world)@, id, e, *final(r.unwrap().1))
                }
                &&& old(world)@.component(id, e) is None ==> r.is_none() && final(world)@.components
                    == old(world)@.components
            },
    {
        if self.inner.pos < self.inner.entities.len() {
            let e = self.inner.entities[self.inner.pos];
            match self.inner.next(world) {
                Some(c) => Some((e, c)),
                None => None,
            }
        } else {
            None
        }
    }
}

/// Something that reads the components of one kind, per entity.
pub trait HasContainer<'a, V> {
    /// What holds of every such reader that can be made.
    spec fn ready(&self) -> bool;

    /// The components it reads, by entity number.
    spec fn contents(&self) -> Map<u32, V>;

    /// It may be asked about `entity`.
    spec fn readable(&self, entity: Entity) -> bool;

    /// Whether it may be asked about `entity`.
    fn can_get(&self, entity: Entity) -> (r: bool)
        requires
            self.ready(),
        ensures
            r == self.readable(entity),
    ;

    /// The component of `entity`, if it has one.
    fn get(&self, entity: Entity) -> (r: Option<&'a V>)
        requires
            self.ready(),
            self.readable(entity),
        ensures
            r == as_ref_option(
                if self.contents().contains_key(entity.0) {
                    Some(self.contents()[entity.0])
                } else {
                    None
                },
            ),
    ;

    /// Every entity with its component, by increasing entity.
    fn entity_iter(&self) -> (r: Vec<(Entity, &'a V)>)
        requires
            self.ready(),
        ensures
            lists_contents(r@, self.contents()),
    ;
}

/// A view of the components of kind `id` that the entities of a world carry.
pub struct PerEntity<'a, V> {
    world: &'a World<V>,
    id: ComponentId,
}

impl<'a, V> PerEntity<'a, V> {
    /// The world model the view reads.
    pub closed spec fn model(&self) -> WorldModel<V> {
        self.world@
    }

    /// The kind of component the view reads.
    pub closed spec fn id(&self) -> ComponentId {
        self.id
    }

    pub closed spec fn wf(&self) -> bool {
        self.world.wf() && self.world@.is_per_entity(self.id)
    }

    /// The view of kind `id` in `world`.
    pub fn new(world: &'a World<V>, id: ComponentId) -> (p: Self)
        requires
            world.wf(),
            world@.is_per_entity(id),
        ensures
            p.wf(),
            p.model() == world@,
            p.id() == id,
    {
        PerEntity { world, id }
    }

    /// The components of the view, by increasing entity.
    pub fn iter(&self) -> (it: ComponentIter<'a, V>)
        requires
            self.wf(),
        ensures
            it.wf(),
            exists|l: Seq<(Entity, &V)>|
                {
                    &&& lists_contents(l, self.model().per_entity(self.id()))
                    &&& #[trigger] l.len() == it.remaining().len()
                    &&& forall|i: int| 0 <= i < l.len() ==> it.remaining()[i] == l[i].1
                },
    {
        let pairs = self.world.entity_iter(self.id);
        let mut out: Vec<&'a V> = Vec::new();
        let mut i: usize = 0;
        while i < pairs.len()
            invariant
                i <= pairs.len(),
                out.len() == i,
                forall|a: int| 0 <= a < i ==> out[a] == pairs[a].1,
            decreases pairs.len() - i,
        {
            out.push(pairs[i].1);
            i = i + 1;
        }
        let it = ComponentIter::wrap(out);
        assert(it.remaining().len() == pairs@.len());
        it
    }

    /// A cursor that hands out, by increasing entity, the component of each
    /// entity of the view, to change in place in the world given to its `next`.
    pub fn iter_mut(&self) -> (it: ComponentIterMut)
        requires
            self.wf(),
        ensures
            it.wf(),
            it.id() == self.id(),
            enumerates(entity_ids(it.remaining()), self.model().per_entity(self.id()).dom()),
    {
        let pairs = self.world.entity_iter(self.id);
        let mut es: Vec<Entity> = Vec::new();
        let mut i: usize = 0;
        while i < pairs.len()
            invariant
                i <= pairs.len(),
                es.len() == i,
                forall|a: int| 0 <= a < i ==> es[a] == pairs[a].0,
            decreases pairs.len() - i,
        {
            es.push(pairs[i].0);
            i = i + 1;
        }
        let it = ComponentIterMut { id: self.id, entities: es, pos: 0 };
        assert(it.remaining() =~= es@);
        assert(entity_ids(es@) =~= crate::ecs::containers::listed_ids(pairs@));
        it
    }

    /// A cursor that hands out, by increasing entity, each entity of the view
    /// with its component, to change in place in the world given to its `next`.
    pub fn entities_mut(&self) -> (it: EntityComponentIterMut)
        requires
            self.wf(),
        ensures
            it.wf(),
            it.id() == self.id(),
            enumerates(entity_ids(it.remaining()), self.model().per_entity(self.id()).dom()),
    {
        EntityComponentIterMut { inner: self.iter_mut() }
    }

    /// The entities of the view with their components, by increasing entity.
    pub fn entities(&self) -> (it: EntityComponentIter<'a, V>)
        requires
            self.wf(),
        ensures
            it.wf(),
            lists_contents(it.remaining(), self.model().per_entity(self.id())),
    {
        EntityComponentIter::wrap(self.world.entity_iter(self.id))
    }
}

impl<'a, V> HasContainer<'a, V> for PerEntity<'a, V> {
    open spec fn ready(&self) -> bool {
        self.wf()
    }

    open spec fn contents(&self) -> Map<u32, V> {
        self.model().per_entity(self.id())
    }

    open spec fn readable(&self, entity: Entity) -> bool {
        self.model().readable(self.id(), entity)
    }

    fn can_get(&self, entity: Entity) -> (r: bool) {
        self.world.can_get_component(self.id, entity)
    }

    fn get(&self, entity: Entity) -> (r: Option<&'a V>) {
        self.world.get_component(self.id, entity)
    }

    fn entity_iter(&self) -> (r: Vec<(Entity, &'a V)>) {
        self.world.entity_iter(self.id)
    }
}

/// A view of the global component of kind `id` in a world. The view reads
/// through a shared borrow of the world; the global component is changed in
/// place through `World::get_global_mut`, which takes the world mutably.
pub struct Global<'a, V> {
    world: &'a World<V>,
    id: ComponentId,
}

impl<'a, V> Global<'a, V> {
    /// The world model the view reads.
    pub closed spec fn model(&self) -> WorldModel<V> {
        self.world@
    }

    /// The kind of component the view reads.
    pub closed spec fn id(&self) -> ComponentId {
        self.id
    }

    pub closed spec fn wf(&self) -> bool {
        self.world.wf() && self.world@.is_global(self.id)
    }

    /// The view of the global kind `id` in `world`.
    pub fn new(world: &'a World<V>, id: ComponentId) -> (g: Self)
        requires
            world.wf(),
            world@.is_global(id),
        ensures
            g.wf(),
            g.model() == world@,
            g.id() == id,
    {
        Global { world, id }
    }

    /// The global component; it must have been set.
    pub fn get(&self) -> (r: &'a V)
        requires
            self.wf(),
            self.model().global(self.id()) is Some,
        ensures
            *r == self.model().global(self.id())->Some_0,
    {
        self.world.get_global(self.id).unwrap()
    }
}

/// A view that can be built from a world and the kind of component it reads.
pub trait Selector<'a, V>: Sized {
    /// The view can be built for kind `id` in `world`.
    spec fn fits(world: WorldModel<V>, id: ComponentId) -> bool;

    /// The view reads kind `id` of `world`.
    spec fn reads(&self, world: WorldModel<V>, id: ComponentId) -> bool;

    /// The view of kind `id` in `world`.
    fn build(world: &'a World<V>, id: ComponentId) -> (s: Self)
        requires
            world.wf(),
            Self::fits(world@, id),
        ensures
            s.reads(world@, id),
    ;
}

impl<'a, V> Selector<'a, V> for PerEntity<'a, V> {
    open spec fn fits(world: WorldModel<V>, id: ComponentId) -> bool {
        world.is_per_entity(id)
    }

    open spec fn reads(&self, world: WorldModel<V>, id: ComponentId) -> bool {
        self.wf() && self.model() == world && self.id() == id
    }

    fn build(world: &'a World<V>, id: ComponentId) -> (s: Self) {
        PerEntity::new(world, id)
    }
}

impl<'a, V> Selector<'a, V> for Global<'a, V> {
    open spec fn fits(world: WorldModel<V>, id: ComponentId) -> bool {
        world.is_global(id)
    }

    open spec fn reads(&self, world: WorldModel<V>, id: ComponentId) -> bool {
        self.wf() && self.model() == world && self.id() == id
    }

    fn build(world: &'a World<V>, id: ComponentId) -> (s: Self) {
        Global::new(world, id)
    }
}

/// A cursor over the results of a join: one per entity of the first view,
/// `None` for an entity that another view lacks.
pub struct JoinerIter<T> {
    /// The results still to come, last first.
    rev: Vec<Option<T>>,
}

impl<T> JoinerIter<T> {
    /// What is still to come, in order.
    pub closed spec fn remaining(&self) -> Seq<Option<T>> {
        self.rev@.reverse()
    }

    /// A cursor at the start of `items`.
    pub fn new(items: Vec<Option<T>>) -> (it: Self)
        ensures
            it.remaining() == items@,
    {
        let mut items = items;
        let ghost all = items@;
        let mut rev: Vec<Option<T>> = Vec::new();
        while items.len() > 0
            invariant
                all == items@ + rev@.reverse(),
            decreases items.len(),
        {
            let x = items.pop().unwrap();
            proof {
                assert(rev@.push(x).reverse() =~= seq![x] + rev@.reverse());
            }
            rev.push(x);
        }
        assert(all =~= rev@.reverse());
        JoinerIter { rev }
    }

    /// The result for the next entity of the first view, `None` where another
    /// view lacks it; `None` too at the end, after which the cursor stays put.
    pub fn next(&mut self) -> (r: Option<T>)
        ensures
            old(self).remaining().len() == 0 ==> r is None && final(self).remaining() == old(self).remaining(),
            old(self).remaining().len() > 0 ==> r == old(self).remaining()[0]
                && final(self).remaining() == old(self).remaining().drop_first(),
    {
        match self.rev.pop() {
            Some(r) => {
                assert(self.remaining() =~= old(self).remaining().drop_first());
                r
            },
            None => None,
        }
    }
}

/// The result of joining `a` and `b` at the entity numbered `k` of `a`: the
/// entity with both components where `b` holds one too, else `None`.
pub open spec fn joined2<V>(o: Option<(Entity, &V, &V)>, k: u32, a: Map<u32, V>, b: Map<u32, V>) -> bool {
    if b.contains_key(k) {
        o matches Some(t) && t.0 == Entity(k) && *t.1 == a[k] && *t.2 == b[k]
    } else {
        o is None
    }
}

/// `r` holds, by increasing entity, the result of joining `a` and `b` at
/// each entity of `a`.
pub open spec fn joins2<V>(r: Seq<Option<(Entity, &V, &V)>>, a: Map<u32, V>, b: Map<u32, V>) -> bool {
    exists|l: Seq<u32>|
        {
            &&& #[trigger] enumerates(l, a.dom())
            &&& l.len() == r.len()
            &&& forall|i: int| 0 <= i < r.len() ==> joined2(#[trigger] r[i], l[i], a, b)
        }
}

/// Views that can be joined on the entities of the first.
pub trait Joiner<'a, V> {
    /// What one result of the join is.
    type Output;

    /// What holds of every set of views that can be joined.
    spec fn ready(&self) -> bool;

    /// What the results of the join are, in order.
    spec fn results(&self, r: Seq<Option<Self::Output>>) -> bool;

    /// For each entity of the first view, by increasing entity, its components
    /// in every view, or `None` where a view lacks it.
    fn join(&self) -> (it: JoinerIter<Self::Output>)
        requires
            self.ready(),
        ensures
            self.results(it.remaining()),
    ;
}

/// For each entity of `a`, by increasing entity: the entity with its two
/// components where `b` holds one too, else `None`.
fn join_pair<'a, V, A: HasContainer<'a, V>, B: HasContainer<'a, V>>(a: &A, b: &B) -> (r: Vec<
    Option<(Entity, &'a V, &'a V)>,
>)
    requires
        a.ready(),
        b.ready(),
        forall|k: u32| #[trigger] a.contents().contains_key(k) ==> b.readable(Entity(k)),
    ensures
        joins2(r@, a.contents(), b.contents()),
{
    let la = a.entity_iter();
    let ghost ids = crate::ecs::containers::listed_ids(la@);
    let mut out: Vec<Option<(Entity, &'a V, &'a V)>> = Vec::new();
    let mut i: usize = 0;
    while i < la.len()
        invariant
            i <= la.len(),
            a.ready(),
            b.ready(),
            forall|k: u32| #[trigger] a.contents().contains_key(k) ==> b.readable(Entity(k)),
            lists_contents(la@, a.contents()),
            ids == crate::ecs::containers::listed_ids(la@),
            out.len() == i,
            forall|x: int| 0 <= x < i ==> joined2(#[trigger] out@[x], ids[x], a.contents(), b.contents()),
        decreases la.len() - i,
    {
        let (e, ca) = la[i];
        assert(ids[i as int] == e.0);
        assert(a.contents().contains_key(e.0)) by {
            assert(ids.contains(e.0));
        }
        let r = match b.get(e) {
            Some(cb) => Some((e, ca, cb)),
            None => None,
        };
        out.push(r);
        i = i + 1;
    }
    assert(joins2(out@, a.contents(), b.contents())) by {
        assert(enumerates(ids, a.contents().dom()));
    }
    out
}

impl<'a, 'b, V: 'a, A: HasContainer<'a, V>, B: HasContainer<'a, V>> Joiner<'a, V> for (&'b A, &'b B) {
    type Output = (Entity, &'a V, &'a V);

    /// Both views are ready, and the second can be asked about every entity
    /// of the first.
    open spec fn ready(&self) -> bool {
        &&& self.0.ready()
        &&& self.1.ready()
        &&& forall|k: u32| #[trigger] self.0.contents().contains_key(k) ==> self.1.readable(Entity(k))
    }

    open spec fn results(&self, r: Seq<Option<(Entity, &'a V, &'a V)>>) -> bool {
        joins2(r, self.0.contents(), self.1.contents())
    }

    fn join(&self) -> (it: JoinerIter<(Entity, &'a V, &'a V)>) {
        JoinerIter::new(join_pair(self.0, self.1))
    }
}

/// The result of joining `a`, `b` and `c` at the entity numbered `k` of `a`:
/// the entity with its three components where `b` and `c` hold one too, else `None`.
pub open spec fn joined3<V>(
    o: Option<(Entity, &V, &V, &V)>,
    k: u32,
    a: Map<u32, V>,
    b: Map<u32, V>,
    c: Map<u32, V>,
) -> bool {
    if b.contains_key(k) && c.contains_key(k) {
        o matches Some(t) && t.0 == Entity(k) && *t.1 == a[k] && *t.2 == b[k] && *t.3 == c[k]
    } else {
        o is None
    }
}

/// `r` holds, by increasing entity, the result of joining `a`, `b` and `c`
/// at each entity of `a`.
pub open spec fn joins3<V>(r: Seq<Option<(Entity, &V, &V, &V)>>, a: Map<u32, V>, b: Map<u32, V>, c: Map<u32, V>) -> bool {
    exists|l: Seq<u32>|
        {
            &&& #[trigger] enumerates(l, a.dom())
            &&& l.len() == r.len()
            &&& forall|i: int| 0 <= i < r.len() ==> joined3(#[trigger] r[i], l[i], a, b, c)
        }
}

/// For each entity of `a`, by increasing entity: the entity with its three
/// components where `b` and `c` hold one too, else `None`. `c` is asked only
/// where `b` holds the entity.
fn join_triple<'a, V, A: HasContainer<'a, V>, B: HasContainer<'a, V>, C: HasContainer<'a, V>>(
    a: &A,
    b: &B,
    c: &C,
) -> (r: Vec<Option<(Entity, &'a V, &'a V, &'a V)>>)
    requires
        a.ready(),
        b.ready(),
        c.ready(),
        forall|k: u32| #[trigger] a.contents().contains_key(k) ==> b.readable(Entity(k)),
        forall|k: u32| #[trigger] a.contents().contains_key(k) && b.contents().contains_key(k) ==> c.readable(Entity(k)),
    ensures
        joins3(r@, a.contents(), b.contents(), c.contents()),
{
    let lab = join_pair(a, b);
    let ghost l: Seq<u32> = choose|l: Seq<u32>|
        {
            &&& #[trigger] enumerates(l, a.contents().dom())
            &&& l.len() == lab@.len()
            &&& forall|i: int| 0 <= i < lab@.len() ==> joined2(#[trigger] lab@[i], l[i], a.contents(), b.contents())
        };
    let mut out: Vec<Option<(Entity, &'a V, &'a V, &'a V)>> = Vec::new();
    let mut i: usize = 0;
    while i < lab.len()
        invariant
            i <= lab.len(),
            c.ready(),
            enumerates(l, a.contents().dom()),
            l.len() == lab@.len(),
            forall|x: int| 0 <= x < lab@.len() ==> joined2(#[trigger] lab@[x], l[x], a.contents(), b.contents()),
            forall|k: u32| #[trigger] a.contents().contains_key(k) && b.contents().contains_key(k) ==> c.readable(Entity(k)),
            out.len() == i,
            forall|x: int| 0 <= x < i ==> joined3(#[trigger] out@[x], l[x], a.contents(), b.contents(), c.contents()),
        decreases lab.len() - i,
    {
        assert(joined2(lab@[i as int], l[i as int], a.contents(), b.contents()));
        let r = match lab[i] {
            Some((e, ca, cb)) => {
                assert(l.contains(l[i as int]));
                assert(b.contents().contains_key(l[i as int]));
                assert(a.contents().contains_key(e.0));
                match c.get(e) {
                    Some(cc) => Some((e, ca, cb, cc)),
                    None => None,
                }
            },
            None => None,
        };
        out.push(r);
        i = i + 1;
    }
    out
}

impl<'a, 'b, V: 'a, A: HasContainer<'a, V>, B: HasContainer<'a, V>, C: HasContainer<'a, V>> Joiner<'a, V> for (
    &'b A,
    &'b B,
    &'b C,
) {
    type Output = (Entity, &'a V, &'a V, &'a V);

    /// All three views are ready; the second can be asked about every entity
    /// of the first, and the third about every entity of the first that the
    /// second holds.
    open spec fn ready(&self) -> bool {
        &&& self.0.ready()
        &&& self.1.ready()
        &&& self.2.ready()
        &&& forall|k: u32| #[trigger] self.0.contents().contains_key(k) ==> self.1.readable(Entity(k))
        &&& forall|k: u32| #[trigger] self.0.contents().contains_key(k) && self.1.contents().contains_key(k)
            ==> self.2.readable(Entity(k))
    }

    open spec fn results(&self, r: Seq<Option<(Entity, &'a V, &'a V, &'a V)>>) -> bool {
        joins3(r, self.0.contents(), self.1.contents(), self.2.contents())
    }

    fn join(&self) -> (it: JoinerIter<(Entity, &'a V, &'a V, &'a V)>) {
        JoinerIter::new(join_triple(self.0, self.1, self.2))
    }
}

} // verus!
