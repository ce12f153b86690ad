//! The world: the entities handed out so far and one container per
//! registered kind of component.
use std::collections::BTreeMap;
use vstd::prelude::*;

use crate::ecs::containers::{
    grown, lists_contents, within, BTreeComponentMap, Container, MultiContainer, SingleContainer, Singleton,
    VecIndex,
};
use crate::ecs::{ComponentId, Entity};

verus! {

broadcast use {vstd::std_specs::btree::group_btree_axioms, vstd::laws_cmp::group_laws_cmp};

/// The kind of container that a kind of component is kept in.
#[derive(Copy, Clone, PartialEq, Eq, Structural, Debug)]
pub enum ContainerKind {
    /// One component for the whole world.
    Singleton,
    /// At most one component per entity, in a vector indexed by entity.
    VecIndex,
    /// At most one component per entity, in an ordered map.
    BTreeMap,
}

/// What a registered kind of component holds.
pub enum Slot<V> {
    /// A global component, if one was set.
    Global(Option<V>),
    /// The components of the entities, by entity number, the kind of
    /// container that holds them, and how far that container reaches (see
    /// `within`).
    PerEntity(ContainerKind, Map<u32, V>, Option<nat>),
}

/// A world seen as a mathematical value.
pub struct WorldModel<V> {
    /// The number of entities handed out so far; they are numbered from 1.
    pub entities: nat,
    /// What each registered kind of component holds, by component number.
    pub components: Map<u32, Slot<V>>,
}

impl<V> WorldModel<V> {
    /// The kind `id` is registered and holds one component per entity.
    pub open spec fn is_per_entity(self, id: ComponentId) -> bool {
        self.components.contains_key(id.0) && self.components[id.0] is PerEntity
    }

    /// The kind `id` is registered and holds one global component.
    pub open spec fn is_global(self, id: ComponentId) -> bool {
        self.components.contains_key(id.0) && self.components[id.0] is Global
    }

    /// The components of kind `id`, by entity number (empty if `id` holds none per entity).
    pub open spec fn per_entity(self, id: ComponentId) -> Map<u32, V> {
        if self.is_per_entity(id) {
            self.components[id.0]->PerEntity_1
        } else {
            Map::empty()
        }
    }

    /// The component of kind `id` that `entity` carries, if any.
    pub open spec fn component(self, id: ComponentId, entity: Entity) -> Option<V> {
        if self.per_entity(id).contains_key(entity.0) {
            Some(self.per_entity(id)[entity.0])
        } else {
            None
        }
    }

    /// Kind `id` may be asked about `entity`: a per-entity container kept in a
    /// vector reaches only as far as the entities given a component so far.
    pub open spec fn readable(self, id: ComponentId, entity: Entity) -> bool {
        self.is_per_entity(id) ==> within(self.components[id.0]->PerEntity_2, entity)
    }

    /// The global component of kind `id`, if it is registered as global and set.
    pub open spec fn global(self, id: ComponentId) -> Option<V> {
        if self.is_global(id) {
            self.components[id.0]->Global_0
        } else {
            None
        }
    }
}

/// The components after registering kind `id` with a container of kind
/// `kind`: a kind registered already keeps what it holds.
pub open spec fn registered<V>(components: Map<u32, Slot<V>>, id: ComponentId, kind: ContainerKind) -> Map<
    u32,
    Slot<V>,
> {
    if components.contains_key(id.0) {
        components
    } else {
        components.insert(id.0, empty_slot::<V>(kind))
    }
}

/// The components after `entity` is given `component` of per-entity kind `id`.
pub open spec fn with_component<V>(w: WorldModel<V>, id: ComponentId, entity: Entity, component: V) -> Map<
    u32,
    Slot<V>,
> {
    w.components.insert(
        id.0,
        Slot::PerEntity(
            w.components[id.0]->PerEntity_0,
            w.per_entity(id).insert(entity.0, component),
            grown(w.components[id.0]->PerEntity_2, entity),
        ),
    )
}

/// The components after the global component of kind `id` is set to `component`.
pub open spec fn with_global<V>(w: WorldModel<V>, id: ComponentId, component: V) -> Map<u32, Slot<V>> {
    w.components.insert(id.0, Slot::Global(Some(component)))
}

/// What a registered kind of component starts with.
pub open spec fn empty_slot<V>(kind: ContainerKind) -> Slot<V> {
    match kind {
        ContainerKind::Singleton => Slot::Global(None),
        ContainerKind::VecIndex => Slot::PerEntity(kind, Map::empty(), Some(0)),
        ContainerKind::BTreeMap => Slot::PerEntity(kind, Map::empty(), None),
    }
}

/// A reference to a component as an option, for contracts.
pub open spec fn as_ref_option<'a, V>(o: Option<V>) -> Option<&'a V> {
    match o {
        Some(v) => Some(&v),
        None => None,
    }
}

/// The container of one kind of component.
pub(crate) enum Storage<V> {
    Single(Singleton<V>),
    Dense(VecIndex<V>),
    Sparse(BTreeComponentMap<V>),
}

impl<V> Storage<V> {
    pub closed spec fn wf(&self) -> bool {
        match self {
            Storage::Single(s) => s.wf(),
            Storage::Dense(s) => s.wf(),
            Storage::Sparse(s) => s.wf(),
        }
    }

    pub closed spec fn model(&self) -> Slot<V> {
        match self {
            Storage::Single(s) => Slot::Global(s.value()),
            Storage::Dense(s) => Slot::PerEntity(ContainerKind::VecIndex, s.contents(), s.reach()),
            Storage::Sparse(s) => Slot::PerEntity(ContainerKind::BTreeMap, s.contents(), s.reach()),
        }
    }

    pub fn new(kind: ContainerKind) -> (s: Self)
        ensures
            s.wf(),
            s.model() == empty_slot::<V>(kind),
    {
        match kind {
            ContainerKind::Singleton => Storage::Single(Singleton::new()),
            ContainerKind::VecIndex => Storage::Dense(VecIndex::new()),
            ContainerKind::BTreeMap => Storage::Sparse(BTreeComponentMap::new()),
        }
    }

    /// Every stored component lies within the container's reach.
    pub proof fn lemma_stored_within(&self, k: u32)
        requires
            self.wf(),
            self.model() is PerEntity,
            (self.model()->PerEntity_1).contains_key(k),
        ensures
            within(self.model()->PerEntity_2, Entity(k)),
    {
        match self {
            Storage::Single(_) => {},
            Storage::Dense(s) => s.lemma_stored_within(k),
            Storage::Sparse(s) => s.lemma_stored_within(k),
        }
    }

    pub fn can_get(&self, entity: Entity) -> (r: bool)
        requires
            self.wf(),
        ensures
            r == (self.model() is PerEntity ==> within(self.model()->PerEntity_2, entity)),
    {
        match self {
            Storage::Single(_) => true,
            Storage::Dense(s) => s.can_get(entity),
            Storage::Sparse(s) => s.can_get(entity),
        }
    }

    pub fn get(&self, entity: Entity) -> (r: Option<&V>)
        requires
            self.wf(),
            self.model() is PerEntity ==> within(self.model()->PerEntity_2, entity),
        ensures
            r == (match self.model() {
                Slot::PerEntity(_, m, _) => if m.contains_key(entity.0) {
                    Some(&m[entity.0])
                } else {
                    None::<&V>
                },
                Slot::Global(_) => None::<&V>,
            }),
    {
        match self {
            Storage::Single(_) => None,
            Storage::Dense(s) => s.get(entity),
            Storage::Sparse(s) => s.get(entity),
        }
    }

    pub fn get_global(&self) -> (r: Option<&V>)
        requires
            self.wf(),
        ensures
            r == (match self.model() {
                Slot::Global(o) => as_ref_option(o),
                Slot::PerEntity(_, _, _) => None::<&V>,
            }),
    {
        match self {
            Storage::Single(s) => s.get(),
            _ => None,
        }
    }

    pub fn get_mut(&mut self, entity: Entity) -> (r: Option<&mut V>)
        requires
            old(self).wf(),
            old(self).model() is PerEntity ==> within(old(self).model()->PerEntity_2, entity),
        ensures
            final(self).wf(),
            (old(self).model() is PerEntity && (old(self).model()->PerEntity_1).contains_key(entity.0)) ==> {
                &&& r.is_some()
                &&& *r.unwrap() == (old(self).model()->PerEntity_1)[entity.0]
                &&& final(self).model() == Slot::PerEntity(
                    old(self).model()->PerEntity_0,
                    (old(self).model()->PerEntity_1).insert(entity.0, *final(r.unwrap())),
                    old(self).model()->PerEntity_2,
                )
            },
            !(old(self).model() is PerEntity && (old(self).model()->PerEntity_1).contains_key(entity.0)) ==> r.is_none()
                && final(self).model() == old(self).model(),
    {
        match self {
            Storage::Single(_) => None,
            Storage::Dense(s) => s.get_mut(entity),
            Storage::Sparse(s) => s.get_mut(entity),
        }
    }

    pub fn get_global_mut(&mut self) -> (r: Option<&mut V>)
        requires
            old(self).wf(),
        ensures
            final(self).wf(),
            (old(self).model() is Global && (old(self).model()->Global_0) is Some) ==> {
                &&& r.is_some()
                &&& *r.unwrap() == (old(self).model()->Global_0)->Some_0
                &&& final(self).model() == Slot::Global(Some(*final(r.unwrap())))
            },
            !(old(self).model() is Global && (old(self).model()->Global_0) is Some) ==> r.is_none()
                && final(self).model() == old(self).model(),
    {
        match self {
            Storage::Single(s) => s.get_mut(),
            _ => None,
        }
    }

    pub fn set(&mut self, entity: Entity, component: V)
        requires
            old(self).wf(),
            old(self).model() is PerEntity,
        ensures
            final(self).wf(),
            final(self).model() == Slot::PerEntity(
                old(self).model()->PerEntity_0,
                (old(self).model()->PerEntity_1).insert(entity.0, component),
                grown(old(self).model()->PerEntity_2, entity),
            ),
    {
        match self {
            Storage::Single(_) => {},
            Storage::Dense(s) => s.set(entity, component),
            Storage::Sparse(s) => s.set(entity, component),
        }
    }

    pub fn set_global(&mut self, component: V)
        requires
            old(self).wf(),
            old(self).model() is Global,
        ensures
            final(self).wf(),
            final(self).model() == Slot::Global(Some(component)),
    {
        match self {
            Storage::Single(s) => s.set(component),
            _ => {},
        }
    }

    pub fn entity_iter(&self) -> (r: Vec<(Entity, &V)>)
        requires
            self.wf(),
            self.model() is PerEntity,
        ensures
            lists_contents(r@, self.model()->PerEntity_1),
    {
        match self {
            Storage::Single(_) => Vec::new(),
            Storage::Dense(s) => s.entity_iter(),
            Storage::Sparse(s) => s.entity_iter(),
        }
    }
}

/// The world: entities and the containers of all registered kinds of component.
pub struct World<V> {
    components: BTreeMap<u32, Storage<V>>,
    entities: u32,
}

impl<V> View for World<V> {
    type V = WorldModel<V>;

    closed spec fn view(&self) -> WorldModel<V> {
        WorldModel {
            entities: self.entities as nat,
            components: self.components@.map_values(|s: Storage<V>| s.model()),
        }
    }
}

impl<V> World<V> {
    /// Every container of the world is well formed.
    pub closed spec fn wf(&self) -> bool {
        forall|k: u32| #[trigger] self.components@.contains_key(k) ==> self.components@[k].wf()
    }

    /// An entity that carries a component of a kind may be asked about it.
    pub proof fn lemma_carried_readable(&self, id: ComponentId, entity: Entity)
        requires
            self.wf(),
            self@.per_entity(id).contains_key(entity.0),
        ensures
            self@.readable(id, entity),
    {
        assert(self.components@.contains_key(id.0));
        self.components@[id.0].lemma_stored_within(entity.0);
    }

    /// An empty world: no entities, no kinds of component.
    pub fn new() -> (w: Self)
        ensures
            w.wf(),
            w@.entities == 0,
            w@.components == Map::<u32, Slot<V>>::empty(),
    {
        let w = World { components: BTreeMap::new(), entities: 0 };
        assert(w@.components =~= Map::<u32, Slot<V>>::empty());
        w
    }

    /// Registers the kind `id`, kept in a container of kind `kind`. A kind that
    /// is registered already keeps its container and what it holds.
    pub fn register_component(&mut self, id: ComponentId, kind: ContainerKind)
        requires
            old(self).wf(),
        ensures
            final(self).wf(),
            final(self)@.entities == old(self)@.entities,
            final(self)@.components == registered(old(self)@.components, id, kind),
    {
        if !self.components.contains_key(&id.0) {
            self.components.insert(id.0, Storage::new(kind));
            assert(self@.components =~= old(self)@.components.insert(id.0, empty_slot::<V>(kind)));
        }
    }

    /// Hands out a new entity: the one numbered after the last.
    pub fn add_entity(&mut self) -> (e: Entity)
        requires
            old(self)@.entities < u32::MAX,
        ensures
            e.0 == old(self)@.entities + 1,
            final(self)@.entities == old(self)@.entities + 1,
            final(self)@.components == old(self)@.components,
            final(self).wf() == old(self).wf(),
    {
        self.entities = self.entities + 1;
        Entity(self.entities)
    }

    /// Gives `entity` the component `component` of kind `id`, replacing one it had.
    pub fn set_component(&mut self, id: ComponentId, entity: Entity, component: V)
        requires
            old(self).wf(),
            old(self)@.is_per_entity(id),
        ensures
            final(self).wf(),
            final(self)@.entities == old(self)@.entities,
            final(self)@.components == with_component(old(self)@, id, entity, component),
    {
        let mut storage = self.components.remove(&id.0).unwrap();
        storage.set(entity, component);
        self.components.insert(id.0, storage);
        assert(self@.components =~= with_component(old(self)@, id, entity, component));
    }

    /// Sets the global component of kind `id`, replacing one that was set.
    pub fn set_global(&mut self, id: ComponentId, component: V)
        requires
            old(self).wf(),
            old(self)@.is_global(id),
        ensures
            final(self).wf(),
            final(self)@.entities == old(self)@.entities,
            final(self)@.components == with_global(old(self)@, id, component),
    {
        let mut storage = self.components.remove(&id.0).unwrap();
        storage.set_global(component);
        self.components.insert(id.0, storage);
        assert(self@.components =~= old(self)@.components.insert(id.0, Slot::Global(Some(component))));
    }

    /// Whether kind `id` may be asked about `entity` (see `WorldModel::readable`).
    pub fn can_get_component(&self, id: ComponentId, entity: Entity) -> (r: bool)
        requires
            self.wf(),
        ensures
            r == self@.readable(id, entity),
    {
        match self.components.get(&id.0) {
            Some(storage) => storage.can_get(entity),
            None => true,
        }
    }

    /// The component of kind `id` that `entity` carries; `None` where the kind is
    /// not registered, holds no components per entity, or `entity` has none.
    pub fn get_component(&self, id: ComponentId, entity: Entity) -> (r: Option<&V>)
        requires
            self.wf(),
            self@.readable(id, entity),
        ensures
            r == as_ref_option(self@.component(id, entity)),
    {
        match self.components.get(&id.0) {
            Some(storage) => storage.get(entity),
            None => None,
        }
    }

    /// The component of kind `id` that `entity` carries, to change in place;
    /// `None` where `get_component` gives `None`, and then nothing changes.
    pub fn get_component_mut(&mut self, id: ComponentId, entity: Entity) -> (r: Option<&mut V>)
        requires
            old(self).wf(),
            old(self)@.readable(id, entity),
        ensures
            final(self).wf(),
            final(self)@.entities == old(self)@.entities,
            old(self)@.component(id, entity) is Some ==> {
                &&& r.is_some()
                &&& *r.unwrap() == old(self)@.component(id, entity)->Some_0
                &&& final(self)@.components == with_component(old(self)@, id, entity, *final(r.unwrap()))
            },
            old(self)@.component(id, entity) is None ==> r.is_none() && final(self)@.components == old(self)@.components,
    {
        match crate::ecs::containers::btree_get_mut(&mut self.components, id.0) {
            Some(storage) => {
                let r = storage.get_mut(entity);
                r
            },
            None => None,
        }
    }

    /// The global component of kind `id`; `None` where the kind is not
    /// registered as global or was never set.
    pub fn get_global(&self, id: ComponentId) -> (r: Option<&V>)
        requires
            self.wf(),
        ensures
            r == as_ref_option(self@.global(id)),
    {
        match self.components.get(&id.0) {
            Some(storage) => storage.get_global(),
            None => None,
        }
    }

    /// The global component of kind `id`, to change in place; `None` where
    /// `get_global` gives `None`, and then nothing changes. This is how a
    /// `Global` view's component is written to.
    pub fn get_global_mut(&mut self, id: ComponentId) -> (r: Option<&mut V>)
        requires
            old(self).wf(),
        ensures
            final(self).wf(),
            final(self)@.entities == old(self)@.entities,
            old(self)@.global(id) is Some ==> {
                &&& r.is_some()
                &&& *r.unwrap() == old(self)@.global(id)->Some_0
                &&& final(self)@.components == with_global(old(self)@, id, *final(r.unwrap()))
            },
            old(self)@.global(id) is None ==> r.is_none() && final(self)@.components == old(self)@.components,
    {
        match crate::ecs::containers::btree_get_mut(&mut self.components, id.0) {
            Some(storage) => storage.get_global_mut(),
            None => None,
        }
    }

    /// Every entity that carries a component of kind `id`, with it, by
    /// increasing entity.
    pub fn entity_iter(&self, id: ComponentId) -> (r: Vec<(Entity, &V)>)
        requires
            self.wf(),
            self@.is_per_entity(id),
        ensures
            lists_contents(r@, self@.per_entity(id)),
    {
        let storage = self.components.get(&id.0).unwrap();
        storage.entity_iter()
    }

    /// Replaces every component of kind `id` by what `f` makes of it and of
    /// the entity that carries it; other kinds and other worlds' state stay.
    pub fn update_components<F: Fn(Entity, &V) -> V>(&mut self, id: ComponentId, f: F)
        requires
            old(self).wf(),
            old(self)@.is_per_entity(id),
            forall|e: Entity, v: &V| f.requires((e, v)),
        ensures
            final(self).wf(),
            final(self)@.entities == old(self)@.entities,
            final(self)@.components.dom() == old(self)@.components.dom(),
            forall|k: u32| #[trigger] final(self)@.components.contains_key(k) && k != id.0
                ==> final(self)@.components[k] == old(self)@.components[k],
            final(self)@.is_per_entity(id),
            final(self)@.components[id.0]->PerEntity_0 == old(self)@.components[id.0]->PerEntity_0,
            final(self)@.components[id.0]->PerEntity_2 == old(self)@.components[id.0]->PerEntity_2,
            final(self)@.per_entity(id).dom() == old(self)@.per_entity(id).dom(),
            forall|k: u32| #[trigger] old(self)@.per_entity(id).contains_key(k)
                ==> f.ensures((Entity(k), &old(self)@.per_entity(id)[k]), final(self)@.per_entity(id)[k]),
    {
        let pairs = self.entity_iter(id);
        let mut es: Vec<Entity> = Vec::new();
        let mut j: usize = 0;
        while j < pairs.len()
            invariant
                j <= pairs.len(),
                es.len() == j,
                forall|a: int| 0 <= a < j ==> es[a] == pairs[a].0,
            decreases pairs.len() - j,
        {
            es.push(pairs[j].0);
            j = j + 1;
        }
        let ghost ids = crate::ecs::containers::listed_ids(pairs@);
        assert(crate::ecs::entity_ids(es@) =~= ids);
        let ghost dom = old(self)@.per_entity(id).dom();
        let mut i: usize = 0;
        while i < es.len()
            invariant
                i <= es.len(),
                self.wf(),
                forall|e: Entity, v: &V| f.requires((e, v)),
                crate::ecs::enumerates(crate::ecs::entity_ids(es@), dom),
                dom == old(self)@.per_entity(id).dom(),
                self@.entities == old(self)@.entities,
                self@.components.dom() == old(self)@.components.dom(),
                forall|k: u32| #[trigger] self@.components.contains_key(k) && k != id.0
                    ==> self@.components[k] == old(self)@.components[k],
                self@.is_per_entity(id),
                self@.components[id.0]->PerEntity_0 == old(self)@.components[id.0]->PerEntity_0,
                self@.components[id.0]->PerEntity_2 == old(self)@.components[id.0]->PerEntity_2,
                self@.per_entity(id).dom() == dom,
                forall|a: int| 0 <= a < i ==> f.ensures(
                    (es[a], &old(self)@.per_entity(id)[es[a].0]),
                    #[trigger] self@.per_entity(id)[es[a].0],
                ),
                forall|a: int| i <= a < es.len() ==> #[trigger] self@.per_entity(id)[es[a].0]
                    == old(self)@.per_entity(id)[es[a].0],
            decreases es.len() - i,
        {
            let e = es[i];
            assert(crate::ecs::entity_ids(es@)[i as int] == e.0);
            assert(dom.contains(e.0));
            proof {
                self.lemma_carried_readable(id, e);
            }
            let v = {
                let current = self.get_component(id, e).unwrap();
                f(e, current)
            };
            self.set_component(id, e, v);
            proof {
                assert forall|a: int| 0 <= a < es.len() && a != i implies es[a].0 != e.0 by {
                    assert(crate::ecs::entity_ids(es@)[a] == es[a].0);
                    if a < i {
                        assert(crate::ecs::entity_ids(es@)[a] < crate::ecs::entity_ids(es@)[i as int]);
                    } else {
                        assert(crate::ecs::entity_ids(es@)[i as int] < crate::ecs::entity_ids(es@)[a]);
                    }
                }
                assert(self@.per_entity(id).dom() =~= dom);
            }
            i = i + 1;
        }
        proof {
            assert forall|k: u32| #[trigger] old(self)@.per_entity(id).contains_key(k)
                implies f.ensures((Entity(k), &old(self)@.per_entity(id)[k]), self@.per_entity(id)[k]) by {
                assert(crate::ecs::entity_ids(es@).contains(k));
                let a: int = choose|a: int| 0 <= a < es.len() && crate::ecs::entity_ids(es@)[a] == k;
                assert(es[a] == Entity(k));
            }
        }
    }
}

} // verus!
