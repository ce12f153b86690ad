//! The containers that hold one kind of component each: `Singleton` for a
//! component that exists once in the world, `VecIndex` and
//! `BTreeComponentMap` for components that entities carry.
use std::collections::BTreeMap;
use vstd::prelude::*;
use vstd::std_specs::iter::IteratorSpec;

use crate::ecs::order::lemma_increasing_keys;
use crate::ecs::{enumerates, entity_ids, Entity};

verus! {

broadcast use {vstd::std_specs::btree::group_btree_axioms, vstd::laws_cmp::group_laws_cmp};

/// The pairs of a listing, read as a sequence of entity numbers.
pub open spec fn listed_ids<C>(r: Seq<(Entity, &C)>) -> Seq<u32> {
    entity_ids(r.map_values(|p: (Entity, &C)| p.0))
}

/// `r` lists the components of `m`, one pair per entity, by increasing entity.
pub open spec fn lists_contents<C>(r: Seq<(Entity, &C)>, m: Map<u32, C>) -> bool {
    &&& enumerates(listed_ids(r), m.dom())
    &&& forall|i: int| 0 <= i < r.len() ==> *(#[trigger] r[i]).1 == m[r[i].0.0]
}

/// The entities a container can be asked about: every entity (`None`), or
/// those numbered below `n` (`Some(n)`).
pub open spec fn within(reach: Option<nat>, entity: Entity) -> bool {
    match reach {
        Some(n) => entity.0 < n,
        None => true,
    }
}

/// How far a container reaches after `entity` was given a component.
pub open spec fn grown(reach: Option<nat>, entity: Entity) -> Option<nat> {
    match reach {
        Some(n) => Some(if entity.0 + 1 > n { (entity.0 + 1) as nat } else { n }),
        None => None,
    }
}

/// A container of some kind of component.
pub trait Container<C> {
    /// What holds of every container that its methods hand out.
    spec fn wf(&self) -> bool;
}

/// A container that holds at most one component per entity.
pub trait MultiContainer<C>: Container<C> {
    /// The components held, by the number of the entity that carries them.
    spec fn contents(&self) -> Map<u32, C>;

    /// The entities the container can be asked about (see `within`); asking
    /// about another is a mistake.
    spec fn reach(&self) -> Option<nat>;

    /// Every entity that carries a component lies within reach.
    proof fn lemma_stored_within(&self, k: u32)
        requires
            self.wf(),
            self.contents().contains_key(k),
        ensures
            within(self.reach(), Entity(k)),
    ;

    /// Whether the container can be asked about `entity`.
    fn can_get(&self, entity: Entity) -> (r: bool)
        requires
            self.wf(),
        ensures
            r == within(self.reach(), entity),
    ;

    /// The component of `entity`, if it has one.
    fn get(&self, entity: Entity) -> (r: Option<&C>)
        requires
            self.wf(),
            within(self.reach(), entity),
        ensures
            r == (if self.contents().contains_key(entity.0) {
                Some(&self.contents()[entity.0])
            } else {
                None::<&C>
            }),
    ;

    /// The component of `entity`, to change in place, if it has one.
    fn get_mut(&mut self, entity: Entity) -> (r: Option<&mut C>)
        requires
            old(self).wf(),
            within(old(self).reach(), entity),
        ensures
            final(self).reach() == old(self).reach(),
            old(self).contents().contains_key(entity.0) ==> {
                &&& r.is_some()
                &&& *r.unwrap() == old(self).contents()[entity.0]
                &&& final(self).contents() == old(self).contents().insert(entity.0, *final(r.unwrap()))
                &&& final(self).wf()
            },
            !old(self).contents().contains_key(entity.0) ==> r.is_none() && final(self).contents()
                == old(self).contents() && final(self).wf(),
    ;

    /// Gives `entity` the component `component`, replacing one it had.
    fn set(&mut self, entity: Entity, component: C)
        requires
            old(self).wf(),
        ensures
            final(self).wf(),
            final(self).contents() == old(self).contents().insert(entity.0, component),
            final(self).reach() == grown(old(self).reach(), entity),
    ;

    /// Every entity with its component, by increasing entity.
    fn entity_iter(&self) -> (r: Vec<(Entity, &C)>)
        requires
            self.wf(),
        ensures
            lists_contents(r@, self.contents()),
    ;

    /// Every component, in the order of the entities that carry them.
    fn iter(&self) -> (r: Vec<&C>)
        requires
            self.wf(),
        ensures
            exists|l: Seq<(Entity, &C)>|
                {
                    &&& lists_contents(l, self.contents())
                    &&& #[trigger] l.len() == r.len()
                    &&& forall|i: int| 0 <= i < r.len() ==> r[i] == l[i].1
                },
    ;
}

/// A container that holds at most one component for the whole world.
pub trait SingleContainer<C>: Container<C> {
    /// The component held, if any.
    spec fn value(&self) -> Option<C>;

    /// The component, if one was set.
    fn get(&self) -> (r: Option<&C>)
        requires
            self.wf(),
        ensures
            r == (match self.value() {
                Some(v) => Some(&v),
                None => None::<&C>,
            }),
    ;

    /// The component, to change in place, if one was set.
    fn get_mut(&mut self) -> (r: Option<&mut C>)
        requires
            old(self).wf(),
        ensures
            final(self).wf(),
            old(self).value() is Some ==> {
                &&& r.is_some()
                &&& *r.unwrap() == old(self).value()->Some_0
                &&& final(self).value() == Some(*final(r.unwrap()))
            },
            old(self).value() is None ==> r.is_none() && final(self).value() == old(self).value(),
    ;

    /// Sets the component, replacing one that was there.
    fn set(&mut self, component: C)
        requires
            old(self).wf(),
        ensures
            final(self).wf(),
            final(self).value() == Some(component),
    ;
}

/// The container for a component that exists once in the world.
pub struct Singleton<C> {
    value: Option<C>,
}

impl<C> Singleton<C> {
    /// An empty singleton.
    pub fn new() -> (s: Self)
        ensures
            s.wf(),
            s.value() == None::<C>,
    {
        Singleton { value: None }
    }
}

impl<C> Default for Singleton<C> {
    fn default() -> (s: Self)
        ensures
            s.value() == None::<C>,
    {
        Singleton { value: None }
    }
}

impl<C> Container<C> for Singleton<C> {
    open spec fn wf(&self) -> bool {
        true
    }
}

impl<C> SingleContainer<C> for Singleton<C> {
    closed spec fn value(&self) -> Option<C> {
        self.value
    }

    fn get(&self) -> (r: Option<&C>) {
        self.value.as_ref()
    }

    fn get_mut(&mut self) -> (r: Option<&mut C>) {
        self.value.as_mut()
    }

    fn set(&mut self, component: C) {
        self.value = Some(component);
    }
}

/// A container that keeps components in a vector indexed by entity number:
/// cheap where most entities carry the component.
pub struct VecIndex<C> {
    vec: Vec<Option<C>>,
}

impl<C> VecIndex<C> {
    /// An empty container.
    pub fn new() -> (s: Self)
        ensures
            s.wf(),
            s.contents() == Map::<u32, C>::empty(),
            s.reach() == Some(0nat),
    {
        let s = VecIndex { vec: Vec::new() };
        assert(s.contents() =~= Map::<u32, C>::empty());
        s
    }
}

impl<C> Default for VecIndex<C> {
    fn default() -> (s: Self)
        ensures
            s.wf(),
            s.contents() == Map::<u32, C>::empty(),
    {
        VecIndex::new()
    }
}

impl<C> Container<C> for VecIndex<C> {
    closed spec fn wf(&self) -> bool {
        self.vec.len() <= u32::MAX + 1
    }
}

impl<C> MultiContainer<C> for VecIndex<C> {
    closed spec fn contents(&self) -> Map<u32, C> {
        Map::new(
            |k: u32| k < self.vec.len() && self.vec[k as int] is Some,
            |k: u32| self.vec[k as int]->Some_0,
        )
    }

    closed spec fn reach(&self) -> Option<nat> {
        Some(self.vec.len() as nat)
    }

    proof fn lemma_stored_within(&self, k: u32) {
    }

    fn can_get(&self, entity: Entity) -> (r: bool) {
        (entity.0 as usize) < self.vec.len()
    }

    fn get(&self, entity: Entity) -> (r: Option<&C>) {
        let index: usize = entity.0 as usize;
        self.vec[index].as_ref()
    }

    fn get_mut(&mut self, entity: Entity) -> (r: Option<&mut C>) {
        let index: usize = entity.0 as usize;
        let slot = &mut self.vec[index];
        slot.as_mut()
    }

    fn set(&mut self, entity: Entity, component: C) {
        let index: usize = entity.0 as usize;
        while self.vec.len() <= index
            invariant
                self.vec.len() == old(self).vec.len() || self.vec.len() <= index + 1,
                index == entity.0,
                forall|i: int| 0 <= i < old(self).vec.len() ==> self.vec[i] == old(self).vec[i],
                forall|i: int| old(self).vec.len() <= i < self.vec.len() ==> self.vec[i] is None,
                self.vec.len() >= old(self).vec.len(),
            decreases index + 1 - self.vec.len(),
        {
            self.vec.push(None);
        }
        self.vec.set(index, Some(component));
        assert(self.contents() =~= old(self).contents().insert(entity.0, component));
        assert(self.reach() == grown(old(self).reach(), entity));
    }

    fn entity_iter(&self) -> (r: Vec<(Entity, &C)>) {
        let mut out: Vec<(Entity, &C)> = Vec::new();
        let mut i: usize = 0;
        while i < self.vec.len()
            invariant
                i <= self.vec.len(),
                self.vec.len() <= u32::MAX + 1,
                forall|a: int, b: int| 0 <= a < b < out.len() ==> out[a].0.0 < out[b].0.0,
                forall|a: int| 0 <= a < out.len() ==> out[a].0.0 < i,
                forall|a: int| 0 <= a < out.len() ==> #[trigger] self.contents().contains_key(out[a].0.0),
                forall|a: int| 0 <= a < out.len() ==> *(#[trigger] out[a]).1 == self.contents()[out[a].0.0],
                forall|k: u32| k < i && #[trigger] self.contents().contains_key(k) ==> listed_ids(out@).contains(k),
            decreases self.vec.len() - i,
        {
            match &self.vec[i] {
                Some(c) => {
                    let ghost before = out@;
                    out.push((Entity(i as u32), c));
                    proof {
                        assert forall|k: u32| k < i + 1 && #[trigger] self.contents().contains_key(k)
                            implies listed_ids(out@).contains(k) by {
                            if k < i {
                                let a: int = choose|a: int| 0 <= a < listed_ids(before).len() && listed_ids(before)[a] == k;
                                assert(listed_ids(out@)[a] == k);
                            } else {
                                assert(listed_ids(out@)[out.len() - 1] == k);
                            }
                        }
                    }
                },
                None => {
                    proof {
                        assert forall|k: u32| k < i + 1 && #[trigger] self.contents().contains_key(k)
                            implies listed_ids(out@).contains(k) by {
                            assert(k != i);
                        }
                    }
                },
            }
            i = i + 1;
        }
        proof {
            assert forall|k: u32| #[trigger] self.contents().dom().contains(k) <==> listed_ids(out@).contains(k) by {
                if listed_ids(out@).contains(k) {
                    let a: int = choose|a: int| 0 <= a < listed_ids(out@).len() && listed_ids(out@)[a] == k;
                    assert(self.contents().contains_key(out[a].0.0));
                }
            }
        }
        out
    }

    fn iter(&self) -> (r: Vec<&C>) {
        let pairs = self.entity_iter();
        values_of(&pairs)
    }
}

/// `BTreeMap::get_mut`: the value stored under `k`, to change in place, if the
/// map holds `k`. Claimed of it: the reference starts out as the stored value,
/// and afterwards the map holds under `k` whatever was written through it and
/// is otherwise unchanged; without `k`, it returns `None` and the map stays as
/// it was.
#[verifier::external_body]
pub(crate) fn btree_get_mut<V>(map: &mut BTreeMap<u32, V>, k: u32) -> (r: Option<&mut V>)
    ensures
        old(map)@.contains_key(k) ==> {
            &&& r.is_some()
            &&& *r.unwrap() == old(map)@[k]
            &&& final(map)@ == old(map)@.insert(k, *final(r.unwrap()))
        },
        !old(map)@.contains_key(k) ==> r.is_none() && final(map)@ == old(map)@,
{
    map.get_mut(&k)
}

/// A container that keeps components in an ordered map keyed by entity number:
/// cheap where few entities carry the component.
pub struct BTreeComponentMap<C> {
    map: BTreeMap<u32, C>,
}

impl<C> BTreeComponentMap<C> {
    /// An empty container.
    pub fn new() -> (s: Self)
        ensures
            s.wf(),
            s.contents() == Map::<u32, C>::empty(),
    {
        BTreeComponentMap { map: BTreeMap::new() }
    }
}

impl<C> Default for BTreeComponentMap<C> {
    fn default() -> (s: Self)
        ensures
            s.wf(),
            s.contents() == Map::<u32, C>::empty(),
    {
        BTreeComponentMap::new()
    }
}

impl<C> Container<C> for BTreeComponentMap<C> {
    open spec fn wf(&self) -> bool {
        true
    }
}

impl<C> MultiContainer<C> for BTreeComponentMap<C> {
    closed spec fn contents(&self) -> Map<u32, C> {
        self.map@
    }

    open spec fn reach(&self) -> Option<nat> {
        None
    }

    proof fn lemma_stored_within(&self, k: u32) {
    }

    fn can_get(&self, entity: Entity) -> (r: bool) {
        true
    }

    fn get(&self, entity: Entity) -> (r: Option<&C>) {
        self.map.get(&entity.0)
    }

    fn get_mut(&mut self, entity: Entity) -> (r: Option<&mut C>) {
        btree_get_mut(&mut self.map, entity.0)
    }

    fn set(&mut self, entity: Entity, component: C) {
        self.map.insert(entity.0, component);
    }

    fn entity_iter(&self) -> (r: Vec<(Entity, &C)>) {
        let mut out: Vec<(Entity, &C)> = Vec::new();
        let it0 = self.map.iter();
        let ghost full = it0.remaining();
        proof {
            assert(vstd::std_specs::btree::key_obeys_cmp_spec::<u32>());
        }
        for kv in it: it0
            invariant
                it.seq() == full,
                out.len() == it.index(),
                forall|i: int| 0 <= i < out.len() ==> (#[trigger] out[i]).0.0 == *full[i].0 && out[i].1 == full[i].1,
        {
            out.push((Entity(*kv.0), kv.1));
        }
        proof {
            let ks = full.map_values(|kv: (&u32, &C)| *kv.0);
            lemma_increasing_keys(ks);
            assert forall|i: int| 0 <= i < out.len() implies listed_ids(out@)[i] == ks[i] by {}
            assert(listed_ids(out@) =~= ks);
            assert forall|k: u32| #[trigger] self.map@.dom().contains(k) <==> listed_ids(out@).contains(k) by {
                if self.map@.contains_key(k) {
                    assert(full.contains((&k, &self.map@[k])));
                    let i: int = choose|i: int| 0 <= i < full.len() && full[i] == (&k, &self.map@[k]);
                    assert(listed_ids(out@)[i] == k);
                }
                if listed_ids(out@).contains(k) {
                    let i: int = choose|i: int| 0 <= i < out.len() && listed_ids(out@)[i] == k;
                    assert(self.map@.contains_key(*full[i].0));
                }
            }
            assert forall|i: int| 0 <= i < out.len() implies *(#[trigger] out[i]).1 == self.map@[out[i].0.0] by {
                assert(self.map@.contains_key(*full[i].0) && self.map@[*full[i].0] == *full[i].1);
            }
        }
        out
    }

    fn iter(&self) -> (r: Vec<&C>) {
        let pairs = self.entity_iter();
        values_of(&pairs)
    }
}

/// The components of a listing, in its order.
fn values_of<'a, C>(pairs: &Vec<(Entity, &'a C)>) -> (r: Vec<&'a C>)
    ensures
        r.len() == pairs.len(),
        forall|i: int| 0 <= i < r.len() ==> r[i] == pairs[i].1,
{
    let mut out: Vec<&'a C> = Vec::new();
    let mut i: usize = 0;
    while i < pairs.len()
        invariant
            i <= pairs.len(),
            out.len() == i,
            forall|a: int| 0 <= a < i ==> out[a] == pairs[a].1,
        decreases pairs.len() - i,
    {
        out.push(pairs[i].1);
        i = i + 1;
    }
    out
}

} // verus!
