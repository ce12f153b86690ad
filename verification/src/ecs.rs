//! A small entity-component-system: entities are numbered, each kind of
//! component lives in a container of its own, and systems run over them.
use vstd::prelude::*;

pub mod containers;
pub mod order;
pub mod world;
pub mod views;
pub mod runner;
pub mod laws;

verus! {

/// An entity: a number handed out by the world, starting at 1.
#[derive(Copy, Clone, Hash, Ord, PartialOrd, Eq, PartialEq, Structural, Debug)]
pub struct Entity(pub u32);

/// The identity of a kind of component. The application gives each kind of
/// component a number of its own.
#[derive(Copy, Clone, Hash, Ord, PartialOrd, Eq, PartialEq, Structural, Debug)]
pub struct ComponentId(pub u32);

/// A value that the world keeps: it tells which kind of component it is.
pub trait Component {
    /// The kind of component that `self` is.
    fn component_id(&self) -> ComponentId;
}

/// The numbers of a sequence of entities.
pub open spec fn entity_ids(s: Seq<Entity>) -> Seq<u32> {
    s.map_values(|e: Entity| e.0)
}

/// Every number in `s` is smaller than the ones after it.
pub open spec fn strictly_increasing(s: Seq<u32>) -> bool {
    forall|i: int, j: int| 0 <= i < j < s.len() ==> s[i] < s[j]
}

/// `s` names each number of `dom` once, in increasing order, and nothing else.
pub open spec fn enumerates(s: Seq<u32>, dom: Set<u32>) -> bool {
    &&& strictly_increasing(s)
    &&& forall|k: u32| #[trigger] dom.contains(k) <==> s.contains(k)
}

} // verus!
