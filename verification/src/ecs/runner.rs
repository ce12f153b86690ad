//! Systems, and the runner that executes them in the order they were registered.
use vstd::prelude::*;

use crate::ecs::world::{World, WorldModel};
use crate::ecs::ComponentId;

verus! {

/// A system: work done on the world once per frame.
pub trait System<V>: Sized {
    /// Running `self` on a world `before` may leave the world `after` and the
    /// system `next`. A system that states nothing of its work leaves this
    /// open.
    open spec fn runs(&self, before: WorldModel<V>, after: WorldModel<V>, next: Self) -> bool {
        true
    }

    /// The kinds of component, kept per entity, that the system reads or
    /// changes; none unless the system says so.
    open spec fn per_entity_kinds(&self) -> Set<ComponentId> {
        Set::empty()
    }

    /// The global kinds of component that the system reads or changes; none
    /// unless the system says so.
    open spec fn global_kinds(&self) -> Set<ComponentId> {
        Set::empty()
    }

    /// Does the system's work on `world`, whose kinds of component include
    /// every kind the system needs. A system registers kinds at most; it
    /// leaves every kind registered as it found it.
    fn exec(&mut self, world: &mut World<V>)
        requires
            old(world).wf(),
            forall|id: ComponentId| #[trigger] old(self).per_entity_kinds().contains(id) ==> old(world)@.is_per_entity(id),
            forall|id: ComponentId| #[trigger] old(self).global_kinds().contains(id) ==> old(world)@.is_global(id),
        ensures
            final(world).wf(),
            keeps_registrations(old(world)@, final(world)@),
            old(self).runs(old(world)@, final(world)@, *final(self)),
    ;
}

/// Every kind that `system` needs is registered in `world`, per entity or
/// global as the system needs it.
pub open spec fn ready_for<V, S: System<V>>(system: S, world: WorldModel<V>) -> bool {
    &&& forall|id: ComponentId| #[trigger] system.per_entity_kinds().contains(id) ==> world.is_per_entity(id)
    &&& forall|id: ComponentId| #[trigger] system.global_kinds().contains(id) ==> world.is_global(id)
}

/// Every kind registered in `before` is still registered in `after`, per
/// entity or global as it was.
pub open spec fn keeps_registrations<V>(before: WorldModel<V>, after: WorldModel<V>) -> bool {
    &&& forall|id: ComponentId| #[trigger] before.is_per_entity(id) ==> after.is_per_entity(id)
    &&& forall|id: ComponentId| #[trigger] before.is_global(id) ==> after.is_global(id)
}

/// A system ready for a world is ready for every world that keeps its registrations.
pub proof fn lemma_ready_kept<V, S: System<V>>(system: S, before: WorldModel<V>, after: WorldModel<V>)
    requires
        ready_for(system, before),
        keeps_registrations(before, after),
    ensures
        ready_for(system, after),
{
}

/// The systems of a game, in the order they were registered.
pub struct Runner<S> {
    systems: Vec<S>,
}

/// `worlds` is a trace of running `before` one after the other, each system
/// `before[i]` turning `worlds[i]` into `worlds[i + 1]` and becoming `after[i]`.
pub open spec fn runs_in_order<V, S: System<V>>(
    before: Seq<S>,
    after: Seq<S>,
    worlds: Seq<WorldModel<V>>,
) -> bool {
    &&& after.len() == before.len()
    &&& worlds.len() == before.len() + 1
    &&& forall|i: int| 0 <= i < before.len() ==> (#[trigger] before[i]).runs(worlds[i], worlds[i + 1], after[i])
}

impl<S> Runner<S> {
    /// The registered systems, in order.
    pub closed spec fn systems(&self) -> Seq<S> {
        self.systems@
    }

    /// A runner with no systems.
    pub fn new() -> (r: Self)
        ensures
            r.systems() == Seq::<S>::empty(),
    {
        Runner { systems: Vec::new() }
    }

    /// Adds `system` after the ones registered so far.
    pub fn register_system(&mut self, system: S)
        ensures
            final(self).systems() == old(self).systems().push(system),
    {
        self.systems.push(system);
    }

    /// Runs every registered system once on `world`, in the order of
    /// registration; every kind a system needs must be registered.
    pub fn exec<V>(&mut self, world: &mut World<V>)
        where
            S: System<V>,
        requires
            old(world).wf(),
            forall|i: int| 0 <= i < old(self).systems().len() ==> ready_for(#[trigger] old(self).systems()[i], old(world)@),
        ensures
            final(world).wf(),
            keeps_registrations(old(world)@, final(world)@),
            exists|worlds: Seq<WorldModel<V>>|
                {
                    &&& runs_in_order(old(self).systems(), final(self).systems(), worlds)
                    &&& #[trigger] worlds[0] == old(world)@
                    &&& worlds[worlds.len() - 1] == final(world)@
                },
    {
        let ghost mut worlds: Seq<WorldModel<V>> = seq![world@];
        let mut i: usize = 0;
        assert forall|j: int| 0 <= j < self.systems.len() implies ready_for(#[trigger] self.systems[j], world@) by {
            assert(self.systems[j] == old(self).systems()[j]);
        }
        while i < self.systems.len()
            invariant
                i <= self.systems.len(),
                self.systems.len() == old(self).systems.len(),
                world.wf(),
                worlds.len() == i + 1,
                worlds[0] == old(world)@,
                worlds[i as int] == world@,
                keeps_registrations(old(world)@, world@),
                forall|j: int| i <= j < self.systems.len() ==> ready_for(#[trigger] self.systems[j], world@),
                forall|j: int| i <= j < self.systems.len() ==> self.systems[j] == old(self).systems[j],
                forall|j: int| 0 <= j < i ==> (#[trigger] old(self).systems[j]).runs(worlds[j], worlds[j + 1], self.systems[j]),
            decreases self.systems.len() - i,
        {
            let ghost w0 = world@;
            self.systems[i].exec(world);
            proof {
                worlds = worlds.push(world@);
                assert forall|j: int| i < j < self.systems.len() implies ready_for(#[trigger] self.systems[j], world@) by {
                    lemma_ready_kept(self.systems[j], w0, world@);
                }
            }
            i = i + 1;
        }
        assert(runs_in_order(old(self).systems(), self.systems(), worlds));
    }
}

} // verus!
