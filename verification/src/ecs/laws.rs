//! What holds of the world and its containers across operations.
use vstd::prelude::*;

use crate::ecs::world::{registered, with_component, with_global, ContainerKind, Slot, WorldModel};
use crate::ecs::{enumerates, ComponentId, Entity};

verus! {

/// Two listings of the same entity numbers, each in increasing order, are the
/// same listing: every per-entity container, whatever its kind, lists what it
/// holds in one and the same order.
#[verifier::spinoff_prover]
pub proof fn law_listing_unique(s1: Seq<u32>, s2: Seq<u32>, dom: Set<u32>)
    requires
        enumerates(s1, dom),
        enumerates(s2, dom),
    ensures
        s1 == s2,
    decreases s1.len(),
{
    if s1.len() == 0 {
        if s2.len() > 0 {
            assert(s2.contains(s2[0]));
            assert(dom.contains(s2[0]));
            assert(s1.contains(s2[0]));
        }
        assert(s1 =~= s2);
    } else {
        assert(s1.contains(s1[0]));
        assert(dom.contains(s1[0]));
        assert(s2.contains(s1[0]));
        assert(s2.len() > 0);
        assert(s2.contains(s2[0]));
        assert(dom.contains(s2[0]));
        assert(s1.contains(s2[0]));
        let a: int = choose|j: int| 0 <= j < s1.len() && s1[j] == s2[0];
        let b: int = choose|j: int| 0 <= j < s2.len() && s2[j] == s1[0];
        if a > 0 {
            assert(s1[0] < s1[a]);
        }
        if b > 0 {
            assert(s2[0] < s2[b]);
        }
        assert(s1[0] == s2[0]);
        let m: u32 = s1[0];
        let d = dom.remove(m);
        let t1 = s1.drop_first();
        let t2 = s2.drop_first();
        assert forall|k: u32| #[trigger] d.contains(k) <==> t1.contains(k) by {
            if t1.contains(k) {
                let j: int = choose|j: int| 0 <= j < t1.len() && t1[j] == k;
                assert(s1[j + 1] == k);
                assert(s1.contains(k));
                assert(s1[0] < s1[j + 1]);
            }
            if d.contains(k) {
                assert(s1.contains(k));
                let j: int = choose|j: int| 0 <= j < s1.len() && s1[j] == k;
                assert(j != 0);
                assert(t1[j - 1] == k);
            }
        }
        assert forall|k: u32| #[trigger] d.contains(k) <==> t2.contains(k) by {
            if t2.contains(k) {
                let j: int = choose|j: int| 0 <= j < t2.len() && t2[j] == k;
                assert(s2[j + 1] == k);
                assert(s2.contains(k));
                assert(s2[0] < s2[j + 1]);
            }
            if d.contains(k) {
                assert(s2.contains(k));
                let j: int = choose|j: int| 0 <= j < s2.len() && s2[j] == k;
                assert(j != 0);
                assert(t2[j - 1] == k);
            }
        }
        law_listing_unique(t1, t2, d);
        assert(s1 =~= s2) by {
            assert forall|i: int| 0 <= i < s1.len() implies s1[i] == s2[i] by {
                if i > 0 {
                    assert(s1[i] == t1[i - 1]);
                    assert(s2[i] == t2[i - 1]);
                    assert(t1[i - 1] == t2[i - 1]);
                }
            }
        }
    }
}

/// Reading a component gives back what was last set for it, and setting one
/// component leaves every other component, and every global, as it was.
pub proof fn law_component_read_after_write<V>(
    before: WorldModel<V>,
    id: ComponentId,
    entity: Entity,
    component: V,
    other_id: ComponentId,
    other_entity: Entity,
)
    requires
        before.is_per_entity(id),
    ensures
        ({
            let after = WorldModel { entities: before.entities, components: with_component(before, id, entity, component) };
            &&& after.component(id, entity) == Some(component)
            &&& (other_id != id || other_entity != entity) ==> after.component(other_id, other_entity)
                == before.component(other_id, other_entity)
            &&& after.global(other_id) == before.global(other_id)
            &&& after.components.dom() == before.components.dom()
        }),
{
    let after = WorldModel { entities: before.entities, components: with_component(before, id, entity, component) };
    assert(after.components.dom() =~= before.components.dom());
}

/// Setting a component takes away no entity that a kind may be asked about:
/// a cursor handing out the components of a kind, one after the other, can be
/// driven to its end.
pub proof fn law_write_keeps_readable<V>(
    before: WorldModel<V>,
    id: ComponentId,
    entity: Entity,
    component: V,
    other_id: ComponentId,
    other_entity: Entity,
)
    requires
        before.is_per_entity(id),
        before.readable(other_id, other_entity),
    ensures
        (WorldModel { entities: before.entities, components: with_component(before, id, entity, component) }).readable(
            other_id,
            other_entity,
        ),
{
}

/// Reading a global gives back what was last set for it, and setting one global
/// leaves every other global, and every per-entity component, as it was.
pub proof fn law_global_read_after_write<V>(
    before: WorldModel<V>,
    id: ComponentId,
    component: V,
    other_id: ComponentId,
    other_entity: Entity,
)
    requires
        before.is_global(id),
    ensures
        ({
            let after = WorldModel { entities: before.entities, components: with_global(before, id, component) };
            &&& after.global(id) == Some(component)
            &&& other_id != id ==> after.global(other_id) == before.global(other_id)
            &&& after.component(other_id, other_entity) == before.component(other_id, other_entity)
            &&& after.components.dom() == before.components.dom()
        }),
{
    let after = WorldModel { entities: before.entities, components: with_global(before, id, component) };
    assert(after.components.dom() =~= before.components.dom());
}

/// Registering a kind of component that is registered already changes
/// nothing, whatever container kind is asked for the second time; and
/// registering never takes away what another kind holds.
pub proof fn law_register_idempotent<V>(
    components: Map<u32, Slot<V>>,
    id: ComponentId,
    first: ContainerKind,
    second: ContainerKind,
    other: u32,
)
    ensures
        registered(registered(components, id, first), id, second) == registered(components, id, first),
        components.contains_key(other) ==> registered(components, id, first).contains_key(other)
            && registered(components, id, first)[other] == components[other],
{
}

} // verus!
