use wasmgame::ecs::containers::{BTreeComponentMap, MultiContainer, SingleContainer, Singleton, VecIndex};
use wasmgame::ecs::runner::{Runner, System};
use wasmgame::ecs::views::{Global, Joiner, PerEntity, Selector};
use wasmgame::ecs::world::{ContainerKind, World};
use wasmgame::ecs::{Component, ComponentId, Entity};

#[derive(Clone, Copy, PartialEq, Eq, Debug)]
enum TestComponent {
    A(usize),
    B(usize),
    C(usize),
    Global(usize),
}

const A: ComponentId = ComponentId(1);
const B: ComponentId = ComponentId(2);
const C: ComponentId = ComponentId(3);
const G: ComponentId = ComponentId(4);

impl Component for TestComponent {
    fn component_id(&self) -> ComponentId {
        match self {
            TestComponent::A(_) => A,
            TestComponent::B(_) => B,
            TestComponent::C(_) => C,
            TestComponent::Global(_) => G,
        }
    }
}

fn value(c: &TestComponent) -> usize {
    match c {
        TestComponent::A(x) | TestComponent::B(x) | TestComponent::C(x) | TestComponent::Global(x) => *x,
    }
}

enum TestSystem {
    A,
    B,
    C,
}

impl System<TestComponent> for TestSystem {
    fn exec(&mut self, world: &mut World<TestComponent>) {
        match self {
            TestSystem::A => {
                let mut it = PerEntity::build(world, A).iter_mut();
                while let Some(c) = it.next(world) {
                    *c = TestComponent::A(value(c) + 1);
                }
            }
            TestSystem::B => {
                let g = value(Global::build(world, G).get());
                let mut updates = Vec::new();
                {
                    let pa = PerEntity::build(world, A);
                    let pb = PerEntity::build(world, B);
                    let mut it = (&pa, &pb).join();
                    while let Some((e, a, b)) = it.next() {
                        updates.push((e, value(a) + value(b) + g));
                    }
                }
                for (e, v) in updates {
                    world.set_component(A, e, TestComponent::A(v));
                }
                world.update_components(B, |_e, c| TestComponent::B(value(c) * 2));
            }
            TestSystem::C => {
                let mut updates = Vec::new();
                {
                    let pa = PerEntity::build(world, A);
                    let pb = PerEntity::build(world, B);
                    let pc = PerEntity::build(world, C);
                    let mut it = (&pa, &pb, &pc).join();
                    while let Some((e, a, b, c)) = it.next() {
                        updates.push((e, value(a) + value(b) * value(c)));
                    }
                }
                for (e, v) in updates {
                    world.set_component(A, e, TestComponent::A(v));
                }
            }
        }
    }
}

#[test]
fn test_lookup() {
    let mut world = World::new();
    world.register_component(G, ContainerKind::Singleton);
    world.register_component(A, ContainerKind::VecIndex);
    world.register_component(B, ContainerKind::BTreeMap);
    world.register_component(C, ContainerKind::BTreeMap);
    let mut r = Runner::new();
    r.register_system(TestSystem::A);
    r.register_system(TestSystem::B);
    r.register_system(TestSystem::C);

    world.set_global(G, TestComponent::Global(3));
    let e1 = world.add_entity();
    world.set_component(A, e1, TestComponent::A(1000));
    world.set_component(B, e1, TestComponent::B(100));
    world.set_component(C, e1, TestComponent::C(10000));
    let e2 = world.add_entity();
    world.set_component(A, e2, TestComponent::A(2000));
    world.set_component(B, e2, TestComponent::B(200));
    let e3 = world.add_entity();
    world.set_component(A, e3, TestComponent::A(3000));

    assert_eq!(e3, Entity(3));

    r.exec(&mut world);

    assert_eq!(world.get_component(A, e1), Some(&TestComponent::A(2001104)));
    assert_eq!(world.get_component(A, e2), Some(&TestComponent::A(2204)));
    assert_eq!(world.get_component(A, e3), Some(&TestComponent::A(3001)));
    assert_eq!(world.get_component(B, e1), Some(&TestComponent::B(200)));
    assert_eq!(world.get_component(B, e2), Some(&TestComponent::B(400)));
    assert_eq!(world.get_component(B, e3), None);
}

#[test]
fn entities_are_numbered_from_one() {
    let mut world: World<TestComponent> = World::new();
    assert_eq!(world.add_entity(), Entity(1));
    assert_eq!(world.add_entity(), Entity(2));
    assert_eq!(world.add_entity(), Entity(3));
}

#[test]
fn read_after_write_leaves_others_alone() {
    let mut world = World::new();
    world.register_component(A, ContainerKind::VecIndex);
    world.register_component(B, ContainerKind::BTreeMap);
    let e1 = world.add_entity();
    let e2 = world.add_entity();
    world.set_component(A, e1, TestComponent::A(7));
    world.set_component(B, e2, TestComponent::B(8));
    world.set_component(A, e1, TestComponent::A(9));
    assert_eq!(world.get_component(A, e1), Some(&TestComponent::A(9)));
    assert!(world.can_get_component(A, e1));
    assert!(!world.can_get_component(A, e2));
    assert!(world.can_get_component(B, e1));
    assert_eq!(world.get_component(B, e2), Some(&TestComponent::B(8)));
    assert_eq!(world.get_component(B, e1), None);
}

#[test]
fn unregistered_and_mismatched_kinds_read_as_none() {
    let mut world = World::new();
    world.register_component(G, ContainerKind::Singleton);
    world.register_component(A, ContainerKind::VecIndex);
    let e = world.add_entity();
    world.set_component(A, e, TestComponent::A(1));
    assert_eq!(world.get_component(C, e), None);
    assert_eq!(world.get_global(C), None);
    assert_eq!(world.get_global(G), None);
    assert_eq!(world.get_global(A), None);
    assert_eq!(world.get_component(G, e), None);
    world.set_global(G, TestComponent::Global(5));
    assert_eq!(world.get_global(G), Some(&TestComponent::Global(5)));
    world.set_global(G, TestComponent::Global(6));
    assert_eq!(world.get_global(G), Some(&TestComponent::Global(6)));
}

#[test]
fn registering_twice_keeps_contents() {
    let mut world = World::new();
    world.register_component(A, ContainerKind::VecIndex);
    let e = world.add_entity();
    world.set_component(A, e, TestComponent::A(42));
    world.register_component(A, ContainerKind::BTreeMap);
    world.register_component(A, ContainerKind::Singleton);
    assert_eq!(world.get_component(A, e), Some(&TestComponent::A(42)));
}

#[test]
fn vec_index_and_btree_map_list_alike() {
    let mut v: VecIndex<u8> = VecIndex::new();
    let mut m: BTreeComponentMap<u8> = BTreeComponentMap::new();
    for (e, c) in [(5u32, 50u8), (2, 20), (9, 90), (2, 21)] {
        v.set(Entity(e), c);
        m.set(Entity(e), c);
    }
    let lv: Vec<(Entity, u8)> = v.entity_iter().into_iter().map(|(e, c)| (e, *c)).collect();
    let lm: Vec<(Entity, u8)> = m.entity_iter().into_iter().map(|(e, c)| (e, *c)).collect();
    assert_eq!(lv, vec![(Entity(2), 21), (Entity(5), 50), (Entity(9), 90)]);
    assert_eq!(lv, lm);
    let values: Vec<u8> = v.iter().into_iter().copied().collect();
    assert_eq!(values, vec![21, 50, 90]);
    assert_eq!(v.get(Entity(3)), None);
    assert!(v.can_get(Entity(9)));
    assert!(!v.can_get(Entity(10)));
    assert!(!v.can_get(Entity(100)));
    assert!(m.can_get(Entity(100)));
    assert_eq!(m.get(Entity(100)), None);
    assert_eq!(m.get(Entity(9)), Some(&90));
}

#[test]
fn singleton_holds_the_last_value() {
    let mut s: Singleton<i32> = Singleton::new();
    assert_eq!(s.get(), None);
    s.set(1);
    s.set(2);
    assert_eq!(s.get(), Some(&2));
}

#[test]
fn join_keeps_entities_in_every_view() {
    let mut world = World::new();
    world.register_component(A, ContainerKind::VecIndex);
    world.register_component(B, ContainerKind::BTreeMap);
    world.register_component(C, ContainerKind::BTreeMap);
    let es: Vec<Entity> = (0..5).map(|_| world.add_entity()).collect();
    for e in &es {
        world.set_component(A, *e, TestComponent::A(e.0 as usize));
    }
    world.set_component(B, es[3], TestComponent::B(30));
    world.set_component(B, es[1], TestComponent::B(10));
    world.set_component(C, es[3], TestComponent::C(300));
    let pa = PerEntity::new(&world, A);
    let pb = PerEntity::new(&world, B);
    let pc = PerEntity::new(&world, C);
    let mut it = (&pa, &pb).join();
    assert_eq!(it.next(), None);
    assert_eq!(it.next(), Some((es[1], &TestComponent::A(2), &TestComponent::B(10))));
    assert_eq!(it.next(), None);
    assert_eq!(it.next(), Some((es[3], &TestComponent::A(4), &TestComponent::B(30))));
    assert_eq!(it.next(), None);
    assert_eq!(it.next(), None);
    let mut it3 = (&pa, &pb, &pc).join();
    assert_eq!(it3.next(), None);
    assert_eq!(it3.next(), None);
    assert_eq!(it3.next(), None);
    assert_eq!(it3.next(), Some((es[3], &TestComponent::A(4), &TestComponent::B(30), &TestComponent::C(300))));
    assert_eq!(it3.next(), None);
    assert_eq!(it3.next(), None);
    let mut values = pb.iter();
    assert_eq!(values.next(), Some(&TestComponent::B(10)));
    assert_eq!(values.next(), Some(&TestComponent::B(30)));
    assert_eq!(values.next(), None);
    let mut pairs = pb.entities();
    assert_eq!(pairs.next(), Some((es[1], &TestComponent::B(10))));
}

struct Counter(u32);

impl System<Vec<u32>> for Counter {
    fn exec(&mut self, world: &mut World<Vec<u32>>) {
        self.0 += 1;
        let n = self.0;
        world.update_components(ComponentId(1), move |_e, log| {
            let mut log = log.clone();
            log.push(n);
            log
        });
    }
}

#[test]
fn runner_runs_systems_in_order() {
    let mut world: World<Vec<u32>> = World::new();
    world.register_component(ComponentId(1), ContainerKind::BTreeMap);
    let e = world.add_entity();
    world.set_component(ComponentId(1), e, Vec::new());
    let mut r = Runner::new();
    r.register_system(Counter(10));
    r.register_system(Counter(20));
    r.exec(&mut world);
    r.exec(&mut world);
    assert_eq!(world.get_component(ComponentId(1), e), Some(&vec![11, 21, 12, 22]));
}

#[test]
fn component_ids_follow_the_value() {
    assert_eq!(TestComponent::B(1).component_id(), B);
}

#[test]
fn components_change_in_place() {
    let mut world = World::new();
    world.register_component(A, ContainerKind::VecIndex);
    world.register_component(B, ContainerKind::BTreeMap);
    world.register_component(G, ContainerKind::Singleton);
    let e = world.add_entity();
    world.set_component(A, e, TestComponent::A(1));
    world.set_component(B, e, TestComponent::B(2));
    if let Some(c) = world.get_component_mut(A, e) {
        *c = TestComponent::A(10);
    }
    if let Some(c) = world.get_component_mut(B, e) {
        *c = TestComponent::B(20);
    }
    assert!(world.get_component_mut(C, e).is_none());
    assert!(!world.can_get_component(A, Entity(9)));
    assert!(world.get_component_mut(B, Entity(9)).is_none());
    assert!(world.get_global_mut(G).is_none());
    world.set_global(G, TestComponent::Global(1));
    *world.get_global_mut(G).unwrap() = TestComponent::Global(2);
    assert_eq!(world.get_component(A, e), Some(&TestComponent::A(10)));
    assert_eq!(world.get_component(B, e), Some(&TestComponent::B(20)));
    assert_eq!(world.get_global(G), Some(&TestComponent::Global(2)));
}

#[test]
fn containers_change_in_place() {
    let mut v: VecIndex<u8> = VecIndex::new();
    let mut m: BTreeComponentMap<u8> = BTreeComponentMap::new();
    let mut s: Singleton<u8> = Singleton::new();
    v.set(Entity(3), 1);
    m.set(Entity(3), 1);
    s.set(1);
    *v.get_mut(Entity(3)).unwrap() += 1;
    *m.get_mut(Entity(3)).unwrap() += 2;
    *s.get_mut().unwrap() += 3;
    assert!(v.get_mut(Entity(2)).is_none());
    assert!(m.get_mut(Entity(2)).is_none());
    assert_eq!(v.get(Entity(3)), Some(&2));
    assert_eq!(m.get(Entity(3)), Some(&3));
    assert_eq!(s.get(), Some(&4));
}

#[test]
fn join_stops_a_for_loop_at_the_first_entity_missing_a_component() {
    let mut world = World::new();
    world.register_component(A, ContainerKind::BTreeMap);
    world.register_component(B, ContainerKind::BTreeMap);
    let es: Vec<Entity> = (0..3).map(|_| world.add_entity()).collect();
    for e in &es {
        world.set_component(A, *e, TestComponent::A(e.0 as usize));
    }
    world.set_component(B, es[0], TestComponent::B(1));
    world.set_component(B, es[2], TestComponent::B(3));
    let pa = PerEntity::new(&world, A);
    let pb = PerEntity::new(&world, B);
    let mut seen = Vec::new();
    let mut it = (&pa, &pb).join();
    while let Some((e, _, _)) = it.next() {
        seen.push(e);
    }
    assert_eq!(seen, vec![es[0]]);
}

#[test]
fn writes_through_iter_mut_are_read_back() {
    let mut world = World::new();
    world.register_component(A, ContainerKind::VecIndex);
    world.register_component(B, ContainerKind::BTreeMap);
    let es: Vec<Entity> = (0..3).map(|_| world.add_entity()).collect();
    world.set_component(A, es[2], TestComponent::A(30));
    world.set_component(A, es[0], TestComponent::A(10));
    world.set_component(B, es[1], TestComponent::B(2));
    let mut it = PerEntity::build(&world, A).iter_mut();
    let mut order = Vec::new();
    while let Some(c) = it.next(&mut world) {
        order.push(value(c));
        *c = TestComponent::A(value(c) + 1);
    }
    assert_eq!(order, vec![10, 30]);
    assert!(it.next(&mut world).is_none());
    assert_eq!(world.get_component(A, es[0]), Some(&TestComponent::A(11)));
    assert_eq!(world.get_component(A, es[1]), None);
    assert_eq!(world.get_component(A, es[2]), Some(&TestComponent::A(31)));
    assert_eq!(world.get_component(B, es[1]), Some(&TestComponent::B(2)));
    let mut pairs = PerEntity::build(&world, B).entities_mut();
    let (e, c) = pairs.next(&mut world).unwrap();
    assert_eq!(e, es[1]);
    *c = TestComponent::B(5);
    assert!(pairs.next(&mut world).is_none());
    assert_eq!(world.get_component(B, es[1]), Some(&TestComponent::B(5)));
}
