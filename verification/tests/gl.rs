use wasmgame::gl::{BindingTracker, ObjectIds, ShaderType, UniformBinding, UniformIndex};

#[test]
fn object_ids_start_at_one_and_increase() {
    let mut ids = ObjectIds::new();
    assert!(ids.can_hand_out());
    assert_eq!(ids.next_object_id(), 1);
    assert_eq!(ids.next_object_id(), 2);
    assert_eq!(ids.next_object_id(), 3);
}

#[test]
fn binding_tracker_follows_bind_and_unbind() {
    let mut t = BindingTracker::new();
    assert_eq!(t.bound_id(), 0);
    t.assert_unbound(7);
    t.assert_unbound_then_bind(7);
    assert_eq!(t.bound_id(), 7);
    t.assert_bound(7);
    t.assert_unbound(8);
    t.assert_bound_then_unbind(7);
    assert_eq!(t.bound_id(), 0);
    t.assert_unbound_then_bind(8);
    assert_eq!(t.bound_id(), 8);
}

#[test]
fn uniform_binding_keeps_its_index() {
    assert_eq!(UniformBinding::new(0).0, 0);
    assert_eq!(UniformBinding::new(47).0, 47);
    assert_eq!(UniformIndex(3).0, 3);
    assert_ne!(ShaderType::Vertex, ShaderType::Fragment);
}

use wasmgame::gl::{AttribPointer, Attribute};

#[test]
fn attribute_locations_are_consecutive() {
    assert_eq!(Attribute(4, 4).locations(), vec![4, 5, 6, 7]);
    assert_eq!(Attribute(1, 1).locations(), vec![1]);
}

#[test]
fn mat4_attribute_reads_one_column_per_location() {
    let p = Attribute(8, 4).mat4_pointers();
    assert_eq!(p.len(), 4);
    assert_eq!(p[0], AttribPointer { index: 8, size: 4, stride: 64, offset: 0 });
    assert_eq!(p[3], AttribPointer { index: 11, size: 4, stride: 64, offset: 48 });
    assert_eq!(Attribute(0, 1).vec3_pointer(6, 3), AttribPointer { index: 0, size: 3, stride: 24, offset: 12 });
}
