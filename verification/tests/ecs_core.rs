//! Entity lifecycle, component storage and kind bookkeeping.

use dragon::component::{Component, ComponentManager, ComponentStorage, ComponentStoreProto};
use dragon::entity::EntityStore;

const KEY_A: u64 = 1;
const KEY_B: u64 = 2;

struct A {}
struct B {}

impl Component for A {
    fn dense() -> bool {
        true
    }
}

impl Component for B {}

enum Val {
    A(A),
    B(B),
    Num(i32),
}

#[test]
fn test_component_store() {
    let mut m = ComponentManager::new();
    let mut s: ComponentStoreProto<Val> = ComponentStoreProto::new();
    let mut e = EntityStore::new(10);
    let c_a_id = m.register_component(KEY_A);
    s.register(KEY_A, A::dense(), 10, c_a_id);
    let c_b_id = m.register_component(KEY_B);
    s.register(KEY_B, B::dense(), 10, c_b_id);
    let entity_id = e.create_entity();
    let entity = e.get_mut(entity_id).unwrap();
    let a = A {};
    let b = B {};
    {
        let c_a = s.get_dense_mut(KEY_A);
        c_a.insert(entity, Val::A(a));
    }
    {
        let c_b = s.get_mut(KEY_B);
        c_b.insert(entity, Val::B(b));
    }
    {
        let c_a = s.get_dense_mut(KEY_A);
        let _ = c_a.get_mut(entity);
    }
    {
        let c_b = s.get_mut(KEY_B);
        let _ = c_b.get_mut(entity);
    }
}

#[test]
fn entity_ids_unique_across_create_and_remove() {
    let mut e = EntityStore::new(4);
    let mut ids = Vec::new();
    for _ in 0..6 {
        ids.push(e.create_entity());
    }
    e.remove(2);
    e.remove(4);
    ids.retain(|&i| i != 2 && i != 4);
    ids.push(e.create_entity());
    ids.push(e.create_entity());
    ids.push(e.create_entity());
    // All nine created, two removed, three more created: every live id is
    // distinct.
    let mut seen = std::collections::HashSet::new();
    for &i in &ids {
        assert!(seen.insert(i), "duplicate live id {}", i);
        assert!(e.get(i).is_some());
    }
    assert_eq!(e.count(), ids.len());
}

#[test]
fn free_list_reuse_returns_old_id_reset() {
    let mut e = EntityStore::new(4);
    let _zero = e.create_entity();
    let first = e.create_entity();
    let second = e.create_entity();
    assert_eq!(first, 1);
    assert_eq!(second, 2);
    // Give the doomed entity a mask and a slot index, then remove it.
    e.get_mut(first).unwrap().set_component(3, 7);
    e.remove(first);
    assert!(e.get(first).is_none());
    let reused = e.create_entity();
    assert_eq!(reused, first);
    let rec = e.get(reused).unwrap();
    assert_eq!(rec.components, 0);
    assert_eq!(rec.indices[3], 0);
}

#[test]
fn manager_assigns_doubling_codes_idempotently() {
    let mut m = ComponentManager::new();
    assert_eq!(m.register_component(10), 1);
    assert_eq!(m.register_component(11), 2);
    assert_eq!(m.register_component(12), 4);
    assert_eq!(m.register_component(11), 2);
    assert_eq!(m.get_code(12).copied(), Some(4));
    assert!(m.get_code(99).is_none());
    m.reset();
    assert!(m.get_code(10).is_none());
    assert_eq!(m.register_component(12), 1);
}

#[test]
fn mask_round_trip_sparse() {
    let mut m = ComponentManager::new();
    let mut s: ComponentStoreProto<Val> = ComponentStoreProto::new();
    let mut e = EntityStore::new(4);
    let code = m.register_component(KEY_B);
    s.register(KEY_B, false, 4, code);
    let _zero = e.create_entity();
    let id = e.create_entity();
    let bit = s.get(KEY_B).get_id();
    {
        let ent = e.get_mut(id).unwrap();
        ent.set_component(77, 0);
    }
    {
        let st = s.get_mut(KEY_B);
        let ent = e.get_mut(id).unwrap();
        st.insert(ent, Val::Num(5));
    }
    assert!(e.get(id).unwrap().has_component(bit));
    // The unrelated bit set beforehand is untouched.
    assert!(e.get(id).unwrap().has_component(77));
    {
        let st = s.get_mut(KEY_B);
        let ent = e.get_mut(id).unwrap();
        st.remove(ent);
    }
    assert!(!e.get(id).unwrap().has_component(bit));
    assert!(e.get(id).unwrap().has_component(77));
}

#[test]
fn dense_store_index_stability_under_removal() {
    let mut m = ComponentManager::new();
    let mut s: ComponentStoreProto<Val> = ComponentStoreProto::new();
    let mut e = EntityStore::new(10);
    let code = m.register_component(KEY_A);
    s.register(KEY_A, true, 10, code);
    let bit = s.get_dense(KEY_A).get_id() as usize;
    let _zero = e.create_entity();
    let mut ids = Vec::new();
    for k in 0..5 {
        let id = e.create_entity();
        e.bind_component(&mut s, KEY_A, id, Val::Num(k));
        ids.push(id);
    }
    let before: Vec<u32> = ids.iter().map(|&i| e.get(i).unwrap().indices[bit]).collect();
    // Remove an arbitrary subset: the second and the fourth.
    for &victim in &[ids[1], ids[3]] {
        let d = s.get_dense_mut(KEY_A);
        let ent = e.get_mut(victim).unwrap();
        d.remove(ent);
    }
    // Every remaining entity's slot index is unchanged and still owned.
    for (k, &id) in ids.iter().enumerate() {
        if k == 1 || k == 3 {
            continue;
        }
        let rec = e.get(id).unwrap();
        assert_eq!(rec.indices[bit], before[k]);
        let d = s.get_dense(KEY_A);
        assert_eq!(d.iter()[rec.indices[bit] as usize].0, id);
        match d.try_get(rec) {
            Some(Val::Num(n)) => assert_eq!(*n, (k as i32)),
            _ => panic!("expected the bound value"),
        }
    }
    // The tombstoned slots stay in place with owner id 0.
    let d = s.get_dense(KEY_A);
    assert_eq!(d.len(), 5);
    assert_eq!(d.iter()[before[1] as usize].0, 0);
    assert_eq!(d.iter()[before[3] as usize].0, 0);
}

#[test]
fn dense_store_reuses_blank_slots() {
    let mut m = ComponentManager::new();
    let mut s: ComponentStoreProto<Val> = ComponentStoreProto::new();
    let mut e = EntityStore::new(10);
    let code = m.register_component(KEY_A);
    s.register(KEY_A, true, 10, code);
    let bit = s.get_dense(KEY_A).get_id() as usize;
    let _zero = e.create_entity();
    let id1 = e.create_entity();
    let id2 = e.create_entity();
    e.bind_component(&mut s, KEY_A, id1, Val::Num(1));
    e.bind_component(&mut s, KEY_A, id2, Val::Num(2));
    let slot1 = e.get(id1).unwrap().indices[bit];
    {
        let d = s.get_dense_mut(KEY_A);
        let ent = e.get_mut(id1).unwrap();
        d.remove(ent);
    }
    // A new insertion reuses the freed slot instead of growing the array.
    e.bind_component(&mut s, KEY_A, id2, Val::Num(3));
    assert_eq!(e.get(id2).unwrap().indices[bit], slot1);
    assert_eq!(s.get_dense(KEY_A).len(), 2);
}

#[test]
fn map_store_try_get_checks_the_mask() {
    let mut m = ComponentManager::new();
    let mut s: ComponentStoreProto<Val> = ComponentStoreProto::new();
    let mut e = EntityStore::new(4);
    let code = m.register_component(KEY_B);
    s.register(KEY_B, false, 4, code);
    let id = e.create_entity();
    assert!(s.get(KEY_B).try_get(e.get(id).unwrap()).is_none());
    e.bind_component(&mut s, KEY_B, id, Val::Num(9));
    match s.get(KEY_B).try_get(e.get(id).unwrap()) {
        Some(Val::Num(n)) => assert_eq!(*n, 9),
        _ => panic!("expected the bound value"),
    }
    assert_eq!(s.get(KEY_B).len(), 1);
}

#[test]
fn entity_store_get_rejects_recycled_slot() {
    let mut e = EntityStore::new(4);
    let _zero = e.create_entity();
    let id = e.create_entity();
    assert!(e.get(id).is_some());
    e.remove(id);
    // The slot still exists, but the id no longer names a live entity.
    assert!(e.get(id).is_none());
    assert!(e.get_mut(id).is_none());
    assert!(e.get(100).is_none());
    assert_eq!(e.count(), 1);
    e.reset();
    assert_eq!(e.count(), 0);
    assert_eq!(e.create_first_entity(), 0);
    assert_eq!(e.count(), 1);
}

#[test]
fn physics_proto_keeps_viewport() {
    let px = dragon::physics::Physics2DProto::new(640, 480);
    assert_eq!(px.w, 640);
    assert_eq!(px.h, 480);
}

#[test]
fn try_get_mut_edits_in_place() {
    let mut m = ComponentManager::new();
    let mut s: ComponentStoreProto<Val> = ComponentStoreProto::new();
    let mut e = EntityStore::new(4);
    let code_a = m.register_component(KEY_A);
    s.register(KEY_A, true, 4, code_a);
    let code_b = m.register_component(KEY_B);
    s.register(KEY_B, false, 4, code_b);
    let _zero = e.create_entity();
    let id = e.create_entity();
    e.bind_component(&mut s, KEY_A, id, Val::Num(1));
    e.bind_component(&mut s, KEY_B, id, Val::Num(2));
    {
        let d = s.get_dense_mut(KEY_A);
        match d.try_get_mut(e.get(id).unwrap()) {
            Some(v) => *v = Val::Num(10),
            None => panic!("dense value expected"),
        }
    }
    {
        let st = s.get_mut(KEY_B);
        match st.try_get_mut(e.get(id).unwrap()) {
            Some(v) => *v = Val::Num(20),
            None => panic!("sparse value expected"),
        }
    }
    match s.get_dense(KEY_A).try_get(e.get(id).unwrap()) {
        Some(Val::Num(n)) => assert_eq!(*n, 10),
        _ => panic!("dense value expected"),
    }
    match s.get(KEY_B).try_get(e.get(id).unwrap()) {
        Some(Val::Num(n)) => assert_eq!(*n, 20),
        _ => panic!("sparse value expected"),
    }
    // A fresh entity without the bits gets nothing back.
    let other = e.create_entity();
    assert!(s.get_dense_mut(KEY_A).try_get_mut(e.get(other).unwrap()).is_none());
    assert!(s.get_mut(KEY_B).try_get_mut(e.get(other).unwrap()).is_none());
}

#[test]
fn occupied_slots_skip_tombstones() {
    let mut m = ComponentManager::new();
    let mut s: ComponentStoreProto<Val> = ComponentStoreProto::new();
    let mut e = EntityStore::new(10);
    let code = m.register_component(KEY_A);
    s.register(KEY_A, true, 10, code);
    let _zero = e.create_entity();
    let mut ids = Vec::new();
    for k in 0..4 {
        let id = e.create_entity();
        e.bind_component(&mut s, KEY_A, id, Val::Num(k));
        ids.push(id);
    }
    {
        let d = s.get_dense_mut(KEY_A);
        let ent = e.get_mut(ids[2]).unwrap();
        d.remove(ent);
    }
    // The dense traversal yields exactly the live slots, in index order,
    // with the tombstoned one skipped.
    let d = s.get_dense(KEY_A);
    let live = d.occupied_slots();
    assert_eq!(live, vec![0, 1, 3]);
    for &slot in &live {
        assert!(d.iter()[slot as usize].0 != 0);
    }
    assert_eq!(d.len(), 4);
}
