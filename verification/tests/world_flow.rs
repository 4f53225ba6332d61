//! The world façade: stage transitions, deterministic system sweeps, and
//! the capability-mask query surface.

use std::cell::RefCell;
use std::rc::Rc;

use dragon::stage::{DefaultStage, Stage, StageEvent};
use dragon::system::{System, SystemStoreProto};
use dragon::component::ComponentStorage;
use dragon::world::{World, WorldState};

const TRANSFORM: u64 = 1;
const CAMERA: u64 = 2;

enum Comp {
    Transform { x: f32 },
    Camera,
}

/// A stage that counts its own enters and exits.
struct CounterStage {
    entered: u32,
    exited: u32,
    request: Option<&'static str>,
}

impl CounterStage {
    fn new() -> CounterStage {
        CounterStage { entered: 0, exited: 0, request: None }
    }
}

impl Stage for CounterStage {
    type Msg = ();

    fn on_enter(&mut self) {
        self.entered += 1;
    }

    fn tick(&mut self) -> StageEvent {
        match self.request.take() {
            Some(name) => StageEvent::EnterStage { name: name.to_string() },
            None => StageEvent::Null,
        }
    }

    fn on_exit(&mut self) {
        self.exited += 1;
    }
}

/// A system that records its name in a shared log when ticked.
struct Recorder {
    name: &'static str,
    log: Rc<RefCell<Vec<String>>>,
}

impl System for Recorder {
    type Msg = ();

    fn tick(&mut self) {
        self.log.borrow_mut().push(self.name.to_string());
    }

    fn dispatch(&mut self, _data: ()) {
        self.log.borrow_mut().push(format!("{}:msg", self.name));
    }
}

struct NullSystem {}

impl System for NullSystem {
    type Msg = ();
}

type TestWorld = World<Comp, CounterStage, Recorder>;

fn test_world() -> TestWorld {
    World::new_basic(10, CounterStage::new())
}

#[test]
fn enter_stage_missing_is_a_noop_with_old_none() {
    let mut w = test_world();
    let before = w.state.current_stage();
    let (old_name, new_name) = w.state.enter_stage("nonexistent");
    assert_eq!(old_name, "None");
    assert_eq!(new_name, "nonexistent");
    assert_eq!(w.state.current_stage(), before);
    assert_eq!(before, "default");
}

#[test]
fn systems_tick_in_name_order() {
    let log: Rc<RefCell<Vec<String>>> = Rc::new(RefCell::new(Vec::new()));
    let mut w = test_world();
    w.state.register_system("b", Recorder { name: "b", log: Rc::clone(&log) });
    w.state.register_system("a", Recorder { name: "a", log: Rc::clone(&log) });
    w.state.register_system("c", Recorder { name: "c", log: Rc::clone(&log) });
    let t = w.state.tick();
    assert!(t.is_none());
    assert_eq!(*log.borrow(), vec!["a".to_string(), "b".to_string(), "c".to_string()]);
    let _ = w.state.tick();
    assert_eq!(log.borrow().len(), 6);
    assert_eq!(log.borrow()[3], "a");
}

#[test]
fn system_registry_is_sorted_and_updatable() {
    let log: Rc<RefCell<Vec<String>>> = Rc::new(RefCell::new(Vec::new()));
    let mut reg: SystemStoreProto<Recorder> = SystemStoreProto::new();
    reg.register("movement", Recorder { name: "movement", log: Rc::clone(&log) });
    reg.register("audio", Recorder { name: "audio", log: Rc::clone(&log) });
    reg.register("paint", Recorder { name: "paint", log: Rc::clone(&log) });
    // Replacing keeps the position; unregistering drops the entry.
    reg.register("movement", Recorder { name: "movement2", log: Rc::clone(&log) });
    assert_eq!(reg.borrow().len(), 3);
    assert_eq!(reg.borrow().key_at(0).as_str(), "audio");
    assert_eq!(reg.borrow().key_at(1).as_str(), "movement");
    assert_eq!(reg.borrow().key_at(2).as_str(), "paint");
    assert_eq!(reg.get("movement").name, "movement2");
    reg.unregister("movement");
    assert_eq!(reg.borrow().len(), 2);
    reg.tick();
    assert_eq!(*log.borrow(), vec!["audio".to_string(), "paint".to_string()]);
}

#[test]
fn stage_counters_survive_swap_out() {
    let mut w = test_world();
    w.state.register_stage("menu", CounterStage::new());
    w.state.register_stage("game", CounterStage::new());

    // Start in the menu: counter A (menu's) goes to 1.
    let (old_name, _) = w.state.enter_stage("menu");
    assert_eq!(old_name, "default");
    assert_eq!(w.state.current_stage(), "menu");
    assert_eq!(w.state.current_stage.1.entered, 1);

    // Switch to the game: A stays at 1 on the shelved menu, B becomes 1.
    let (old_name, _) = w.state.enter_stage("game");
    assert_eq!(old_name, "menu");
    assert_eq!(w.state.current_stage(), "game");
    assert_eq!(w.state.current_stage.1.entered, 1);
    assert_eq!(w.state.stage_store.get("menu").entered, 1);
    assert_eq!(w.state.stage_store.get("menu").exited, 1);

    // The menu is retrievable again with its counters preserved: the same
    // object comes back, so re-entering takes it from 1 to 2.
    let (old_name, _) = w.state.enter_stage("menu");
    assert_eq!(old_name, "game");
    assert_eq!(w.state.current_stage(), "menu");
    assert_eq!(w.state.current_stage.1.entered, 2);
    assert_eq!(w.state.current_stage.1.exited, 1);
}

#[test]
fn stage_tick_event_drives_the_switch() {
    let mut w = test_world();
    w.state.register_stage("game", CounterStage::new());
    w.state.current_stage.1.request = Some("game");
    let t = w.state.tick();
    let (old_name, new_name) = t.unwrap();
    assert_eq!(old_name, "default");
    assert_eq!(new_name, "game");
    assert_eq!(w.state.current_stage(), "game");
    // The next tick raises no event and changes nothing.
    let t = w.state.tick();
    assert!(t.is_none());
    assert_eq!(w.state.current_stage(), "game");
}

#[test]
fn enter_installs_a_fresh_stage_and_shelves_the_old() {
    let mut w = test_world();
    let (old_name, new_name) = w.state.enter("menu", CounterStage::new());
    assert_eq!(old_name, "default");
    assert_eq!(new_name, "menu");
    assert_eq!(w.state.current_stage(), "menu");
    assert_eq!(w.state.current_stage.1.entered, 1);
    // The outgoing default stage was shelved under its old name.
    assert_eq!(w.state.stage_store.get("default").entered, 0);
    assert_eq!(w.state.stage_store.get("default").exited, 1);
}

#[test]
fn world_scenario_masks_and_slot_reuse() {
    let mut w: World<Comp, DefaultStage, NullSystem> = World::new_basic(10, DefaultStage::new());
    let code_t = w.state.register_component(TRANSFORM, true, 10).unwrap();
    let code_c = w.state.register_component(CAMERA, false, 10).unwrap();
    assert_eq!(code_t, 1);
    assert_eq!(code_c, 2);
    assert_eq!(w.state.get_component_id(TRANSFORM), Some(code_t));

    let e1 = w.state.create_entity();
    assert!(w.state.bind_component(TRANSFORM, true, e1, Comp::Transform { x: 0.0 }));
    assert!(w.state.bind_component(CAMERA, false, e1, Comp::Camera));
    w.state.switch_camera(e1);
    assert_eq!(w.state.active_camera, e1);
    assert_eq!(w.state.current_entities(), 2);

    // The query surface: OR the codes, compare masked bits.
    let mask = code_t | code_c;
    let rec = w.state.entity_store.get(e1).unwrap();
    assert_eq!(rec.components & mask, mask);
    let bit_t = code_t.trailing_zeros() as usize;
    let slot_before = rec.indices[bit_t];

    // Removing the transform clears its bit, so the query no longer matches.
    w.state.remove_component(TRANSFORM, e1);
    let rec = w.state.entity_store.get(e1).unwrap();
    assert!(rec.components & mask != mask);
    assert!(rec.components & code_c != 0);

    // Re-binding reuses the freed dense slot.
    assert!(w.state.bind_component(TRANSFORM, true, e1, Comp::Transform { x: 2.0 }));
    let rec = w.state.entity_store.get(e1).unwrap();
    assert_eq!(rec.components & mask, mask);
    assert_eq!(rec.indices[bit_t], slot_before);
}

#[test]
fn bind_component_fails_silently_for_dead_ids() {
    let mut w: World<Comp, DefaultStage, NullSystem> = World::new_basic(10, DefaultStage::new());
    let _ = w.state.register_component(TRANSFORM, true, 10).unwrap();
    assert!(!w.state.bind_component(TRANSFORM, true, 42, Comp::Transform { x: 1.0 }));
    // The global entity cannot carry a dense component: id 0 marks blanks.
    assert!(!w.state.bind_component(TRANSFORM, true, 0, Comp::Transform { x: 1.0 }));
    // But a sparse bind to the global entity works.
    let _ = w.state.register_component(CAMERA, false, 10).unwrap();
    assert!(w.state.bind_component(CAMERA, false, 0, Comp::Camera));
}

#[test]
fn component_kinds_are_capped_at_128() {
    let mut w: World<Comp, DefaultStage, NullSystem> = World::new_basic(10, DefaultStage::new());
    for key in 0..128u64 {
        let code = w.state.register_component(key, false, 1);
        assert!(code.is_some());
        if key < 127 {
            assert_eq!(code.unwrap(), 1u128 << key);
        }
    }
    // Re-registering a known kind still succeeds with its old code.
    assert_eq!(w.state.register_component(5, false, 1), Some(1u128 << 5));
    // A 129th distinct kind is a configuration error.
    assert!(w.state.register_component(500, false, 1).is_none());
}

#[test]
fn clear_reloads_the_world() {
    let mut w: World<Comp, DefaultStage, NullSystem> = World::new_basic(10, DefaultStage::new());
    let _ = w.state.register_component(TRANSFORM, true, 10).unwrap();
    let e1 = w.state.create_entity();
    assert!(w.state.bind_component(TRANSFORM, true, e1, Comp::Transform { x: 1.0 }));
    w.state.clear();
    assert_eq!(w.state.current_entities(), 1);
    assert!(w.state.get_component_id(TRANSFORM).is_none());
    // The global entity is back, fresh.
    assert_eq!(w.state.entity_store.get(0).unwrap().components, 0);
}

#[test]
fn remove_entity_keeps_stale_dense_entries() {
    // Entity removal does not cascade into the per-kind stores: the dense
    // slot keeps its old owner id until the kind's own removal runs.
    let mut w: World<Comp, DefaultStage, NullSystem> = World::new_basic(10, DefaultStage::new());
    let _ = w.state.register_component(TRANSFORM, true, 10).unwrap();
    let e1 = w.state.create_entity();
    assert!(w.state.bind_component(TRANSFORM, true, e1, Comp::Transform { x: 1.0 }));
    w.state.remove_entity(e1);
    assert!(w.state.entity_store.get(e1).is_none());
    let d = w.state.component_store.get_dense(TRANSFORM);
    assert_eq!(d.len(), 1);
    assert_eq!(d.iter()[0].0, e1);
}

#[test]
fn name_order_is_lexicographic() {
    assert!(dragon::names::str_lt("a", "b"));
    assert!(dragon::names::str_lt("ab", "b"));
    assert!(dragon::names::str_lt("a", "ab"));
    assert!(!dragon::names::str_lt("b", "b"));
    assert!(!dragon::names::str_lt("ba", "b"));
    assert!(dragon::names::str_eq("same", "same"));
    assert!(!dragon::names::str_eq("same", "sam"));
}

#[test]
fn world_state_dispatches_by_handle() {
    // The registry hands systems back by name for out-of-band messages.
    let log: Rc<RefCell<Vec<String>>> = Rc::new(RefCell::new(Vec::new()));
    let mut w = test_world();
    w.state.register_system("fps", Recorder { name: "fps", log: Rc::clone(&log) });
    w.state.system_store.get_mut("fps").tick();
    assert_eq!(log.borrow().len(), 1);
    // Out-of-band messages reach exactly the named system; a missing name
    // is a silent no-op.
    w.state.system_store.dispatch("fps", ());
    assert_eq!(log.borrow()[1], "fps:msg");
    w.state.system_store.dispatch("absent", ());
    assert_eq!(log.borrow().len(), 2);
    w.state.unregister_system("fps");
    assert_eq!(w.state.system_store.borrow().len(), 0);
    let s = WorldState::<Comp, CounterStage, Recorder>::new(10, CounterStage::new());
    assert_eq!(s.current_stage(), "default");
}

#[test]
fn matching_filters_by_query_mask() {
    let mut w: World<Comp, DefaultStage, NullSystem> = World::new_basic(10, DefaultStage::new());
    let code_t = w.state.register_component(TRANSFORM, true, 10).unwrap();
    let code_c = w.state.register_component(CAMERA, false, 10).unwrap();
    let e1 = w.state.create_entity();
    let e2 = w.state.create_entity();
    assert!(w.state.bind_component(TRANSFORM, true, e1, Comp::Transform { x: 0.5 }));
    assert!(w.state.bind_component(CAMERA, false, e1, Comp::Camera));
    assert!(w.state.bind_component(TRANSFORM, true, e2, Comp::Transform { x: 1.5 }));
    let both = w.state.entity_store.matching(code_t | code_c);
    assert_eq!(both, vec![e1]);
    let transforms = w.state.entity_store.matching(code_t);
    assert_eq!(transforms, vec![e1, e2]);
    // An entity matches its own mask; the empty query matches every slot.
    assert!(w.state.entity_store.get(e1).unwrap().matches_mask(code_t | code_c));
    assert!(!w.state.entity_store.get(e2).unwrap().matches_mask(code_c));
    assert_eq!(w.state.entity_store.matching(0).len(), 3);
}
