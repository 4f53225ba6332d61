//! The world: one context object composing the entity store, the component
//! containers, the system registry and the stage state machine, passed by
//! reference into every call. One logical frame is `tick`: the active stage
//! ticks, every system ticks in name order, and a stage transition the
//! stage requested is performed last.
//!
//! Stage transitions are reported to the caller as `(old_name, new_name)`
//! pairs; a driver that keeps transition callbacks dispatches them from
//! those values.

use vstd::prelude::*;
use crate::entity::EntityStore;
use crate::component::{
    ComponentStoreProto,
    ComponentStorage,
    ComponentManager,
    kind_is_dense,
    kind_id,
    map_of,
    dense_of,
    DenseStore,
    KindStore,
};
use crate::stage::{Stage, StageEvent, StageStoreProto};
use crate::system::{System, SystemStoreProto};

verus! {

/// All simulation state: entities, components, systems, stages, and the one
/// active stage under its name. `C` is the caller's component payload type,
/// `S` its stage type, `Y` its system type.
pub struct WorldState<C, S, Y> {
    pub entity_store: EntityStore,
    pub component_store: ComponentStoreProto<C>,
    pub component_manager: ComponentManager,
    pub system_store: SystemStoreProto<Y>,
    pub stage_store: StageStoreProto<S>,
    pub current_stage: (String, S),
    pub active_camera: u32,
}

impl<C, S, Y> WorldState<C, S, Y> {
    pub open spec fn wf(&self) -> bool {
        &&& self.entity_store.wf()
        &&& self.component_store.wf()
        &&& self.component_manager.wf()
        &&& self.system_store.wf()
        &&& self.stage_store.wf()
        &&& self.kinds_coherent()
    }

    /// The manager and the container registry know exactly the same kinds,
    /// and the manager's code for a kind is exactly its container's bit:
    /// what the query mask tests is what binding sets.
    pub open spec fn kinds_coherent(&self) -> bool {
        &&& forall|k: u64|
            #[trigger] self.component_manager.store@.contains_key(k)
                == self.component_store.store@.contains_key(k)
        &&& forall|k: u64|
            #[trigger] self.component_manager.store@.contains_key(k)
                ==> self.component_manager.store@[k] == (1u128 << kind_id(
                self.component_store.store@[k],
            ))
    }

    /// The name the active stage runs under.
    pub open spec fn current_stage_name(&self) -> Seq<char> {
        self.current_stage.0@
    }

    /// Everything outside the stage machine is untouched.
    pub open spec fn same_but_stages(pre: WorldState<C, S, Y>, post: WorldState<C, S, Y>) -> bool {
        &&& post.entity_store == pre.entity_store
        &&& post.component_store == pre.component_store
        &&& post.component_manager == pre.component_manager
        &&& post.system_store == pre.system_store
        &&& post.active_camera == pre.active_camera
    }

    /// How a stage swap (to a stage found under `name`) reshapes the shelf
    /// of inactive stages: the incoming stage leaves it, the outgoing stage
    /// is shelved under its old name, and every other entry stays. The
    /// outgoing stage's value after its exit hook is the hook's business,
    /// so only names are pinned down here.
    pub open spec fn swap_post(
        pre: WorldState<C, S, Y>,
        post: WorldState<C, S, Y>,
        name: Seq<char>,
    ) -> bool {
        &&& post.current_stage_name() == name
        &&& post.stage_store.store.contains_name(pre.current_stage_name())
        &&& (name != pre.current_stage_name() ==> !post.stage_store.store.contains_name(name))
        &&& forall|k: Seq<char>|
            k != name && k != pre.current_stage_name()
                ==> post.stage_store.store.contains_name(k) == pre.stage_store.store.contains_name(
                k,
            )
        &&& forall|k: Seq<char>|
            k != name && k != pre.current_stage_name() && pre.stage_store.store.contains_name(k)
                ==> post.stage_store.store.value_of(k) == pre.stage_store.store.value_of(k)
    }

    pub fn new(cap: usize, initial: S) -> (w: WorldState<C, S, Y>)
        ensures
            w.wf(),
            w.entity_store.len() == 0,
            w.entity_store.free_list().len() == 0,
            w.component_store.store@ == Map::<u64, KindStore<C>>::empty(),
            w.component_manager.store@ == Map::<u64, u128>::empty(),
            w.system_store.store.spec_len() == 0,
            w.stage_store.store.spec_len() == 0,
            w.current_stage_name() == "default"@,
            w.current_stage.1 == initial,
            w.active_camera == 0,
    {
        WorldState {
            entity_store: EntityStore::new(cap),
            component_store: ComponentStoreProto::new(),
            component_manager: ComponentManager::new(),
            system_store: SystemStoreProto::new(),
            stage_store: StageStoreProto::new(),
            current_stage: ("default".to_owned(), initial),
            active_camera: 0,
        }
    }

    /// The name the active stage runs under.
    pub fn current_stage(&self) -> (r: String)
        ensures
            r@ == self.current_stage_name(),
    {
        self.current_stage.0.clone()
    }
}

impl<C, S: Stage, Y> WorldState<C, S, Y> {
    /// Installs `stage` as the active stage under `name`: the outgoing
    /// stage's exit hook runs, it is shelved under its old name, and the
    /// incoming stage's enter hook runs. Returns the transition
    /// `(old_name, new_name)` for the caller's transition listeners.
    pub fn enter(&mut self, name: &str, stage: S) -> (t: (String, String))
        requires
            old(self).wf(),
            old(self).stage_store.store.spec_len() < usize::MAX as int,
        ensures
            final(self).wf(),
            WorldState::same_but_stages(*old(self), *final(self)),
            t.0@ == old(self).current_stage_name(),
            t.1@ == name@,
            final(self).current_stage_name() == name@,
            final(self).stage_store.store.contains_name(old(self).current_stage_name()),
            forall|k: Seq<char>|
                k != old(self).current_stage_name() ==> final(self).stage_store.store.contains_name(
                    k,
                ) == old(self).stage_store.store.contains_name(k),
            forall|k: Seq<char>|
                k != old(self).current_stage_name() && old(self).stage_store.store.contains_name(k)
                    ==> final(self).stage_store.store.value_of(k) == old(self).stage_store.store.value_of(k),
    {
        self.current_stage.1.on_exit();
        let mut incoming: (String, S) = (name.to_owned(), stage);
        core::mem::swap(&mut self.current_stage, &mut incoming);
        let (prev_name, prev_stage) = incoming;
        self.stage_store.save_stage(prev_name.as_str(), prev_stage);
        self.current_stage.1.on_enter();
        let new_name = name.to_owned();
        (prev_name, new_name)
    }

    /// Switches to the stage shelved under `name`: the exit hook of the
    /// outgoing stage runs, then, when `name` is found, the outgoing stage
    /// is shelved under its old name and the found stage becomes active;
    /// when `name` is not found, nothing is swapped and the reported old
    /// name is the literal "None". The enter hook then runs on whichever
    /// stage is active. Returns the transition `(old_name, new_name)`.
    pub fn enter_stage(&mut self, name: &str) -> (t: (String, String))
        requires
            old(self).wf(),
            old(self).stage_store.store.spec_len() < usize::MAX as int,
        ensures
            final(self).wf(),
            WorldState::same_but_stages(*old(self), *final(self)),
            t.1@ == name@,
            old(self).stage_store.store.contains_name(name@) ==> {
                &&& t.0@ == old(self).current_stage_name()
                &&& WorldState::swap_post(*old(self), *final(self), name@)
            },
            !old(self).stage_store.store.contains_name(name@) ==> {
                &&& t.0@ == "None"@
                &&& final(self).current_stage_name() == old(self).current_stage_name()
                &&& final(self).stage_store.store.names() == old(self).stage_store.store.names()
                &&& final(self).stage_store.store.entries@ == old(self).stage_store.store.entries@
            },
    {
        self.current_stage.1.on_exit();
        let old_name: String = match self.stage_store.unregister(name) {
            Some(stage) => {
                let mut incoming: (String, S) = (name.to_owned(), stage);
                core::mem::swap(&mut self.current_stage, &mut incoming);
                let (prev_name, prev_stage) = incoming;
                self.stage_store.save_stage(prev_name.as_str(), prev_stage);
                prev_name
            },
            None => "None".to_owned(),
        };
        self.current_stage.1.on_enter();
        let new_name = name.to_owned();
        (old_name, new_name)
    }

    /// Shelves `stage` in the registry of inactive stages under `name`; it
    /// becomes active only through `enter_stage`.
    pub fn register_stage(&mut self, name: &str, stage: S)
        requires
            old(self).wf(),
            old(self).stage_store.store.spec_len() < usize::MAX as int,
        ensures
            final(self).wf(),
            WorldState::same_but_stages(*old(self), *final(self)),
            final(self).current_stage == old(self).current_stage,
            final(self).stage_store.store.contains_name(name@),
            final(self).stage_store.store.value_of(name@) == stage,
            forall|k: Seq<char>|
                k != name@ ==> final(self).stage_store.store.contains_name(k) == old(self).stage_store.store.contains_name(k),
            forall|k: Seq<char>|
                k != name@ && old(self).stage_store.store.contains_name(k) ==> final(self).stage_store.store.value_of(k) == old(self).stage_store.store.value_of(k),
    {
        self.stage_store.register(name, stage);
    }

    /// Drops the stage shelved under `name`, if any.
    pub fn unregister_stage(&mut self, name: &str)
        requires
            old(self).wf(),
        ensures
            final(self).wf(),
            WorldState::same_but_stages(*old(self), *final(self)),
            final(self).current_stage == old(self).current_stage,
            !final(self).stage_store.store.contains_name(name@),
            forall|k: Seq<char>|
                k != name@ ==> final(self).stage_store.store.contains_name(k) == old(self).stage_store.store.contains_name(k),
            forall|k: Seq<char>|
                k != name@ && old(self).stage_store.store.contains_name(k) ==> final(self).stage_store.store.value_of(k) == old(self).stage_store.store.value_of(k),
    {
        let _ = self.stage_store.unregister(name);
    }
}

impl<C, S, Y: System> WorldState<C, S, Y> {
    /// Inserts or replaces the system registered under `name`.
    pub fn register_system(&mut self, name: &str, system: Y)
        requires
            old(self).wf(),
            old(self).system_store.store.spec_len() < usize::MAX as int,
        ensures
            final(self).wf(),
            final(self).entity_store == old(self).entity_store,
            final(self).component_store == old(self).component_store,
            final(self).component_manager == old(self).component_manager,
            final(self).stage_store == old(self).stage_store,
            final(self).current_stage == old(self).current_stage,
            final(self).active_camera == old(self).active_camera,
            final(self).system_store.store.contains_name(name@),
            final(self).system_store.store.value_of(name@) == system,
            forall|k: Seq<char>|
                k != name@ ==> final(self).system_store.store.contains_name(k) == old(self).system_store.store.contains_name(k),
    {
        self.system_store.register(name, system);
    }

    /// Drops the system registered under `name`, if any.
    pub fn unregister_system(&mut self, name: &str)
        requires
            old(self).wf(),
        ensures
            final(self).wf(),
            final(self).entity_store == old(self).entity_store,
            final(self).component_store == old(self).component_store,
            final(self).component_manager == old(self).component_manager,
            final(self).stage_store == old(self).stage_store,
            final(self).current_stage == old(self).current_stage,
            final(self).active_camera == old(self).active_camera,
            !final(self).system_store.store.contains_name(name@),
            forall|k: Seq<char>|
                k != name@ ==> final(self).system_store.store.contains_name(k) == old(self).system_store.store.contains_name(k),
    {
        self.system_store.unregister(name);
    }
}

impl<C, S: Stage, Y: System> WorldState<C, S, Y> {
    /// One logical frame: the active stage ticks, every system ticks in
    /// name order, and a stage switch the stage requested is performed
    /// last. Returns the transition `(old_name, new_name)` when a switch
    /// was attempted, for the caller's transition listeners.
    pub fn tick(&mut self) -> (t: Option<(String, String)>)
        requires
            old(self).wf(),
            old(self).stage_store.store.spec_len() < usize::MAX as int,
        ensures
            final(self).wf(),
            final(self).entity_store == old(self).entity_store,
            final(self).component_store == old(self).component_store,
            final(self).component_manager == old(self).component_manager,
            final(self).active_camera == old(self).active_camera,
            final(self).system_store.store.names() == old(self).system_store.store.names(),
            t.is_none() ==> {
                &&& final(self).current_stage_name() == old(self).current_stage_name()
                &&& final(self).stage_store.store.entries@ == old(self).stage_store.store.entries@
            },
            t.is_some() ==> {
                let target = t.unwrap().1@;
                &&& old(self).stage_store.store.contains_name(target) ==> {
                    &&& t.unwrap().0@ == old(self).current_stage_name()
                    &&& WorldState::swap_post(*old(self), *final(self), target)
                }
                &&& !old(self).stage_store.store.contains_name(target) ==> {
                    &&& t.unwrap().0@ == "None"@
                    &&& final(self).current_stage_name() == old(self).current_stage_name()
                    &&& final(self).stage_store.store.entries@ == old(self).stage_store.store.entries@
                }
            },
    {
        let event = self.current_stage.1.tick();
        self.system_store.tick();
        match event {
            StageEvent::Null => None,
            StageEvent::EnterStage { name } => Some(self.enter_stage(name.as_str())),
        }
    }
}

impl<C, S, Y> WorldState<C, S, Y> {
    /// Registers the component kind keyed by `key` with the given storage
    /// preference and capacity hint: the kind keeps its code if already
    /// known, else it is assigned the next unused mask bit. `None` only
    /// when a 129th distinct kind is asked for (a configuration error).
    pub fn register_component(&mut self, key: u64, dense: bool, cap: usize) -> (code: Option<
        u128,
    >)
        requires
            old(self).wf(),
        ensures
            final(self).wf(),
            final(self).entity_store == old(self).entity_store,
            final(self).system_store == old(self).system_store,
            final(self).stage_store == old(self).stage_store,
            final(self).current_stage == old(self).current_stage,
            final(self).active_camera == old(self).active_camera,
            code.is_none() <==> (!old(self).component_manager.store@.contains_key(key) && old(self).component_manager.store@.len() >= 128),
            code.is_none() ==> final(self).component_manager == old(self).component_manager
                && final(self).component_store == old(self).component_store,
            code.is_some() ==> {
                &&& final(self).component_manager.store@.contains_key(key)
                &&& final(self).component_manager.store@[key] == code.unwrap()
                &&& final(self).component_store.contains_kind(key)
                &&& (old(self).component_manager.store@.contains_key(key) ==> code.unwrap() == old(self).component_manager.store@[key] && final(self).component_manager.store@ == old(self).component_manager.store@)
                &&& (!old(self).component_manager.store@.contains_key(key) ==> code.unwrap() == (
                1u128 << (old(self).component_manager.store@.len() as u8)) && final(self).component_manager.store@ == old(self).component_manager.store@.insert(
                    key,
                    code.unwrap(),
                ))
                &&& (old(self).component_store.contains_kind(key) ==> final(self).component_store.store@ == old(self).component_store.store@)
                &&& (!old(self).component_store.contains_kind(key) ==> {
                    &&& kind_is_dense(final(self).component_store.store@[key]) == dense
                    &&& (dense ==> dense_of(final(self).component_store.store@[key]).data@.len()
                        == 0 && code.unwrap() == (1u128 << dense_of(
                        final(self).component_store.store@[key],
                    ).id))
                    &&& (!dense ==> map_of(final(self).component_store.store@[key]).data@
                        == Map::<u32, C>::empty() && code.unwrap() == (1u128 << map_of(
                        final(self).component_store.store@[key],
                    ).id))
                    &&& forall|k2: u64|
                        k2 != key ==> final(self).component_store.store@.contains_key(k2) == old(self).component_store.store@.contains_key(k2)
                    &&& forall|k2: u64|
                        k2 != key && old(self).component_store.store@.contains_key(k2) ==> final(self).component_store.store@[k2] == old(self).component_store.store@[k2]
                })
            },
    {
        let code: u128 = match self.component_manager.get_code(key) {
            Some(c) => *c,
            None => {
                if self.component_manager.store.len() >= 128 {
                    return None;
                }
                self.component_manager.register_component(key)
            },
        };
        self.component_store.register(key, dense, cap, code);
        proof {
            self.lemma_kinds_coherent_after_register(*old(self), key, code);
        }
        Some(code)
    }

    /// Registering one kind in both the manager and the container registry
    /// keeps them coherent.
    proof fn lemma_kinds_coherent_after_register(&self, pre: WorldState<C, S, Y>, key: u64, code: u128)
        requires
            pre.kinds_coherent(),
            self.component_manager.store@.contains_key(key),
            self.component_manager.store@[key] == code,
            pre.component_manager.store@.contains_key(key)
                ==> self.component_manager.store@ == pre.component_manager.store@,
            !pre.component_manager.store@.contains_key(key)
                ==> self.component_manager.store@ == pre.component_manager.store@.insert(key, code),
            self.component_store.store@.contains_key(key),
            pre.component_store.store@.contains_key(key) ==> self.component_store.store@ == pre.component_store.store@,
            !pre.component_store.store@.contains_key(key) ==> {
                &&& self.component_store.store@ == pre.component_store.store@.insert(key, self.component_store.store@[key])
                &&& code == (1u128 << kind_id(self.component_store.store@[key]))
            },
        ensures
            self.kinds_coherent(),
    {
        assert forall|k: u64| #[trigger] self.component_manager.store@.contains_key(k)
            == self.component_store.store@.contains_key(k) by {
            if k != key {
                assert(pre.component_manager.store@.contains_key(k)
                    == pre.component_store.store@.contains_key(k));
            }
        }
        assert forall|k: u64| #[trigger] self.component_manager.store@.contains_key(k)
            implies self.component_manager.store@[k] == (1u128 << kind_id(
            self.component_store.store@[k],
        )) by {
            if k != key {
                assert(pre.component_manager.store@.contains_key(k));
                assert(self.component_manager.store@[k] == pre.component_manager.store@[k]);
                assert(self.component_store.store@[k] == pre.component_store.store@[k]);
            } else {
                if pre.component_store.store@.contains_key(key) {
                    assert(pre.component_manager.store@.contains_key(key));
                    assert(code == pre.component_manager.store@[key]);
                }
            }
        }
    }

    /// The mask code assigned to the kind keyed by `key`, if registered.
    /// OR these codes together to build a capability query mask.
    pub fn get_component_id(&self, key: u64) -> (r: Option<u128>)
        ensures
            match r {
                Some(c) => self.component_manager.store@.contains_key(key) && c
                    == self.component_manager.store@[key],
                None => !self.component_manager.store@.contains_key(key),
            },
    {
        match self.component_manager.get_code(key) {
            Some(c) => Some(*c),
            None => None,
        }
    }

    /// Hands out an entity id: a recycled one when the free list has one,
    /// else the next sequential id.
    pub fn create_entity(&mut self) -> (r: u32)
        requires
            old(self).wf(),
            old(self).entity_store.len() < u32::MAX as int,
        ensures
            final(self).wf(),
            EntityStore::create_post(old(self).entity_store, final(self).entity_store, r),
            final(self).entity_store.live(r as int),
            final(self).component_store == old(self).component_store,
            final(self).component_manager == old(self).component_manager,
            final(self).system_store == old(self).system_store,
            final(self).stage_store == old(self).stage_store,
            final(self).current_stage == old(self).current_stage,
            final(self).active_camera == old(self).active_camera,
    {
        self.entity_store.create_entity()
    }

    /// Tombstones the entity and frees its id for reuse. Its entries in the
    /// per-kind component stores are deliberately not cascaded away: a dense
    /// store keeps a stale slot until `remove_component` runs for that kind,
    /// a documented hazard that code walking the stores must tolerate.
    pub fn remove_entity(&mut self, entity_id: u32)
        requires
            old(self).wf(),
        ensures
            final(self).wf(),
            EntityStore::remove_post(old(self).entity_store, final(self).entity_store, entity_id),
            final(self).component_store == old(self).component_store,
            final(self).component_manager == old(self).component_manager,
            final(self).system_store == old(self).system_store,
            final(self).stage_store == old(self).stage_store,
            final(self).current_stage == old(self).current_stage,
            final(self).active_camera == old(self).active_camera,
    {
        self.entity_store.remove(entity_id);
    }

    /// Live entity count: allocated slots minus freed slots.
    pub fn current_entities(&self) -> (r: usize)
        requires
            self.wf(),
        ensures
            r == self.entity_store.len() - self.entity_store.free_list().len(),
    {
        self.entity_store.count()
    }

    fn create_global_entity(&mut self) -> (r: u32)
        requires
            old(self).wf(),
        ensures
            final(self).wf(),
            r == 0,
            final(self).entity_store.len() >= 1,
            old(self).entity_store.len() == 0 ==> final(self).entity_store.len() == 1
                && crate::entity::entity_reset(final(self).entity_store.slot(0), 0),
            old(self).entity_store.len() >= 1 ==> final(self).entity_store == old(self).entity_store,
            final(self).entity_store.free_list() == old(self).entity_store.free_list(),
            final(self).component_store == old(self).component_store,
            final(self).component_manager == old(self).component_manager,
            final(self).system_store == old(self).system_store,
            final(self).stage_store == old(self).stage_store,
            final(self).current_stage == old(self).current_stage,
            final(self).active_camera == old(self).active_camera,
    {
        self.entity_store.create_first_entity()
    }

    /// Clears entities, component kinds and their containers (a world
    /// reload), then recreates the global entity. Systems and stages stay.
    pub fn clear(&mut self)
        requires
            old(self).wf(),
        ensures
            final(self).wf(),
            final(self).entity_store.len() == 1,
            crate::entity::entity_reset(final(self).entity_store.slot(0), 0),
            final(self).entity_store.free_list().len() == 0,
            final(self).component_store.store@ == Map::<u64, KindStore<C>>::empty(),
            final(self).component_manager.store@ == Map::<u64, u128>::empty(),
            final(self).system_store == old(self).system_store,
            final(self).stage_store == old(self).stage_store,
            final(self).current_stage == old(self).current_stage,
            final(self).active_camera == old(self).active_camera,
    {
        self.entity_store.reset();
        self.component_manager.reset();
        self.component_store.reset();
        let _ = self.create_global_entity();
    }

    /// Binds `component` of the registered kind keyed by `key` to the
    /// entity, setting its capability bit; auto-registers the kind (with
    /// the given storage preference) when unseen. Returns false, binding
    /// nothing, when the entity id is dead, when a dense bind names the
    /// global entity (id 0 is the dense tombstone mark), or when the kind
    /// is unseen and all 128 kinds are taken.
    pub fn bind_component(&mut self, key: u64, dense: bool, entity_id: u32, component: C) -> (r:
        bool)
        requires
            old(self).wf(),
            old(self).component_store.contains_kind(key) && kind_is_dense(
                old(self).component_store.store@[key],
            ) ==> dense_of(old(self).component_store.store@[key]).data@.len() < u32::MAX as int,
        ensures
            final(self).wf(),
            final(self).system_store == old(self).system_store,
            final(self).stage_store == old(self).stage_store,
            final(self).current_stage == old(self).current_stage,
            final(self).active_camera == old(self).active_camera,
            final(self).entity_store.free_list() == old(self).entity_store.free_list(),
            final(self).entity_store.len() == old(self).entity_store.len(),
            forall|i: int|
                0 <= i < old(self).entity_store.len() && i != entity_id ==> final(self).entity_store.slot(i) == old(self).entity_store.slot(i),
            r == (old(self).entity_store.live(entity_id as int) && !(entity_id == 0 && (if old(self).component_store.contains_kind(key) {
                kind_is_dense(old(self).component_store.store@[key])
            } else {
                dense
            })) && (old(self).component_manager.store@.contains_key(key) || old(self).component_manager.store@.len() < 128)),
            !r ==> final(self).entity_store.data@ == old(self).entity_store.data@
                && final(self).component_store.store@ == old(self).component_store.store@
                && final(self).component_manager == old(self).component_manager,
            r ==> {
                let kind = final(self).component_store.store@[key];
                let e_pre = old(self).entity_store.slot(entity_id as int);
                let e_post = final(self).entity_store.slot(entity_id as int);
                &&& final(self).component_store.contains_kind(key)
                &&& final(self).component_manager.store@.contains_key(key)
                &&& kind_is_dense(kind) == (if old(self).component_store.contains_kind(key) {
                    kind_is_dense(old(self).component_store.store@[key])
                } else {
                    dense
                })
                &&& (old(self).component_manager.store@.contains_key(key) ==> final(self).component_manager.store@ == old(self).component_manager.store@)
                &&& (!old(self).component_manager.store@.contains_key(key) ==> final(self).component_manager.store@ == old(self).component_manager.store@.insert(
                    key,
                    final(self).component_manager.store@[key],
                ))
                &&& (old(self).component_store.contains_kind(key) ==> final(self).component_store.store@.dom() == old(self).component_store.store@.dom())
                &&& (!old(self).component_store.contains_kind(key) ==> final(self).component_store.store@.dom() == old(self).component_store.store@.dom().insert(key))
                &&& forall|k2: u64|
                    k2 != key && old(self).component_store.store@.contains_key(k2) ==> final(self).component_store.store@[k2] == old(self).component_store.store@[k2]
                &&& e_post.components & final(self).component_manager.store@[key] == final(self).component_manager.store@[key]
                &&& (old(self).component_manager.store@.contains_key(key) ==> e_post.components
                    & old(self).component_manager.store@[key] == old(self).component_manager.store@[key])
                &&& (!kind_is_dense(kind) ==> {
                    &&& map_of(kind).data@ == (if old(self).component_store.contains_kind(key) {
                        map_of(old(self).component_store.store@[key]).data@
                    } else {
                        Map::<u32, C>::empty()
                    }).insert(entity_id, component)
                    &&& e_post.id == entity_id
                    &&& e_post.components == e_pre.components | (1u128 << map_of(kind).id)
                })
                &&& (kind_is_dense(kind) ==> dense_of(kind).owns(e_post) && dense_of(
                    kind,
                ).data@[dense_of(kind).slot_of(e_post)] == (entity_id, component))
                &&& (kind_is_dense(kind) && old(self).component_store.contains_kind(key)
                    ==> DenseStore::insert_post(
                    dense_of(old(self).component_store.store@[key]),
                    dense_of(kind),
                    e_pre,
                    e_post,
                    component,
                ))
                &&& (kind_is_dense(kind) && !old(self).component_store.contains_kind(key)
                    ==> dense_of(kind).data@ =~= seq![(entity_id, component)] && dense_of(
                    kind,
                ).blanks@.len() == 0)
            },
    {
        let is_live = match self.entity_store.get(entity_id) {
            Some(_) => true,
            None => false,
        };
        if !is_live {
            return false;
        }
        let registered = match self.component_manager.get_code(key) {
            Some(_) => true,
            None => false,
        };
        let kind_dense: bool = if self.component_store.has_kind(key) {
            self.component_store.kind_dense(key)
        } else {
            dense
        };
        if entity_id == 0 && kind_dense {
            return false;
        }
        if !registered && self.component_manager.store.len() >= 128 {
            return false;
        }
        let code = self.component_manager.register_component(key);
        self.component_store.register(key, kind_dense, 10, code);
        self.entity_store.bind_component(&mut self.component_store, key, entity_id, component);
        proof {
            let kind = self.component_store.store@[key];
            let k = kind_id(kind);
            assert(crate::component::kind_wf(kind));
            crate::bits::lemma_or_sets_bit(
                old(self).entity_store.slot(entity_id as int).components,
                k,
            );
            crate::bits::lemma_single_kind_query(
                self.entity_store.slot(entity_id as int).components,
                k,
            );
        }
        true
    }

    /// Removes the entity's component of the registered kind keyed by
    /// `key`, clearing its capability bit: a sparse value is erased, a
    /// dense slot is tombstoned and freed for reuse. A no-op when the
    /// entity id is dead, or when a dense removal finds the entity does not
    /// own its recorded slot (the stale-entry hazard).
    pub fn remove_component(&mut self, key: u64, entity_id: u32)
        requires
            old(self).wf(),
            old(self).component_store.contains_kind(key),
        ensures
            final(self).wf(),
            final(self).system_store == old(self).system_store,
            final(self).stage_store == old(self).stage_store,
            final(self).current_stage == old(self).current_stage,
            final(self).active_camera == old(self).active_camera,
            final(self).component_manager == old(self).component_manager,
            final(self).entity_store.free_list() == old(self).entity_store.free_list(),
            final(self).entity_store.len() == old(self).entity_store.len(),
            forall|i: int|
                0 <= i < old(self).entity_store.len() && i != entity_id ==> final(self).entity_store.slot(i) == old(self).entity_store.slot(i),
            forall|k2: u64|
                k2 != key && old(self).component_store.store@.contains_key(k2) ==> final(self).component_store.store@.contains_key(k2) && final(self).component_store.store@[k2]
                    == old(self).component_store.store@[k2],
            !old(self).entity_store.live(entity_id as int) ==> final(self).entity_store.data@
                == old(self).entity_store.data@ && final(self).component_store.store@ == old(self).component_store.store@,
            old(self).entity_store.live(entity_id as int) && !kind_is_dense(
                old(self).component_store.store@[key],
            ) ==> {
                let kind_pre = old(self).component_store.store@[key];
                let kind_post = final(self).component_store.store@[key];
                let e_pre = old(self).entity_store.slot(entity_id as int);
                let e_post = final(self).entity_store.slot(entity_id as int);
                &&& !kind_is_dense(kind_post)
                &&& map_of(kind_post).data@ == map_of(kind_pre).data@.remove(entity_id)
                &&& e_post.id == e_pre.id
                &&& e_post.indices == e_pre.indices
                &&& e_post.components == e_pre.components & !(1u128 << map_of(kind_pre).id)
                &&& old(self).component_manager.store@.contains_key(key) ==> e_post.components
                    & old(self).component_manager.store@[key] == 0
            },
            old(self).entity_store.live(entity_id as int) && kind_is_dense(
                old(self).component_store.store@[key],
            ) && entity_id != 0 && dense_of(old(self).component_store.store@[key]).owns(
                old(self).entity_store.slot(entity_id as int),
            ) ==> {
                let kind_post = final(self).component_store.store@[key];
                &&& kind_is_dense(kind_post)
                &&& DenseStore::remove_post(
                    dense_of(old(self).component_store.store@[key]),
                    dense_of(kind_post),
                    old(self).entity_store.slot(entity_id as int),
                    final(self).entity_store.slot(entity_id as int),
                )
                &&& old(self).component_manager.store@.contains_key(key) ==> final(self).entity_store.slot(entity_id as int).components & old(self).component_manager.store@[key] == 0
            },
            old(self).entity_store.live(entity_id as int) && kind_is_dense(
                old(self).component_store.store@[key],
            ) && !(entity_id != 0 && dense_of(old(self).component_store.store@[key]).owns(
                old(self).entity_store.slot(entity_id as int),
            )) ==> final(self).entity_store.data@ == old(self).entity_store.data@ && final(self).component_store.store@ == old(self).component_store.store@,
    {
        let is_live = match self.entity_store.get(entity_id) {
            Some(_) => true,
            None => false,
        };
        if !is_live {
            return ;
        }
        if self.component_store.kind_dense(key) {
            if entity_id == 0 {
                return ;
            }
            let owns: bool = {
                let d = self.component_store.get_dense(key);
                let kind_id = d.get_id();
                let e = match self.entity_store.get(entity_id) {
                    Some(e) => e,
                    None => vstd::pervasive::unreached(),
                };
                let slot = e.indices[kind_id as usize];
                e.has_component(kind_id) && (slot as usize) < d.len() && {
                    let owner = d.iter()[slot as usize].0;
                    owner == entity_id
                }
            };
            if !owns {
                return ;
            }
            let d = self.component_store.get_dense_mut(key);
            let e = &mut self.entity_store.data[entity_id as usize];
            d.remove(e);
            proof {
                self.lemma_entity_store_wf_after_touch(*old(self), entity_id);
                crate::bits::lemma_and_not_clears_bit(
                    old(self).entity_store.slot(entity_id as int).components,
                    kind_id(old(self).component_store.store@[key]),
                );
            }
        } else {
            let m = self.component_store.get_mut(key);
            let e = &mut self.entity_store.data[entity_id as usize];
            m.remove(e);
            proof {
                self.lemma_entity_store_wf_after_touch(*old(self), entity_id);
                crate::bits::lemma_and_not_clears_bit(
                    old(self).entity_store.slot(entity_id as int).components,
                    kind_id(old(self).component_store.store@[key]),
                );
            }
        }
    }

    /// An entity-store mutation that changed one live slot's mask, table or
    /// component values — but not its id — keeps the store well-formed.
    proof fn lemma_entity_store_wf_after_touch(&self, pre: WorldState<C, S, Y>, entity_id: u32)
        requires
            pre.entity_store.wf(),
            self.entity_store.free_list() == pre.entity_store.free_list(),
            self.entity_store.len() == pre.entity_store.len(),
            forall|i: int|
                0 <= i < pre.entity_store.len() && i != entity_id ==> self.entity_store.slot(i)
                    == pre.entity_store.slot(i),
            0 <= entity_id < pre.entity_store.len() ==> self.entity_store.slot(
                entity_id as int,
            ).id == pre.entity_store.slot(entity_id as int).id,
        ensures
            self.entity_store.wf(),
    {
        assert forall|i: int| 0 <= i < self.entity_store.free_list().len()
            implies (#[trigger] self.entity_store.free_list()[i]) < self.entity_store.len()
            && self.entity_store.slot(self.entity_store.free_list()[i] as int).id == 0 by {
            let b = self.entity_store.free_list()[i] as int;
            assert(pre.entity_store.free_list()[i] < pre.entity_store.len());
            assert(pre.entity_store.slot(b).id == 0);
            if b != entity_id as int {
                assert(self.entity_store.slot(b) == pre.entity_store.slot(b));
            }
        }
        assert forall|i: int|
            0 <= i < self.entity_store.len() implies ((#[trigger] self.entity_store.slot(i)).id
            == i as u32 || self.entity_store.slot(i).id == 0) by {
            if i != entity_id as int {
                assert(self.entity_store.slot(i) == pre.entity_store.slot(i));
            } else {
                assert(self.entity_store.slot(i).id == pre.entity_store.slot(i).id);
            }
        }
    }

    /// Points the world's single active-camera reference at `camera`; the
    /// caller is trusted to pick an entity that carries a camera component.
    pub fn switch_camera(&mut self, camera: u32)
        ensures
            final(self).active_camera == camera,
            final(self).entity_store == old(self).entity_store,
            final(self).component_store == old(self).component_store,
            final(self).component_manager == old(self).component_manager,
            final(self).system_store == old(self).system_store,
            final(self).stage_store == old(self).stage_store,
            final(self).current_stage == old(self).current_stage,
    {
        self.active_camera = camera;
    }
}

/// The world handle around its state; callers go through `state`.
pub struct World<C, S, Y> {
    pub state: WorldState<C, S, Y>,
}

impl<C, S, Y> World<C, S, Y> {
    /// A world with no component kinds registered, holding only the global
    /// entity (id 0) and the initial stage under the name "default".
    pub fn new_basic(cap: usize, initial: S) -> (w: World<C, S, Y>)
        ensures
            w.state.wf(),
            w.state.entity_store.len() == 1,
            w.state.entity_store.free_list().len() == 0,
            crate::entity::entity_reset(w.state.entity_store.slot(0), 0),
            w.state.component_store.store@ == Map::<u64, KindStore<C>>::empty(),
            w.state.component_manager.store@ == Map::<u64, u128>::empty(),
            w.state.system_store.store.spec_len() == 0,
            w.state.stage_store.store.spec_len() == 0,
            w.state.current_stage_name() == "default"@,
            w.state.current_stage.1 == initial,
            w.state.active_camera == 0,
    {
        let mut state = WorldState::new(cap, initial);
        let _ = state.create_global_entity();
        World { state }
    }
}

} // verus!
