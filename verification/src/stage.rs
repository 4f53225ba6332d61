//! Stages: named simulation modes with enter/exit/tick hooks. The world
//! keeps one active stage and a registry of inactive ones; switching stages
//! exits the outgoing stage, shelves it under its old name for later
//! re-entry, and enters the incoming one.

use vstd::prelude::*;
use crate::registry::NameMap;

verus! {

/// What a stage's tick asks of the world: stay put, or switch to the named
/// stage after the system sweep.
pub enum StageEvent {
    Null,
    EnterStage { name: String },
}

/// A simulation mode. External code implements this trait; the world only
/// calls these hooks. `Msg` is the stage's out-of-band message type.
pub trait Stage {
    type Msg;

    /// Runs when this stage becomes the active one.
    fn on_enter(&mut self) {
    }

    /// Runs once per frame while active; may request a stage switch.
    fn tick(&mut self) -> StageEvent {
        StageEvent::Null
    }

    /// Runs when this stage stops being the active one.
    fn on_exit(&mut self) {
    }

    /// Receives an out-of-band message.
    fn dispatch(&mut self, _data: Self::Msg) {
    }
}

/// The stage installed before any other is registered: every hook a no-op.
pub struct DefaultStage {}

impl Stage for DefaultStage {
    type Msg = ();
}

impl DefaultStage {
    pub fn new() -> DefaultStage {
        DefaultStage {}
    }
}

/// The registry of inactive stages, keyed by name.
pub struct StageStoreProto<S> {
    pub store: NameMap<S>,
}

impl<S> StageStoreProto<S> {
    pub open spec fn wf(&self) -> bool {
        self.store.wf()
    }

    pub fn new() -> (s: StageStoreProto<S>)
        ensures
            s.wf(),
            s.store.spec_len() == 0,
            forall|k: Seq<char>| !s.store.contains_name(k),
    {
        StageStoreProto { store: NameMap::new() }
    }

    /// The underlying name-keyed registry, for callers that walk it.
    pub fn borrow(&self) -> (r: &NameMap<S>)
        ensures
            r.entries@ == self.store.entries@,
    {
        &self.store
    }

    /// Shelves `stage` under `name`, replacing any stage already there.
    pub fn register(&mut self, name: &str, stage: S)
        requires
            old(self).wf(),
            old(self).store.spec_len() < usize::MAX as int,
        ensures
            final(self).wf(),
            final(self).store.contains_name(name@),
            final(self).store.value_of(name@) == stage,
            forall|k: Seq<char>|
                k != name@ ==> final(self).store.contains_name(k) == old(self).store.contains_name(k),
            forall|k: Seq<char>|
                k != name@ && old(self).store.contains_name(k) ==> final(self).store.value_of(k)
                    == old(self).store.value_of(k),
    {
        self.store.register(name, stage);
    }

    /// Shelves an outgoing stage under the name it was active as; the same
    /// operation as `register`, kept as the name the stage-swap path uses.
    pub fn save_stage(&mut self, name: &str, stage: S)
        requires
            old(self).wf(),
            old(self).store.spec_len() < usize::MAX as int,
        ensures
            final(self).wf(),
            final(self).store.contains_name(name@),
            final(self).store.value_of(name@) == stage,
            forall|k: Seq<char>|
                k != name@ ==> final(self).store.contains_name(k) == old(self).store.contains_name(k),
            forall|k: Seq<char>|
                k != name@ && old(self).store.contains_name(k) ==> final(self).store.value_of(k)
                    == old(self).store.value_of(k),
    {
        self.store.register(name, stage);
    }

    /// Takes the stage shelved under `name` out of the registry.
    pub fn unregister(&mut self, name: &str) -> (r: Option<S>)
        requires
            old(self).wf(),
        ensures
            final(self).wf(),
            !final(self).store.contains_name(name@),
            r.is_some() == old(self).store.contains_name(name@),
            r.is_some() ==> r.unwrap() == old(self).store.value_of(name@),
            forall|k: Seq<char>|
                k != name@ ==> final(self).store.contains_name(k) == old(self).store.contains_name(k),
            forall|k: Seq<char>|
                k != name@ && old(self).store.contains_name(k) ==> final(self).store.value_of(k)
                    == old(self).store.value_of(k),
            !old(self).store.contains_name(name@) ==> final(self).store.entries@ == old(self).store.entries@,
            final(self).store.spec_len() == old(self).store.spec_len() - (
                if old(self).store.contains_name(name@) { 1int } else { 0int }),
    {
        self.store.unregister(name)
    }

    /// The stage shelved under `name`; the caller must know it is there.
    pub fn get(&self, name: &str) -> (r: &S)
        requires
            self.wf(),
            self.store.contains_name(name@),
        ensures
            *r == self.store.value_of(name@),
    {
        match self.store.get(name) {
            Some(s) => s,
            None => vstd::pervasive::unreached(),
        }
    }

    /// Mutable counterpart of `get`.
    pub fn get_mut(&mut self, name: &str) -> (r: &mut S)
        requires
            old(self).wf(),
            old(self).store.contains_name(name@),
        ensures
            final(self).wf(),
            final(self).store.names() == old(self).store.names(),
            *r == old(self).store.value_of(name@),
            final(self).store.entries@ == old(self).store.entries@.update(
                old(self).store.index_of(name@),
                (old(self).store.entries@[old(self).store.index_of(name@)].0, *final(r)),
            ),
    {
        match self.store.get_mut(name) {
            Some(s) => s,
            None => vstd::pervasive::unreached(),
        }
    }
}

} // verus!
