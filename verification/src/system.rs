//! Systems: named per-tick units of logic. The registry keeps them in
//! lexicographic name order and ticks them in that order, so a sweep over
//! the same set of systems always runs them the same way.

use vstd::prelude::*;
use crate::registry::NameMap;

verus! {

/// One per-tick unit of logic. External code implements this trait; the
/// world only calls these hooks. `Msg` is the system's out-of-band message
/// type.
pub trait System {
    type Msg;

    /// Runs once per frame, in name order relative to the other systems.
    fn tick(&mut self) {
    }

    /// Receives an out-of-band message.
    fn dispatch(&mut self, _data: Self::Msg) {
    }
}

/// The registry of systems, keyed and ordered by name.
pub struct SystemStoreProto<Y> {
    pub store: NameMap<Y>,
}

impl<Y> SystemStoreProto<Y> {
    pub open spec fn wf(&self) -> bool {
        self.store.wf()
    }

    pub fn new() -> (s: SystemStoreProto<Y>)
        ensures
            s.wf(),
            s.store.spec_len() == 0,
            forall|k: Seq<char>| !s.store.contains_name(k),
    {
        SystemStoreProto { store: NameMap::new() }
    }

    /// The underlying name-keyed registry, for callers that walk it.
    pub fn borrow(&self) -> (r: &NameMap<Y>)
        ensures
            r.entries@ == self.store.entries@,
    {
        &self.store
    }

    /// Inserts or replaces the system registered under `name`.
    pub fn register(&mut self, name: &str, system: Y)
        requires
            old(self).wf(),
            old(self).store.spec_len() < usize::MAX as int,
        ensures
            final(self).wf(),
            final(self).store.contains_name(name@),
            final(self).store.value_of(name@) == system,
            forall|k: Seq<char>|
                k != name@ ==> final(self).store.contains_name(k) == old(self).store.contains_name(k),
            forall|k: Seq<char>|
                k != name@ && old(self).store.contains_name(k) ==> final(self).store.value_of(k)
                    == old(self).store.value_of(k),
    {
        self.store.register(name, system);
    }

    /// Drops the system registered under `name`, if any.
    pub fn unregister(&mut self, name: &str)
        requires
            old(self).wf(),
        ensures
            final(self).wf(),
            !final(self).store.contains_name(name@),
            forall|k: Seq<char>|
                k != name@ ==> final(self).store.contains_name(k) == old(self).store.contains_name(k),
            forall|k: Seq<char>|
                k != name@ && old(self).store.contains_name(k) ==> final(self).store.value_of(k)
                    == old(self).store.value_of(k),
            !old(self).store.contains_name(name@) ==> final(self).store.entries@ == old(self).store.entries@,
    {
        let _ = self.store.unregister(name);
    }

    /// The system registered under `name`; the caller must know it is there.
    pub fn get(&self, name: &str) -> (r: &Y)
        requires
            self.wf(),
            self.store.contains_name(name@),
        ensures
            *r == self.store.value_of(name@),
    {
        match self.store.get(name) {
            Some(s) => s,
            None => vstd::pervasive::unreached(),
        }
    }

    /// Mutable counterpart of `get`.
    pub fn get_mut(&mut self, name: &str) -> (r: &mut Y)
        requires
            old(self).wf(),
            old(self).store.contains_name(name@),
        ensures
            final(self).wf(),
            final(self).store.names() == old(self).store.names(),
            *r == old(self).store.value_of(name@),
            final(self).store.entries@ == old(self).store.entries@.update(
                old(self).store.index_of(name@),
                (old(self).store.entries@[old(self).store.index_of(name@)].0, *final(r)),
            ),
    {
        match self.store.get_mut(name) {
            Some(s) => s,
            None => vstd::pervasive::unreached(),
        }
    }
}

impl<Y: System> SystemStoreProto<Y> {
    /// One deterministic sweep: ticks every registered system exactly once,
    /// in lexicographic name order, from the first name to the last. Which
    /// systems are registered, and under which names, does not change.
    pub fn tick(&mut self)
        requires
            old(self).wf(),
        ensures
            final(self).wf(),
            final(self).store.names() == old(self).store.names(),
            final(self).store.spec_len() == old(self).store.spec_len(),
    {
        let n = self.store.len();
        let mut i: usize = 0;
        while i < n
            invariant
                self.wf(),
                n == self.store.spec_len(),
                i <= n,
                self.store.names() == old(self).store.names(),
            decreases n - i,
        {
            let y = self.store.value_at_mut(i);
            y.tick();
            i += 1;
        }
    }

    /// Delivers an out-of-band message to the one system registered under
    /// `name`: best-effort, a no-op when no such system is registered.
    pub fn dispatch(&mut self, name: &str, data: Y::Msg)
        requires
            old(self).wf(),
        ensures
            final(self).wf(),
            final(self).store.names() == old(self).store.names(),
            !old(self).store.contains_name(name@) ==> final(self).store.entries@ == old(
                self,
            ).store.entries@,
            forall|k: Seq<char>|
                k != name@ && old(self).store.contains_name(k) ==> final(self).store.value_of(k)
                    == old(self).store.value_of(k),
    {
        match self.store.get_mut(name) {
            Some(y) => y.dispatch(data),
            None => {},
        }
    }
}

} // verus!
