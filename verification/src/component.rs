//! Typed component storage. Each registered component kind owns one bit of
//! the capability mask and one backing container: a sparse map keyed by
//! entity id, or a dense array with blank-slot recycling for kinds that are
//! iterated every frame. A kind is identified at runtime by a caller-chosen
//! `u64` key, and its dense/sparse preference is fixed at registration; the
//! [`Component`] trait is how a value type declares that preference.

use vstd::prelude::*;
use std::collections::HashMap;
use crate::bits::{bit_set, is_single_bit, code_index};
use crate::entity::Entity;

verus! {

/// Declares a value type as a component kind, and whether it prefers dense
/// (array) storage over the default sparse (map) storage.
pub trait Component {
    fn dense() -> bool {
        false
    }
}


/// The uniform face of a per-kind container, implemented by both storage
/// strategies. The abstract functions are given their exact meaning by each
/// implementation — what the container holds for an entity, and precisely
/// how insertion, removal and in-place writes reshape it — so code that is
/// generic over the strategy still gets exact contracts.
pub trait ComponentStorage<C>: Sized {
    /// Well-formedness of the container.
    spec fn s_wf(&self) -> bool;

    /// The kind's bit position in the capability mask.
    spec fn s_id(&self) -> u8;

    /// How many entries or slots the container holds.
    spec fn s_len(&self) -> int;

    /// A freshly allocated container, holding nothing.
    spec fn s_fresh(&self) -> bool;

    /// The entity's value is present and reachable here.
    spec fn s_has(&self, e: Entity) -> bool;

    /// The value the container holds for the entity.
    spec fn s_val(&self, e: Entity) -> C;

    /// What `insert` asks of the entity.
    spec fn s_insert_pre(&self, e: Entity) -> bool;

    /// What `remove` asks of the entity.
    spec fn s_remove_pre(&self, e: Entity) -> bool;

    /// The exact effect of `insert` on the container and the entity.
    spec fn s_insert_post(pre: Self, post: Self, e_pre: Entity, e_post: Entity, component: C) -> bool;

    /// The exact effect of `remove` on the container and the entity.
    spec fn s_remove_post(pre: Self, post: Self, e_pre: Entity, e_post: Entity) -> bool;

    /// The exact effect of writing `v` in place over the entity's value.
    spec fn s_write_post(pre: Self, post: Self, e: Entity, v: C) -> bool;

    /// The container is unchanged.
    spec fn s_same(pre: Self, post: Self) -> bool;

    /// Allocates the backing container sized to `cap`, for the kind whose
    /// single-bit mask code is `id`.
    fn new(cap: usize, id: u128) -> (s: Self)
        requires
            is_single_bit(id),
        ensures
            s.s_wf(),
            id == (1u128 << s.s_id()),
            s.s_len() == 0,
            s.s_fresh(),
    ;

    fn get_id(&self) -> (r: u8)
        ensures
            r == self.s_id(),
    ;

    fn len(&self) -> (n: usize)
        ensures
            n == self.s_len(),
    ;

    /// The checked lookup: the entity's value, when its capability bit is
    /// set and the container can reach a value for it.
    fn try_get(&self, entity: &Entity) -> (r: Option<&C>)
        requires
            self.s_wf(),
        ensures
            r.is_some() == self.s_has(*entity),
            r.is_some() ==> *r.unwrap() == self.s_val(*entity),
    ;

    /// The checked mutable lookup, the only safe path for untrusted masks.
    fn try_get_mut(&mut self, entity: &Entity) -> (r: Option<&mut C>)
        requires
            old(self).s_wf(),
        ensures
            r.is_some() == old(self).s_has(*entity),
            r.is_some() ==> *r.unwrap() == old(self).s_val(*entity) && Self::s_write_post(
                *old(self),
                *final(self),
                *entity,
                *final(r.unwrap()),
            ),
            r.is_none() ==> Self::s_same(*old(self), *final(self)),
    ;

    /// Stores `component` for the entity and sets the kind's bit in the
    /// entity's capability mask.
    fn insert(&mut self, entity: &mut Entity, component: C)
        requires
            old(self).s_wf(),
            old(self).s_insert_pre(*old(entity)),
        ensures
            final(self).s_wf(),
            Self::s_insert_post(*old(self), *final(self), *old(entity), *final(entity), component),
            final(self).s_has(*final(entity)),
            final(self).s_val(*final(entity)) == component,
    ;

    /// Takes the entity's value out of reach and clears the kind's bit in
    /// the entity's capability mask.
    fn remove(&mut self, entity: &mut Entity)
        requires
            old(self).s_wf(),
            old(self).s_remove_pre(*old(entity)),
        ensures
            final(self).s_wf(),
            Self::s_remove_post(*old(self), *final(self), *old(entity), *final(entity)),
            !final(self).s_has(*final(entity)),
    ;

    /// Drops every entry (world reload).
    fn reset(&mut self)
        requires
            old(self).s_wf(),
        ensures
            final(self).s_wf(),
            final(self).s_id() == old(self).s_id(),
            final(self).s_len() == 0,
    ;
}

/// Sparse storage: entity id to component value, for kinds with irregular
/// occupancy. `id` is the kind's bit position in the capability mask.
pub struct MapStore<C> {
    pub data: HashMap<u32, C>,
    pub id: u8,
}

impl<C> MapStore<C> {
    /// The kind's bit position fits the 128-bit capability mask.
    pub open spec fn wf(&self) -> bool {
        self.id < 128
    }

    /// The backing map, entity id to value, for callers that walk every
    /// entry; iteration order is the map's own.
    pub fn iter(&self) -> (r: &HashMap<u32, C>)
        ensures
            r@ == self.data@,
    {
        &self.data
    }

    /// Mutable access to the backing map. The caller may rewrite values
    /// freely; entries it inserts or removes behind the store's back leave
    /// the owning entities' capability bits stale.
    pub fn iter_mut(&mut self) -> (r: &mut HashMap<u32, C>)
        ensures
            r@ == old(self).data@,
            final(self).data@ == final(r)@,
            final(self).id == old(self).id,
    {
        &mut self.data
    }

    /// The stored value for this entity; the caller must know it is there
    /// (check the capability mask first, or use `try_get`).
    pub fn get(&self, entity: &Entity) -> (r: &C)
        requires
            self.data@.contains_key(entity.id),
        ensures
            *r == self.data@[entity.id],
    {
        match self.data.get(&entity.id) {
            Some(v) => v,
            None => vstd::pervasive::unreached(),
        }
    }

    pub fn get_mut(&mut self, entity: &Entity) -> (r: &mut C)
        requires
            old(self).data@.contains_key(entity.id),
        ensures
            *r == old(self).data@[entity.id],
            final(self).data@ == old(self).data@.insert(entity.id, *final(r)),
            final(self).id == old(self).id,
    {
        match self.data.entry(entity.id) {
            std::collections::hash_map::Entry::Occupied(e) => e.into_mut(),
            std::collections::hash_map::Entry::Vacant(_) => vstd::pervasive::unreached(),
        }
    }

    /// `get`, for callers holding the entity mutably; the entity is left
    /// untouched (the dense counterpart realigns the entity's id).
    pub fn fetch(&self, entity: &mut Entity) -> (r: &C)
        requires
            self.data@.contains_key(old(entity).id),
        ensures
            *final(entity) == *old(entity),
            *r == self.data@[old(entity).id],
    {
        let e: &Entity = entity;
        self.get(e)
    }

    pub fn fetch_mut(&mut self, entity: &mut Entity) -> (r: &mut C)
        requires
            old(self).data@.contains_key(old(entity).id),
        ensures
            *final(entity) == *old(entity),
            *r == old(self).data@[old(entity).id],
            final(self).data@ == old(self).data@.insert(old(entity).id, *final(r)),
            final(self).id == old(self).id,
    {
        let e: &Entity = entity;
        self.get_mut(e)
    }
}

impl<C> ComponentStorage<C> for MapStore<C> {
    open spec fn s_wf(&self) -> bool {
        self.wf()
    }

    open spec fn s_id(&self) -> u8 {
        self.id
    }

    open spec fn s_len(&self) -> int {
        self.data@.len() as int
    }

    open spec fn s_fresh(&self) -> bool {
        self.data@ == Map::<u32, C>::empty()
    }

    open spec fn s_has(&self, e: Entity) -> bool {
        bit_set(e.components, self.id) && self.data@.contains_key(e.id)
    }

    open spec fn s_val(&self, e: Entity) -> C {
        self.data@[e.id]
    }

    open spec fn s_insert_pre(&self, e: Entity) -> bool {
        true
    }

    open spec fn s_remove_pre(&self, e: Entity) -> bool {
        true
    }

    open spec fn s_insert_post(
        pre: MapStore<C>,
        post: MapStore<C>,
        e_pre: Entity,
        e_post: Entity,
        component: C,
    ) -> bool {
        &&& post.id == pre.id
        &&& post.data@ == pre.data@.insert(e_pre.id, component)
        &&& e_post.id == e_pre.id
        &&& e_post.indices == e_pre.indices
        &&& e_post.components == e_pre.components | (1u128 << pre.id)
    }

    open spec fn s_remove_post(
        pre: MapStore<C>,
        post: MapStore<C>,
        e_pre: Entity,
        e_post: Entity,
    ) -> bool {
        &&& post.id == pre.id
        &&& post.data@ == pre.data@.remove(e_pre.id)
        &&& e_post.id == e_pre.id
        &&& e_post.indices == e_pre.indices
        &&& e_post.components == e_pre.components & !(1u128 << pre.id)
    }

    open spec fn s_write_post(pre: MapStore<C>, post: MapStore<C>, e: Entity, v: C) -> bool {
        &&& post.id == pre.id
        &&& post.data@ == pre.data@.insert(e.id, v)
    }

    open spec fn s_same(pre: MapStore<C>, post: MapStore<C>) -> bool {
        &&& post.id == pre.id
        &&& post.data@ == pre.data@
    }

    fn new(cap: usize, id: u128) -> (s: MapStore<C>) {
        MapStore { data: HashMap::with_capacity(cap), id: code_index(id) }
    }

    fn get_id(&self) -> (r: u8) {
        self.id
    }

    fn len(&self) -> (n: usize) {
        self.data.len()
    }

    fn try_get(&self, entity: &Entity) -> (r: Option<&C>) {
        if entity.components & (1u128 << self.id) > 0 {
            self.data.get(&entity.id)
        } else {
            None
        }
    }

    fn try_get_mut(&mut self, entity: &Entity) -> (r: Option<&mut C>) {
        if entity.components & (1u128 << self.id) > 0 && self.data.contains_key(&entity.id) {
            Some(self.get_mut(entity))
        } else {
            None
        }
    }

    fn insert(&mut self, entity: &mut Entity, component: C) {
        self.data.insert(entity.id, component);
        entity.components = entity.components | (1u128 << self.id);
        proof {
            crate::bits::lemma_or_sets_bit(old(entity).components, self.id);
        }
    }

    fn remove(&mut self, entity: &mut Entity) {
        self.data.remove(&entity.id);
        entity.components = entity.components & !(1u128 << self.id);
        proof {
            crate::bits::lemma_and_not_clears_bit(old(entity).components, self.id);
        }
    }

    fn reset(&mut self) {
        self.data.clear();
    }
}

/// Dense storage: a growable array of `(owning entity id, value)` pairs plus
/// a free list of blank slots. Removal tombstones a slot (owner id 0) and
/// never shifts live entries, so other entities' recorded slot indices stay
/// valid; insertion reuses a blank slot when one exists.
pub struct DenseStore<C> {
    pub blanks: Vec<u32>,
    pub data: Vec<(u32, C)>,
    pub id: u8,
}

impl<C> DenseStore<C> {
    /// The slot this entity's index table records for this kind.
    pub open spec fn slot_of(&self, e: Entity) -> int {
        e.indices@[self.id as int] as int
    }

    /// The entity's capability bit is set and its recorded slot really is
    /// its own: in range and owned by its id.
    pub open spec fn owns(&self, e: Entity) -> bool {
        &&& bit_set(e.components, self.id)
        &&& self.slot_of(e) < self.data@.len()
        &&& self.data@[self.slot_of(e)].0 == e.id
    }

    /// Well-formedness: the kind's bit fits the mask, slot indices fit
    /// `u32`, and the free list holds distinct, in-range, tombstoned slots.
    pub open spec fn wf(&self) -> bool {
        &&& self.id < 128
        &&& self.data@.len() <= u32::MAX as int
        &&& forall|i: int| 0 <= i < self.blanks@.len() ==> {
            &&& (#[trigger] self.blanks@[i]) < self.data@.len()
            &&& self.data@[self.blanks@[i] as int].0 == 0
        }
        &&& forall|i: int, j: int|
            0 <= i < j < self.blanks@.len() ==> self.blanks@[i] != self.blanks@[j]
    }

    /// How `insert` changes the store and the entity: the last blank slot is
    /// reused, else a slot is appended; the entity's index table records the
    /// slot and its capability bit is set. No other slot is touched.
    pub open spec fn insert_post(
        pre: DenseStore<C>,
        post: DenseStore<C>,
        e_pre: Entity,
        e_post: Entity,
        component: C,
    ) -> bool {
        let slot: int = if pre.blanks@.len() > 0 {
            pre.blanks@.last() as int
        } else {
            pre.data@.len() as int
        };
        &&& post.id == pre.id
        &&& (if pre.blanks@.len() > 0 {
            &&& post.blanks@ == pre.blanks@.drop_last()
            &&& post.data@ == pre.data@.update(slot, (e_pre.id, component))
        } else {
            &&& post.blanks@ == pre.blanks@
            &&& post.data@ == pre.data@.push((e_pre.id, component))
        })
        &&& e_post.id == e_pre.id
        &&& e_post.components == e_pre.components | (1u128 << pre.id)
        &&& e_post.indices@ == e_pre.indices@.update(pre.id as int, slot as u32)
    }

    /// How `remove` changes the store and the entity: the entity's slot is
    /// tombstoned (owner id 0, value left in place) and freed, and the
    /// entity's capability bit is cleared. No other slot is touched.
    pub open spec fn remove_post(
        pre: DenseStore<C>,
        post: DenseStore<C>,
        e_pre: Entity,
        e_post: Entity,
    ) -> bool {
        let slot = pre.slot_of(e_pre);
        &&& post.id == pre.id
        &&& post.data@ == pre.data@.update(slot, (0u32, pre.data@[slot].1))
        &&& post.blanks@ == pre.blanks@.push(slot as u32)
        &&& e_post.id == e_pre.id
        &&& e_post.indices == e_pre.indices
        &&& e_post.components == e_pre.components & !(1u128 << pre.id)
    }

    /// All slots in index order, tombstones included: a slot whose owner id
    /// is 0 is blank, and iterating callers skip it.
    pub fn iter(&self) -> (r: &Vec<(u32, C)>)
        ensures
            r@ == self.data@,
    {
        &self.data
    }

    /// The filter step of dense iteration: the occupied slots in index
    /// order, skipping every tombstoned slot (owner id 0). `iter()[s]` for
    /// each returned `s` is a live `(owner, value)` pair.
    pub fn occupied_slots(&self) -> (r: Vec<u32>)
        requires
            self.wf(),
        ensures
            forall|j: int|
                0 <= j < r@.len() ==> (#[trigger] r@[j]) < self.data@.len()
                    && self.data@[r@[j] as int].0 != 0,
            forall|i: int|
                0 <= i < self.data@.len() && (#[trigger] self.data@[i]).0 != 0 ==> exists|j: int|
                    0 <= j < r@.len() && r@[j] == i,
            forall|j1: int, j2: int| 0 <= j1 < j2 < r@.len() ==> r@[j1] < r@[j2],
    {
        let mut r: Vec<u32> = Vec::new();
        let n = self.data.len();
        let mut i: usize = 0;
        while i < n
            invariant
                n == self.data@.len(),
                self.wf(),
                i <= n,
                forall|j: int|
                    0 <= j < r@.len() ==> (#[trigger] r@[j]) < i && self.data@[r@[j] as int].0
                        != 0,
                forall|k: int|
                    0 <= k < i && (#[trigger] self.data@[k]).0 != 0 ==> exists|j: int|
                        0 <= j < r@.len() && r@[j] == k,
                forall|j1: int, j2: int| 0 <= j1 < j2 < r@.len() ==> r@[j1] < r@[j2],
            decreases n - i,
        {
            let ghost r0 = r@;
            if self.data[i].0 != 0 {
                r.push(i as u32);
            }
            proof {
                assert forall|k: int|
                    0 <= k < i + 1 && (#[trigger] self.data@[k]).0 != 0 implies exists|j: int|
                    0 <= j < r@.len() && r@[j] == k by {
                    if k == i {
                        assert(r@[r@.len() - 1] == k);
                    } else {
                        let j = choose|j: int| 0 <= j < r0.len() && r0[j] == k;
                        assert(r@[j] == k);
                    }
                }
            }
            i += 1;
        }
        r
    }

    /// Mutable access to all slots in index order, tombstones included. The
    /// caller may rewrite values freely; rewriting owner ids would break
    /// the store's well-formedness, which later calls rely on.
    pub fn iter_mut(&mut self) -> (r: &mut Vec<(u32, C)>)
        ensures
            r@ == old(self).data@,
            final(self).data@ == final(r)@,
            final(self).blanks@ == old(self).blanks@,
            final(self).id == old(self).id,
    {
        &mut self.data
    }

    /// The value in the entity's recorded slot; the caller must know the
    /// slot is in range (check the mask first, or use `try_get`).
    pub fn get(&self, entity: &Entity) -> (r: &C)
        requires
            self.wf(),
            self.slot_of(*entity) < self.data@.len(),
        ensures
            *r == self.data@[self.slot_of(*entity)].1,
    {
        &self.data[entity.indices[self.id as usize] as usize].1
    }

    pub fn get_mut(&mut self, entity: &Entity) -> (r: &mut C)
        requires
            old(self).wf(),
            old(self).slot_of(*entity) < old(self).data@.len(),
        ensures
            *r == old(self).data@[old(self).slot_of(*entity)].1,
            final(self).data@ == old(self).data@.update(
                old(self).slot_of(*entity),
                (old(self).data@[old(self).slot_of(*entity)].0, *final(r)),
            ),
            final(self).blanks@ == old(self).blanks@,
            final(self).id == old(self).id,
    {
        let index = entity.indices[self.id as usize] as usize;
        let p = &mut self.data[index];
        &mut p.1
    }

    /// `get`, but also realigns the entity's id field to the slot's owner:
    /// dense iteration hands out slot positions, and this recovers the
    /// owning entity.
    pub fn fetch(&self, entity: &mut Entity) -> (r: &C)
        requires
            self.wf(),
            self.slot_of(*old(entity)) < self.data@.len(),
        ensures
            *r == self.data@[self.slot_of(*old(entity))].1,
            final(entity).id == self.data@[self.slot_of(*old(entity))].0,
            final(entity).components == old(entity).components,
            final(entity).indices == old(entity).indices,
    {
        let index = entity.indices[self.id as usize] as usize;
        let entry = &self.data[index];
        entity.id = entry.0;
        &entry.1
    }

    pub fn fetch_mut(&mut self, entity: &mut Entity) -> (r: &mut C)
        requires
            old(self).wf(),
            old(self).slot_of(*old(entity)) < old(self).data@.len(),
        ensures
            *r == old(self).data@[old(self).slot_of(*old(entity))].1,
            final(self).data@ == old(self).data@.update(
                old(self).slot_of(*old(entity)),
                (old(self).data@[old(self).slot_of(*old(entity))].0, *final(r)),
            ),
            final(self).blanks@ == old(self).blanks@,
            final(self).id == old(self).id,
            final(entity).id == old(self).data@[old(self).slot_of(*old(entity))].0,
            final(entity).components == old(entity).components,
            final(entity).indices == old(entity).indices,
    {
        let index = entity.indices[self.id as usize] as usize;
        let p = &mut self.data[index];
        entity.id = p.0;
        &mut p.1
    }

    /// Index stability under removal: removing one entity's component
    /// leaves every other owning entity's slot — its index, its owner and
    /// its value — exactly as it was. Removal never compacts the array.
    pub proof fn lemma_remove_keeps_other_slots(
        pre: DenseStore<C>,
        post: DenseStore<C>,
        e_pre: Entity,
        e_post: Entity,
        f: Entity,
    )
        requires
            pre.wf(),
            pre.owns(e_pre),
            e_pre.id != 0,
            pre.owns(f),
            f.id != e_pre.id,
            DenseStore::remove_post(pre, post, e_pre, e_post),
        ensures
            post.owns(f),
            post.slot_of(f) == pre.slot_of(f),
            post.data@[post.slot_of(f)] == pre.data@[pre.slot_of(f)],
    {
        assert(pre.slot_of(f) != pre.slot_of(e_pre));
    }

    /// Index stability under insertion: a new component goes to a blank or
    /// fresh slot, so every other owning entity's slot is untouched.
    pub proof fn lemma_insert_keeps_other_slots(
        pre: DenseStore<C>,
        post: DenseStore<C>,
        e_pre: Entity,
        e_post: Entity,
        component: C,
        f: Entity,
    )
        requires
            pre.wf(),
            pre.owns(f),
            f.id != 0,
            DenseStore::insert_post(pre, post, e_pre, e_post, component),
        ensures
            post.owns(f),
            post.slot_of(f) == pre.slot_of(f),
            post.data@[post.slot_of(f)] == pre.data@[pre.slot_of(f)],
    {
        if pre.blanks@.len() > 0 {
            let b = pre.blanks@.last() as int;
            assert(pre.data@[b].0 == 0);
            assert(pre.slot_of(f) != b);
        }
    }
}

impl<C> ComponentStorage<C> for DenseStore<C> {
    open spec fn s_wf(&self) -> bool {
        self.wf()
    }

    open spec fn s_id(&self) -> u8 {
        self.id
    }

    open spec fn s_len(&self) -> int {
        self.data@.len() as int
    }

    open spec fn s_fresh(&self) -> bool {
        self.data@.len() == 0 && self.blanks@.len() == 0
    }

    open spec fn s_has(&self, e: Entity) -> bool {
        bit_set(e.components, self.id) && self.slot_of(e) < self.data@.len()
    }

    open spec fn s_val(&self, e: Entity) -> C {
        self.data@[self.slot_of(e)].1
    }

    open spec fn s_insert_pre(&self, e: Entity) -> bool {
        e.id != 0 && self.data@.len() < u32::MAX as int
    }

    open spec fn s_remove_pre(&self, e: Entity) -> bool {
        self.owns(e) && e.id != 0
    }

    open spec fn s_insert_post(
        pre: DenseStore<C>,
        post: DenseStore<C>,
        e_pre: Entity,
        e_post: Entity,
        component: C,
    ) -> bool {
        DenseStore::insert_post(pre, post, e_pre, e_post, component)
    }

    open spec fn s_remove_post(
        pre: DenseStore<C>,
        post: DenseStore<C>,
        e_pre: Entity,
        e_post: Entity,
    ) -> bool {
        DenseStore::remove_post(pre, post, e_pre, e_post)
    }

    open spec fn s_write_post(pre: DenseStore<C>, post: DenseStore<C>, e: Entity, v: C) -> bool {
        &&& post.id == pre.id
        &&& post.blanks@ == pre.blanks@
        &&& post.data@ == pre.data@.update(
            pre.slot_of(e),
            (pre.data@[pre.slot_of(e)].0, v),
        )
    }

    open spec fn s_same(pre: DenseStore<C>, post: DenseStore<C>) -> bool {
        &&& post.id == pre.id
        &&& post.blanks@ == pre.blanks@
        &&& post.data@ == pre.data@
    }

    fn new(cap: usize, id: u128) -> (s: DenseStore<C>) {
        DenseStore {
            blanks: Vec::with_capacity(10),
            data: Vec::with_capacity(cap),
            id: code_index(id),
        }
    }

    fn get_id(&self) -> (r: u8) {
        self.id
    }

    fn len(&self) -> (n: usize) {
        self.data.len()
    }

    fn try_get(&self, entity: &Entity) -> (r: Option<&C>) {
        if entity.components & (1u128 << self.id) > 0 {
            let index = entity.indices[self.id as usize] as usize;
            if index < self.data.len() {
                Some(&self.data[index].1)
            } else {
                None
            }
        } else {
            None
        }
    }

    fn try_get_mut(&mut self, entity: &Entity) -> (r: Option<&mut C>) {
        if entity.components & (1u128 << self.id) > 0 {
            let index = entity.indices[self.id as usize] as usize;
            if index < self.data.len() {
                let p = &mut self.data[index];
                Some(&mut p.1)
            } else {
                None
            }
        } else {
            None
        }
    }

    /// Stores `component` in a blank slot (or a fresh one), records the slot
    /// in the entity's index table, and sets its capability bit. Entity id 0
    /// is the tombstone mark, so the global entity cannot own a dense slot —
    /// hence the precondition on the entity's id.
    fn insert(&mut self, entity: &mut Entity, component: C) {
        let slot: u32 = if let Some(b) = self.blanks.pop() {
            proof {
                let obl = old(self).blanks@;
                assert(obl[obl.len() - 1] < old(self).data@.len());
                assert forall|i: int| 0 <= i < obl.len() - 1 implies (#[trigger] obl[i]) != obl[
                    obl.len() - 1] by {
                    assert(obl[i] != obl[obl.len() - 1]);
                }
            }
            self.data[b as usize] = (entity.id, component);
            b
        } else {
            let s = self.data.len() as u32;
            self.data.push((entity.id, component));
            s
        };
        let id = self.id;
        entity.set_component(id, slot);
        proof {
            crate::bits::lemma_or_sets_bit(old(entity).components, old(self).id);
            assert forall|i: int| 0 <= i < self.blanks@.len()
                implies (#[trigger] self.blanks@[i]) < self.data@.len()
                && self.data@[self.blanks@[i] as int].0 == 0 by {
                if old(self).blanks@.len() > 0 {
                    assert(self.blanks@[i] == old(self).blanks@[i]);
                    assert(old(self).blanks@[i] != old(self).blanks@[old(self).blanks@.len() - 1]);
                } else {
                    let b = self.blanks@[i] as int;
                    assert(self.data@[b] == old(self).data@[b]);
                }
            }
        }
    }

    /// Tombstones the entity's slot, frees it for reuse, and clears the
    /// entity's capability bit; the stored value stays in the slot. Other
    /// entities' slots, and their recorded indices, are untouched.
    fn remove(&mut self, entity: &mut Entity) {
        let index = entity.indices[self.id as usize];
        proof {
            assert forall|i: int| 0 <= i < self.blanks@.len() implies (#[trigger] self.blanks@[i])
                != index by {
                assert(self.data@[self.blanks@[i] as int].0 == 0);
            }
        }
        let p = &mut self.data[index as usize];
        p.0 = 0;
        self.blanks.push(index);
        entity.components = entity.components & !(1u128 << self.id);
        proof {
            crate::bits::lemma_and_not_clears_bit(old(entity).components, old(self).id);
            assert forall|i: int| 0 <= i < self.blanks@.len()
                implies (#[trigger] self.blanks@[i]) < self.data@.len()
                && self.data@[self.blanks@[i] as int].0 == 0 by {
                if i < old(self).blanks@.len() {
                    assert(self.blanks@[i] == old(self).blanks@[i]);
                } else {
                    assert(self.blanks@[i] == index);
                }
            }
        }
    }

    fn reset(&mut self) {
        self.data.clear();
        self.blanks.clear();
    }
}

/// One registered kind's backing container: sparse or dense, fixed when the
/// kind is registered.
pub enum KindStore<C> {
    Sparse(MapStore<C>),
    Dense(DenseStore<C>),
}

/// Whether a kind's container is the dense one.
pub open spec fn kind_is_dense<C>(s: KindStore<C>) -> bool {
    match s {
        KindStore::Sparse(_) => false,
        KindStore::Dense(_) => true,
    }
}

/// The sparse container of a kind (meaningful when it is sparse).
pub open spec fn map_of<C>(s: KindStore<C>) -> MapStore<C> {
    match s {
        KindStore::Sparse(m) => m,
        KindStore::Dense(_) => vstd::pervasive::arbitrary(),
    }
}

/// The dense container of a kind (meaningful when it is dense).
pub open spec fn dense_of<C>(s: KindStore<C>) -> DenseStore<C> {
    match s {
        KindStore::Sparse(_) => vstd::pervasive::arbitrary(),
        KindStore::Dense(d) => d,
    }
}

/// The mask bit position a kind's container was registered under.
pub open spec fn kind_id<C>(s: KindStore<C>) -> u8 {
    match s {
        KindStore::Sparse(m) => m.id,
        KindStore::Dense(d) => d.id,
    }
}

/// A kind's container is well-formed.
pub open spec fn kind_wf<C>(s: KindStore<C>) -> bool {
    match s {
        KindStore::Sparse(m) => m.wf(),
        KindStore::Dense(d) => d.wf(),
    }
}

/// The registry of per-kind containers, keyed by the kind's `u64` key.
pub struct ComponentStoreProto<C> {
    pub store: HashMap<u64, KindStore<C>>,
}

impl<C> ComponentStoreProto<C> {
    pub open spec fn wf(&self) -> bool {
        forall|k: u64| self.store@.contains_key(k) ==> kind_wf(#[trigger] self.store@[k])
    }

    pub open spec fn contains_kind(&self, key: u64) -> bool {
        self.store@.contains_key(key)
    }

    pub fn new() -> (s: ComponentStoreProto<C>)
        ensures
            s.wf(),
            s.store@ == Map::<u64, KindStore<C>>::empty(),
    {
        ComponentStoreProto { store: HashMap::new() }
    }

    /// Allocates the kind's backing container, sized to `cap`, under bit
    /// code `id`; registering an already-known key changes nothing.
    pub fn register(&mut self, key: u64, dense: bool, cap: usize, id: u128)
        requires
            old(self).wf(),
            is_single_bit(id),
        ensures
            final(self).wf(),
            final(self).contains_kind(key),
            old(self).contains_kind(key) ==> final(self).store@ == old(self).store@,
            !old(self).contains_kind(key) ==> {
                &&& final(self).store@ == old(self).store@.insert(key, final(self).store@[key])
                &&& kind_is_dense(final(self).store@[key]) == dense
                &&& (dense ==> {
                    &&& dense_of(final(self).store@[key]).data@.len() == 0
                    &&& dense_of(final(self).store@[key]).blanks@.len() == 0
                    &&& id == (1u128 << dense_of(final(self).store@[key]).id)
                })
                &&& (!dense ==> {
                    &&& map_of(final(self).store@[key]).data@ == Map::<u32, C>::empty()
                    &&& id == (1u128 << map_of(final(self).store@[key]).id)
                })
            },
    {
        if !self.store.contains_key(&key) {
            if dense {
                self.store.insert(key, KindStore::Dense(DenseStore::new(cap, id)));
            } else {
                self.store.insert(key, KindStore::Sparse(MapStore::new(cap, id)));
            }
        }
    }

    /// Whether a kind is registered under `key`.
    pub fn has_kind(&self, key: u64) -> (r: bool)
        ensures
            r == self.contains_kind(key),
    {
        self.store.contains_key(&key)
    }

    /// Whether the kind registered under `key` uses dense storage.
    pub fn kind_dense(&self, key: u64) -> (r: bool)
        requires
            self.contains_kind(key),
        ensures
            r == kind_is_dense(self.store@[key]),
    {
        match self.store.get(&key) {
            Some(KindStore::Dense(_)) => true,
            Some(KindStore::Sparse(_)) => false,
            None => vstd::pervasive::unreached(),
        }
    }

    /// The sparse container registered under `key`; the kind must have been
    /// registered as sparse (a configuration error otherwise).
    pub fn get(&self, key: u64) -> (r: &MapStore<C>)
        requires
            self.contains_kind(key),
            !kind_is_dense(self.store@[key]),
        ensures
            *r == map_of(self.store@[key]),
    {
        match self.store.get(&key) {
            Some(KindStore::Sparse(m)) => m,
            _ => vstd::pervasive::unreached(),
        }
    }

    /// The dense container registered under `key`; the kind must have been
    /// registered as dense (a configuration error otherwise).
    pub fn get_dense(&self, key: u64) -> (r: &DenseStore<C>)
        requires
            self.contains_kind(key),
            kind_is_dense(self.store@[key]),
        ensures
            *r == dense_of(self.store@[key]),
    {
        match self.store.get(&key) {
            Some(KindStore::Dense(d)) => d,
            _ => vstd::pervasive::unreached(),
        }
    }

    pub fn get_mut(&mut self, key: u64) -> (r: &mut MapStore<C>)
        requires
            old(self).wf(),
            old(self).contains_kind(key),
            !kind_is_dense(old(self).store@[key]),
        ensures
            *r == map_of(old(self).store@[key]),
            final(self).store@ == old(self).store@.insert(key, KindStore::Sparse(*final(r))),
    {
        match self.store.entry(key) {
            std::collections::hash_map::Entry::Occupied(e) => match e.into_mut() {
                KindStore::Sparse(m) => m,
                KindStore::Dense(_) => vstd::pervasive::unreached(),
            },
            std::collections::hash_map::Entry::Vacant(_) => vstd::pervasive::unreached(),
        }
    }

    pub fn get_dense_mut(&mut self, key: u64) -> (r: &mut DenseStore<C>)
        requires
            old(self).wf(),
            old(self).contains_kind(key),
            kind_is_dense(old(self).store@[key]),
        ensures
            *r == dense_of(old(self).store@[key]),
            final(self).store@ == old(self).store@.insert(key, KindStore::Dense(*final(r))),
    {
        match self.store.entry(key) {
            std::collections::hash_map::Entry::Occupied(e) => match e.into_mut() {
                KindStore::Dense(d) => d,
                KindStore::Sparse(_) => vstd::pervasive::unreached(),
            },
            std::collections::hash_map::Entry::Vacant(_) => vstd::pervasive::unreached(),
        }
    }

    /// The raw registry, for callers that walk every kind.
    pub fn borrow(&self) -> (r: &HashMap<u64, KindStore<C>>)
        ensures
            r@ == self.store@,
    {
        &self.store
    }

    /// Drops every kind's container (world reload).
    pub fn reset(&mut self)
        ensures
            final(self).wf(),
            final(self).store@ == Map::<u64, KindStore<C>>::empty(),
    {
        self.store.clear();
    }
}

/// Assigns each component kind its bit: the first registered kind gets bit
/// 0 (code 1), the next bit 1 (code 2), and so on, doubling up to the 128
/// kinds the mask can hold. Registration is idempotent.
pub struct ComponentManager {
    pub coder: u128,
    pub store: HashMap<u64, u128>,
}

impl ComponentManager {
    /// At most 128 kinds; while room remains, the next code to hand out is
    /// 2 to the power of the number of kinds registered so far; every
    /// assigned code is a single bit among those already handed out; and
    /// distinct kinds always hold distinct bits.
    pub open spec fn wf(&self) -> bool {
        &&& self.store@.len() <= 128
        &&& self.store@.len() < 128 ==> self.coder == (1u128 << (self.store@.len() as u8))
        &&& forall|k: u64|
            self.store@.contains_key(k) ==> exists|i: u8|
                i < self.store@.len() && (#[trigger] self.store@[k]) == (1u128 << i)
        &&& forall|k1: u64, k2: u64|
            #![trigger self.store@[k1], self.store@[k2]]
            self.store@.contains_key(k1) && self.store@.contains_key(k2) && k1 != k2
                ==> self.store@[k1] != self.store@[k2]
    }

    /// Distinct kinds always hold distinct bits: no two registered kinds
    /// share a code, so a query mask built from codes tells kinds apart.
    pub proof fn lemma_codes_distinct(&self, k1: u64, k2: u64)
        requires
            self.wf(),
            self.store@.contains_key(k1),
            self.store@.contains_key(k2),
            k1 != k2,
        ensures
            self.store@[k1] != self.store@[k2],
    {
    }

    pub fn new() -> (m: ComponentManager)
        ensures
            m.wf(),
            m.store@ == Map::<u64, u128>::empty(),
            m.coder == 1,
    {
        let m = ComponentManager { coder: 1, store: HashMap::new() };
        proof {
            assert(1u128 == (1u128 << 0u8)) by (bit_vector);
        }
        m
    }

    /// Registers the kind keyed by `key`: a known key gets its old code
    /// back, a new key the next unused bit. More than 128 kinds is a fatal
    /// configuration error, left out here by precondition.
    pub fn register_component(&mut self, key: u64) -> (code: u128)
        requires
            old(self).wf(),
            old(self).store@.contains_key(key) || old(self).store@.len() < 128,
        ensures
            final(self).wf(),
            is_single_bit(code),
            final(self).store@.contains_key(key),
            final(self).store@[key] == code,
            old(self).store@.contains_key(key) ==> final(self).store@ == old(self).store@
                && code == old(self).store@[key],
            !old(self).store@.contains_key(key) ==> final(self).store@ == old(self).store@.insert(key, code) && code == (1u128 << (old(self).store@.len() as u8)),
    {
        match self.store.get(&key) {
            Some(id) => *id,
            None => {
                let id = self.coder;
                proof {
                    let n = self.store@.len() as u8;
                    assert(n < 127 ==> (1u128 << n) * 2 == (1u128 << (n + 1) as u8))
                        by (bit_vector);
                    assert(n < 127 ==> (1u128 << n) <= (1u128 << 126u8)) by (bit_vector);
                    assert((1u128 << 126u8) * 2 < u128::MAX) by (bit_vector);
                }
                if self.store.len() < 127 {
                    self.coder = self.coder * 2;
                }
                self.store.insert(key, id);
                proof {
                    let n = old(self).store@.len() as u8;
                    assert forall|k: u64| self.store@.contains_key(k) implies exists|i: u8|
                        i < self.store@.len() && (#[trigger] self.store@[k]) == (1u128 << i) by {
                        if k != key {
                            let i = choose|i: u8|
                                i < old(self).store@.len() && old(self).store@[k] == (1u128 << i);
                            assert(i < self.store@.len() && self.store@[k] == (1u128 << i));
                        } else {
                            assert(n < self.store@.len() && self.store@[key] == (1u128 << n));
                        }
                    }
                    assert forall|k1: u64, k2: u64|
                        #![trigger self.store@[k1], self.store@[k2]]
                        self.store@.contains_key(k1) && self.store@.contains_key(k2) && k1 != k2
                        implies self.store@[k1] != self.store@[k2] by {
                        if k1 != key && k2 != key {
                            assert(old(self).store@[k1] != old(self).store@[k2]);
                        } else if k1 == key {
                            let i = choose|i: u8|
                                i < old(self).store@.len() && old(self).store@[k2] == (1u128 << i);
                            crate::bits::lemma_distinct_bits(i, n);
                        } else {
                            let i = choose|i: u8|
                                i < old(self).store@.len() && old(self).store@[k1] == (1u128 << i);
                            crate::bits::lemma_distinct_bits(i, n);
                        }
                    }
                }
                id
            },
        }
    }

    /// The code already assigned to the kind keyed by `key`, if any.
    pub fn get_code(&self, key: u64) -> (r: Option<&u128>)
        ensures
            match r {
                Some(c) => self.store@.contains_key(key) && *c == self.store@[key],
                None => !self.store@.contains_key(key),
            },
    {
        self.store.get(&key)
    }

    /// Forgets every kind and starts the codes over (world reload).
    pub fn reset(&mut self)
        ensures
            final(self).wf(),
            final(self).store@ == Map::<u64, u128>::empty(),
            final(self).coder == 1,
    {
        self.coder = 1;
        self.store.clear();
        proof {
            assert(1u128 == (1u128 << 0u8)) by (bit_vector);
        }
    }
}

} // verus!
