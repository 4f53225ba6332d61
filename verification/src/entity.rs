//! Entity identity and lifecycle: `u32` ids handed out by an [`EntityStore`]
//! that recycles removed slots through a free list. An entity itself carries
//! no data, only a capability mask and a slot-index table for dense
//! component kinds.

use vstd::prelude::*;
use crate::bits::bit_set;
use crate::component::{ComponentStoreProto, ComponentStorage, kind_is_dense, map_of, dense_of, DenseStore};

verus! {

/// One simulated object: its id, its capability mask, and, for each of the
/// 128 possible component kinds, the slot index into that kind's dense array
/// (meaningful only for dense kinds whose bit is set in the mask).
#[derive(Clone)]
pub struct Entity {
    pub id: u32,
    pub components: u128,
    pub indices: [u32; 128],
}

/// The entity record that a freshly created or reset slot holds: the given
/// id, an empty capability mask, and an all-zero slot-index table.
pub open spec fn entity_reset(e: Entity, id: u32) -> bool {
    &&& e.id == id
    &&& e.components == 0
    &&& forall|i: int| 0 <= i < 128 ==> e.indices@[i] == 0
}

impl Entity {
    pub fn new(id: u32) -> (e: Entity)
        ensures
            entity_reset(e, id),
    {
        Entity { id, components: 0, indices: [0u32; 128] }
    }

    /// Reuses this record for a new entity: same slot, clean mask and table.
    pub fn reset(&mut self, id: u32)
        ensures
            entity_reset(*final(self), id),
    {
        self.id = id;
        self.components = 0;
        self.indices = [0u32; 128];
    }

    /// Records that this entity carries component kind `id`, stored at
    /// `index` (the index matters only for dense kinds).
    pub fn set_component(&mut self, id: u8, index: u32)
        requires
            id < 128,
        ensures
            final(self).id == old(self).id,
            final(self).components == old(self).components | (1u128 << id),
            final(self).indices@ == old(self).indices@.update(id as int, index),
    {
        self.indices[id as usize] = index;
        self.components = self.components | (1u128 << id);
    }

    /// True when this entity currently carries component kind `id`.
    pub fn has_component(&self, id: u8) -> (r: bool)
        requires
            id < 128,
        ensures
            r == bit_set(self.components, id),
    {
        self.components & (1u128 << id) > 0
    }

    /// The query surface: true when this entity carries every kind in the
    /// query mask (built by OR-ing the kinds' codes together).
    pub fn matches_mask(&self, mask: u128) -> (r: bool)
        ensures
            r == (self.components & mask == mask),
    {
        self.components & mask == mask
    }
}

/// Owns all entity records. Slot `i` of `data` holds the entity with id `i`;
/// a removed entity's slot keeps id `0` (the tombstone mark) and its index
/// goes on the `blanks` free list for reuse. Live ids are therefore unique
/// by construction; id `0` is reserved for the one global entity.
pub struct EntityStore {
    pub blanks: Vec<usize>,
    pub data: Vec<Entity>,
}

impl EntityStore {
    /// Record of slot `i`, as a spec-level convenience.
    pub open spec fn slot(&self, i: int) -> Entity {
        self.data@[i]
    }

    pub open spec fn len(&self) -> int {
        self.data@.len() as int
    }

    pub open spec fn free_list(&self) -> Seq<usize> {
        self.blanks@
    }

    /// Slot `i` holds a live entity: its stored id matches its position.
    /// (Slot 0 is the global entity, whose id is the tombstone value 0.)
    pub open spec fn live(&self, i: int) -> bool {
        0 <= i < self.len() && self.slot(i).id == i as u32
    }

    /// Well-formedness: free-list entries are distinct tombstoned slots in
    /// range, every slot's id is either its own position or 0, and ids fit
    /// in `u32`.
    pub open spec fn wf(&self) -> bool {
        &&& self.len() <= u32::MAX as int
        &&& forall|i: int| 0 <= i < self.free_list().len() ==> {
            &&& (#[trigger] self.free_list()[i]) < self.len()
            &&& self.slot(self.free_list()[i] as int).id == 0
        }
        &&& forall|i: int, j: int|
            0 <= i < j < self.free_list().len() ==> self.free_list()[i] != self.free_list()[j]
        &&& forall|i: int|
            0 <= i < self.len() ==> ((#[trigger] self.slot(i)).id == i as u32 || self.slot(
                i,
            ).id == 0)
    }

    /// How `remove` changes a store: a live, non-global slot is tombstoned
    /// (only its id changes) and pushed on the free list; anything else is
    /// left alone.
    pub open spec fn remove_post(pre: EntityStore, post: EntityStore, entity: u32) -> bool {
        if entity < pre.len() && pre.slot(entity as int).id != 0 {
            &&& post.len() == pre.len()
            &&& post.slot(entity as int).id == 0
            &&& post.slot(entity as int).components == pre.slot(entity as int).components
            &&& post.slot(entity as int).indices == pre.slot(entity as int).indices
            &&& forall|i: int| 0 <= i < pre.len() && i != entity ==> post.slot(i) == pre.slot(i)
            &&& post.free_list() == pre.free_list().push(entity as usize)
        } else {
            &&& post.data@ == pre.data@
            &&& post.free_list() == pre.free_list()
        }
    }

    /// How `create_entity` changes a store: the last free slot is reused
    /// and reset, or a fresh slot is appended; either way the new entity's
    /// mask and slot table start empty and every other slot is untouched.
    pub open spec fn create_post(pre: EntityStore, post: EntityStore, r: u32) -> bool {
        if pre.free_list().len() > 0 {
            let b = pre.free_list().last() as int;
            &&& r == pre.free_list().last() as u32
            &&& post.free_list() == pre.free_list().drop_last()
            &&& post.len() == pre.len()
            &&& entity_reset(post.slot(b), r)
            &&& forall|i: int| 0 <= i < pre.len() && i != b ==> post.slot(i) == pre.slot(i)
        } else {
            &&& r == pre.len() as u32
            &&& post.free_list() == pre.free_list()
            &&& post.len() == pre.len() + 1
            &&& entity_reset(post.slot(pre.len()), r)
            &&& forall|i: int| 0 <= i < pre.len() ==> post.slot(i) == pre.slot(i)
        }
    }

    pub fn new(cap: usize) -> (s: EntityStore)
        ensures
            s.wf(),
            s.len() == 0,
            s.free_list().len() == 0,
    {
        EntityStore { blanks: Vec::with_capacity(10), data: Vec::with_capacity(cap) }
    }

    /// All slots, live and tombstoned alike; callers filter by mask or id.
    pub fn iter(&self) -> (r: &Vec<Entity>)
        ensures
            r@ == self.data@,
    {
        &self.data
    }

    /// Mutable access to all slots. The caller may change masks, tables and
    /// component values freely; rewriting stored ids would break the store's
    /// well-formedness, which later calls rely on.
    pub fn iter_mut(&mut self) -> (r: &mut Vec<Entity>)
        ensures
            r@ == old(self).data@,
            final(self).data@ == final(r)@,
            final(self).blanks@ == old(self).blanks@,
    {
        &mut self.data
    }

    /// The record for entity `index`, or `None` when that id is not live
    /// (out of range, or a recycled slot now holding a different id).
    pub fn get(&self, index: u32) -> (r: Option<&Entity>)
        ensures
            match r {
                Some(e) => self.live(index as int) && *e == self.slot(index as int),
                None => !self.live(index as int),
            },
    {
        if (index as usize) < self.data.len() {
            let entity = &self.data[index as usize];
            if entity.id == index {
                Some(entity)
            } else {
                None
            }
        } else {
            None
        }
    }

    /// Mutable counterpart of `get`: the caller may rewrite everything but
    /// should leave the id alone (see `iter_mut`).
    pub fn get_mut(&mut self, index: u32) -> (r: Option<&mut Entity>)
        ensures
            final(self).blanks@ == old(self).blanks@,
            r.is_some() == old(self).live(index as int),
            r.is_some() ==> {
                &&& *r.unwrap() == old(self).slot(index as int)
                &&& final(self).data@ == old(self).data@.update(index as int, *final(r.unwrap()))
            },
            r.is_none() ==> final(self).data@ == old(self).data@,
    {
        if (index as usize) < self.data.len() {
            let entity = &mut self.data[index as usize];
            if entity.id == index {
                Some(entity)
            } else {
                None
            }
        } else {
            None
        }
    }

    /// Hands out an id: the most recently freed slot when one exists
    /// (reset to an empty mask and table), else the next sequential id.
    pub fn create_entity(&mut self) -> (r: u32)
        requires
            old(self).wf(),
            old(self).len() < u32::MAX as int,
        ensures
            final(self).wf(),
            EntityStore::create_post(*old(self), *final(self), r),
            final(self).live(r as int),
    {
        if let Some(index) = self.blanks.pop() {
            proof {
                let ofl = old(self).free_list();
                assert(ofl[ofl.len() - 1] < old(self).len());
                assert forall|i: int| 0 <= i < ofl.len() - 1 implies (#[trigger] ofl[i])
                    != ofl[ofl.len() - 1] by {
                    assert(ofl[i] != ofl[ofl.len() - 1]);
                }
            }
            let id = index as u32;
            self.data[index] = Entity::new(id);
            proof {
                assert forall|i: int| 0 <= i < self.free_list().len()
                    implies (#[trigger] self.free_list()[i]) < self.len()
                    && self.slot(self.free_list()[i] as int).id == 0 by {
                    assert(self.free_list()[i] == old(self).free_list()[i]);
                    assert(old(self).free_list()[i] != old(self).free_list()[
                        old(self).free_list().len() - 1]);
                }
                assert forall|i: int|
                    0 <= i < self.len() implies ((#[trigger] self.slot(i)).id == i as u32
                    || self.slot(i).id == 0) by {
                    if i != index {
                        assert(self.slot(i) == old(self).slot(i));
                    }
                }
            }
            id
        } else {
            let index = self.data.len() as u32;
            self.data.push(Entity::new(index));
            proof {
                assert forall|i: int| 0 <= i < self.free_list().len()
                    implies (#[trigger] self.free_list()[i]) < self.len()
                    && self.slot(self.free_list()[i] as int).id == 0 by {
                    assert(self.slot(old(self).free_list()[i] as int)
                        == old(self).slot(old(self).free_list()[i] as int));
                }
                assert forall|i: int|
                    0 <= i < self.len() implies ((#[trigger] self.slot(i)).id == i as u32
                    || self.slot(i).id == 0) by {
                    if i < old(self).len() {
                        assert(self.slot(i) == old(self).slot(i));
                    }
                }
            }
            index
        }
    }

    /// Tombstones a live, non-global entity and frees its slot for reuse;
    /// a no-op for ids that are already dead or out of range. Component
    /// stores are not cleaned here: a dense store may keep a stale entry
    /// until the kind's own `remove` runs (a documented hazard).
    pub fn remove(&mut self, entity: u32)
        requires
            old(self).wf(),
        ensures
            final(self).wf(),
            EntityStore::remove_post(*old(self), *final(self), entity),
    {
        let idx = entity as usize;
        if idx < self.data.len() && self.data[idx].id != 0 {
            proof {
                assert forall|i: int| 0 <= i < self.free_list().len()
                    implies self.free_list()[i] != idx by {
                    assert(self.slot(self.free_list()[i] as int).id == 0);
                }
            }
            let e = &mut self.data[idx];
            e.id = 0;
            self.blanks.push(idx);
            proof {
                assert(self.free_list() == old(self).free_list().push(idx));
                assert forall|i: int| 0 <= i < self.free_list().len()
                    implies (#[trigger] self.free_list()[i]) < self.len()
                    && self.slot(self.free_list()[i] as int).id == 0 by {
                    if i < old(self).free_list().len() {
                        assert(self.free_list()[i] == old(self).free_list()[i]);
                    } else {
                        assert(self.free_list()[i] == idx);
                    }
                }
                assert forall|i: int|
                    0 <= i < self.len() implies ((#[trigger] self.slot(i)).id == i as u32
                    || self.slot(i).id == 0) by {
                    if i != idx {
                        assert(self.slot(i) == old(self).slot(i));
                    }
                }
            }
        }
    }

    /// Drops every entity and the free list (world reload).
    pub fn reset(&mut self)
        ensures
            final(self).wf(),
            final(self).len() == 0,
            final(self).free_list().len() == 0,
    {
        self.blanks.clear();
        self.data.clear();
    }

    /// Live entity count: allocated slots minus freed slots.
    pub fn count(&self) -> (r: usize)
        requires
            self.wf(),
        ensures
            r == self.len() - self.free_list().len(),
    {
        proof {
            self.lemma_free_list_bounded();
        }
        self.data.len() - self.blanks.len()
    }

    /// Creates the global entity (id 0) when the store is still empty.
    pub fn create_first_entity(&mut self) -> (r: u32)
        requires
            old(self).wf(),
        ensures
            final(self).wf(),
            r == 0,
            old(self).len() == 0 ==> final(self).len() == 1 && entity_reset(final(self).slot(0), 0)
                && final(self).free_list() == old(self).free_list(),
            old(self).len() >= 1 ==> *final(self) == *old(self),
    {
        if self.data.len() < 1 {
            self.data.push(Entity::new(0));
            proof {
                assert forall|i: int| 0 <= i < self.free_list().len()
                    implies (#[trigger] self.free_list()[i]) < self.len()
                    && self.slot(self.free_list()[i] as int).id == 0 by {
                    assert(old(self).free_list()[i] < old(self).len());
                    assert(false);
                }
                assert forall|i: int|
                    0 <= i < self.len() implies ((#[trigger] self.slot(i)).id == i as u32
                    || self.slot(i).id == 0) by {
                    assert(self.slot(i).id == 0);
                }
            }
        }
        0
    }

    /// The free list is no longer than the slot array: its entries are
    /// distinct indices into it.
    pub proof fn lemma_free_list_bounded(&self)
        requires
            self.wf(),
        ensures
            self.free_list().len() <= self.len(),
    {
        let m = Seq::new(self.free_list().len(), |i: int| self.free_list()[i] as int);
        assert forall|i: int, j: int| 0 <= i < m.len() && 0 <= j < m.len() && i != j
            implies m[i] != m[j] by {
            if i < j {
                assert(self.free_list()[i] != self.free_list()[j]);
            } else {
                assert(self.free_list()[j] != self.free_list()[i]);
            }
        }
        m.unique_seq_to_set();
        let range = vstd::set_lib::set_int_range(0, self.len());
        assert forall|x: int| m.to_set().contains(x) implies range.contains(x) by {
            let i = choose|i: int| 0 <= i < m.len() && m[i] == x;
            assert(self.free_list()[i] < self.len());
        }
        vstd::set_lib::lemma_int_range(0, self.len());
        vstd::set_lib::lemma_len_subset(m.to_set(), range);
    }

    /// No two simultaneously live entities share an id: a live slot's id is
    /// its own position, so distinct slots carry distinct ids.
    pub proof fn lemma_live_ids_unique(&self, i: int, j: int)
        requires
            self.wf(),
            self.live(i),
            self.live(j),
            i != j,
        ensures
            self.slot(i).id != self.slot(j).id,
    {
    }

    /// Free-list reuse: creating an entity right after removing a live
    /// entity `e` hands back `e`'s old id, with mask and slot table reset.
    pub proof fn lemma_free_list_reuse(s0: EntityStore, s1: EntityStore, s2: EntityStore, e: u32, r: u32)
        requires
            s0.wf(),
            s0.live(e as int),
            s0.slot(e as int).id != 0,
            EntityStore::remove_post(s0, s1, e),
            EntityStore::create_post(s1, s2, r),
        ensures
            r == e,
            entity_reset(s2.slot(e as int), e),
    {
        assert(s1.free_list() == s0.free_list().push(e as usize));
        assert(s1.free_list().last() == e as usize);
    }

    /// The ids of all slots whose entities carry every kind in the query
    /// mask, in slot (and therefore id) order. Tombstoned slots keep their
    /// last mask, so callers that tolerate no stale entries should also
    /// check liveness with `get`.
    pub fn matching(&self, mask: u128) -> (r: Vec<u32>)
        requires
            self.wf(),
        ensures
            forall|j: int|
                0 <= j < r@.len() ==> (#[trigger] r@[j]) < self.len() && self.slot(
                    r@[j] as int,
                ).components & mask == mask,
            forall|i: int|
                0 <= i < self.len() && (#[trigger] self.slot(i)).components & mask == mask
                    ==> exists|j: int| 0 <= j < r@.len() && r@[j] == i,
            forall|j1: int, j2: int| 0 <= j1 < j2 < r@.len() ==> r@[j1] < r@[j2],
    {
        let mut r: Vec<u32> = Vec::new();
        let n = self.data.len();
        let mut i: usize = 0;
        while i < n
            invariant
                n == self.len(),
                self.wf(),
                i <= n,
                forall|j: int|
                    0 <= j < r@.len() ==> (#[trigger] r@[j]) < i && self.slot(
                        r@[j] as int,
                    ).components & mask == mask,
                forall|k: int|
                    0 <= k < i && (#[trigger] self.slot(k)).components & mask == mask
                        ==> exists|j: int| 0 <= j < r@.len() && r@[j] == k,
                forall|j1: int, j2: int| 0 <= j1 < j2 < r@.len() ==> r@[j1] < r@[j2],
            decreases n - i,
        {
            let ghost r0 = r@;
            if self.data[i].components & mask == mask {
                r.push(i as u32);
            }
            proof {
                assert forall|k: int|
                    0 <= k < i + 1 && (#[trigger] self.slot(k)).components & mask == mask
                    implies exists|j: int| 0 <= j < r@.len() && r@[j] == k by {
                    if k == i {
                        assert(r@[r@.len() - 1] == k);
                    } else {
                        let j = choose|j: int| 0 <= j < r0.len() && r0[j] == k;
                        assert(r@[j] == k);
                    }
                }
            }
            i += 1;
        }
        r
    }

    /// Binds `component` of the kind keyed by `key` to the given entity:
    /// stores the value in the kind's container and sets the entity's
    /// capability bit. A no-op when the id is not live, and for a dense
    /// kind on the global entity (id 0 is the dense tombstone mark).
    pub fn bind_component<C>(
        &mut self,
        store: &mut ComponentStoreProto<C>,
        key: u64,
        entity: u32,
        component: C,
    )
        requires
            old(self).wf(),
            old(store).wf(),
            old(store).contains_kind(key),
            kind_is_dense(old(store).store@[key]) ==> dense_of(old(store).store@[key]).data@.len()
                < u32::MAX as int,
        ensures
            final(self).wf(),
            final(store).wf(),
            final(self).free_list() == old(self).free_list(),
            final(self).len() == old(self).len(),
            forall|i: int|
                0 <= i < old(self).len() && i != entity ==> final(self).slot(i) == old(self).slot(
                    i,
                ),
            final(store).store@.dom() == old(store).store@.dom(),
            forall|k2: u64|
                k2 != key && old(store).store@.contains_key(k2) ==> final(store).store@[k2]
                    == old(store).store@[k2],
            !old(self).live(entity as int) ==> final(self).data@ == old(self).data@
                && final(store).store@ == old(store).store@,
            old(self).live(entity as int) && !kind_is_dense(old(store).store@[key]) ==> {
                &&& !kind_is_dense(final(store).store@[key])
                &&& map_of(final(store).store@[key]).id == map_of(old(store).store@[key]).id
                &&& map_of(final(store).store@[key]).data@ == map_of(
                    old(store).store@[key],
                ).data@.insert(entity, component)
                &&& final(self).slot(entity as int).id == entity
                &&& final(self).slot(entity as int).indices == old(self).slot(entity as int).indices
                &&& final(self).slot(entity as int).components == old(self).slot(
                    entity as int,
                ).components | (1u128 << map_of(old(store).store@[key]).id)
            },
            old(self).live(entity as int) && kind_is_dense(old(store).store@[key]) && entity != 0
                ==> {
                &&& kind_is_dense(final(store).store@[key])
                &&& DenseStore::insert_post(
                    dense_of(old(store).store@[key]),
                    dense_of(final(store).store@[key]),
                    old(self).slot(entity as int),
                    final(self).slot(entity as int),
                    component,
                )
                &&& dense_of(final(store).store@[key]).owns(final(self).slot(entity as int))
            },
            old(self).live(entity as int) && kind_is_dense(old(store).store@[key]) && entity == 0
                ==> final(self).data@ == old(self).data@ && final(store).store@ == old(store).store@,
    {
        let is_live = match self.get(entity) {
            Some(_) => true,
            None => false,
        };
        if !is_live {
            return ;
        }
        if store.kind_dense(key) {
            if entity == 0 {
                return ;
            }
            let d = store.get_dense_mut(key);
            let e = &mut self.data[entity as usize];
            d.insert(e, component);
            proof {
                assert(self.free_list() == old(self).free_list());
                assert(self.len() == old(self).len());
                assert forall|i: int| 0 <= i < self.free_list().len()
                    implies (#[trigger] self.free_list()[i]) < self.len()
                    && self.slot(self.free_list()[i] as int).id == 0 by {
                    let b = self.free_list()[i] as int;
                    assert(self.free_list() == old(self).free_list());
                    assert(b < old(self).len());
                    assert(old(self).slot(b).id == 0);
                    if b != entity as int {
                        assert(self.slot(b) == old(self).slot(b));
                    } else {
                        assert(self.slot(b).id == old(self).slot(b).id);
                    }
                }
                assert forall|i: int|
                    0 <= i < self.len() implies ((#[trigger] self.slot(i)).id == i as u32
                    || self.slot(i).id == 0) by {
                    if i != entity {
                        assert(self.slot(i) == old(self).slot(i));
                    }
                }
            }
        } else {
            let m = store.get_mut(key);
            let e = &mut self.data[entity as usize];
            m.insert(e, component);
            proof {
                assert(self.free_list() == old(self).free_list());
                assert(self.len() == old(self).len());
                assert forall|i: int| 0 <= i < self.free_list().len()
                    implies (#[trigger] self.free_list()[i]) < self.len()
                    && self.slot(self.free_list()[i] as int).id == 0 by {
                    let b = self.free_list()[i] as int;
                    assert(self.free_list() == old(self).free_list());
                    assert(b < old(self).len());
                    assert(old(self).slot(b).id == 0);
                    if b != entity as int {
                        assert(self.slot(b) == old(self).slot(b));
                    } else {
                        assert(self.slot(b).id == old(self).slot(b).id);
                    }
                }
                assert forall|i: int|
                    0 <= i < self.len() implies ((#[trigger] self.slot(i)).id == i as u32
                    || self.slot(i).id == 0) by {
                    if i != entity {
                        assert(self.slot(i) == old(self).slot(i));
                    }
                }
            }
        }
    }
}

} // verus!
