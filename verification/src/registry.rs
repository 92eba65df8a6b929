//! The entity registry: a dense table of slots with stable, generation
//! counted handles. A despawned slot keeps its bumped generation so stale
//! handles can never resurrect onto a reused slot.

use vstd::prelude::*;

use crate::components::{Equippable, Name, Renderable, Stats};
use crate::field_of_view::FieldOfView;
use crate::position::Position;

verus! {

/// A stable handle to one registry slot. Live only while the slot's
/// generation still matches.
#[derive(Clone, Copy, Debug, PartialEq, Eq, Hash, Structural)]
pub struct EntityId {
    pub index: usize,
    pub generation: u64,
}

/// What an entity is, for dispatch by the systems that walk the registry.
#[derive(Clone, Copy, Debug, PartialEq, Eq, Hash, Structural)]
pub enum EntityKind {
    PlayerActor,
    MonsterActor,
    NpcActor,
    ItemEntity,
}

/// Everything one entity owns. Optional parts absent for a given entity
/// stay `None`.
#[derive(Clone, Debug)]
pub struct EntityRecord {
    pub kind: EntityKind,
    pub position: Option<Position>,
    pub fov: Option<FieldOfView>,
    pub stats: Option<Stats>,
    pub renderable: Option<Renderable>,
    pub name: Option<Name>,
    pub consumable: bool,
    pub equippable: Option<Equippable>,
}

/// One slot of the table: its reuse counter and, when occupied, a record.
#[derive(Clone, Debug)]
pub struct Slot {
    pub generation: u64,
    pub record: Option<EntityRecord>,
}

/// The dense entity table.
#[derive(Clone, Debug)]
pub struct Registry {
    pub slots: Vec<Slot>,
}


/// What a committed move leaves in an entity's record: the new position,
/// the visibility cache marked stale, everything else untouched.
pub open spec fn spec_moved_record(rec: EntityRecord, new_pos: Position) -> EntityRecord {
    EntityRecord {
        position: Some(new_pos),
        fov: match rec.fov {
            Some(f) => Some(FieldOfView { is_dirty: true, ..f }),
            None => None,
        },
        ..rec
    }
}

/// The handle points at an occupied slot of matching generation, as a
/// predicate over the raw slot table.
pub open spec fn spec_live_slots(slots: Seq<Slot>, id: EntityId) -> bool {
    &&& (id.index as int) < slots.len()
    &&& slots[id.index as int].generation == id.generation
    &&& slots[id.index as int].record is Some
}

/// The record a live handle points at, over the raw slot table.
pub open spec fn spec_record_slots(slots: Seq<Slot>, id: EntityId) -> EntityRecord
    recommends
        spec_live_slots(slots, id),
{
    slots[id.index as int].record->Some_0
}

/// How many slots of the table are occupied: the number of live entities.
pub open spec fn spec_occupied_count(slots: Seq<Slot>) -> int
    decreases slots.len(),
{
    if slots.len() == 0 {
        0
    } else {
        spec_occupied_count(slots.drop_last()) + if slots.last().record is Some {
            1int
        } else {
            0int
        }
    }
}

/// Replacing one slot changes the occupied count by the difference of the
/// two slots' occupancy.
proof fn lemma_occupied_count_update(slots: Seq<Slot>, i: int, v: Slot)
    requires
        0 <= i < slots.len(),
    ensures
        spec_occupied_count(slots.update(i, v)) == spec_occupied_count(slots) - (if slots[i].record
            is Some {
            1int
        } else {
            0int
        }) + (if v.record is Some {
            1int
        } else {
            0int
        }),
    decreases slots.len(),
{
    if i == slots.len() - 1 {
        assert(slots.update(i, v).drop_last() =~= slots.drop_last());
        assert(slots.update(i, v).last() == v);
    } else {
        assert(slots.update(i, v).drop_last() =~= slots.drop_last().update(i, v));
        assert(slots.update(i, v).last() == slots.last());
        lemma_occupied_count_update(slots.drop_last(), i, v);
    }
}

/// Appending a slot adds its occupancy to the count.
proof fn lemma_occupied_count_push(slots: Seq<Slot>, v: Slot)
    ensures
        spec_occupied_count(slots.push(v)) == spec_occupied_count(slots) + (if v.record is Some {
            1int
        } else {
            0int
        }),
{
    assert(slots.push(v).drop_last() =~= slots);
    assert(slots.push(v).last() == v);
}

impl Registry {
    /// Every occupied slot still has room to bump its generation on
    /// despawn, so live handles are never at the counter's edge.
    pub open spec fn wf(self) -> bool {
        forall|k: int|
            0 <= k < self.slots@.len() && (#[trigger] self.slots@[k]).record is Some
                ==> self.slots@[k].generation < u64::MAX
    }

    /// The handle points at an occupied slot of matching generation.
    pub open spec fn spec_live(self, id: EntityId) -> bool {
        spec_live_slots(self.slots@, id)
    }

    /// The record a live handle points at.
    pub open spec fn spec_record(self, id: EntityId) -> EntityRecord
        recommends
            self.spec_live(id),
    {
        spec_record_slots(self.slots@, id)
    }

    /// An empty registry.
    pub fn new() -> (r: Self)
        ensures
            r.wf(),
            r.slots@.len() == 0,
            forall|id: EntityId| !r.spec_live(id),
    {
        Self { slots: Vec::new() }
    }

    /// How many slots the table holds (occupied or free).
    pub fn slot_count(&self) -> (r: usize)
        ensures
            r == self.slots@.len(),
    {
        self.slots.len()
    }

    /// Whether the handle is still live.
    pub fn is_live(&self, id: EntityId) -> (r: bool)
        ensures
            r == self.spec_live(id),
    {
        id.index < self.slots.len() && self.slots[id.index].generation == id.generation
            && self.slots[id.index].record.is_some()
    }

    /// Put a record into the first free slot whose generation counter is
    /// not exhausted, or into a fresh slot at the end. The returned handle
    /// is live, was not live before, and every handle live before stays
    /// live with its record untouched.
    pub fn spawn(&mut self, record: EntityRecord) -> (id: EntityId)
        requires
            old(self).wf(),
            old(self).slots@.len() < usize::MAX,
        ensures
            final(self).wf(),
            old(self).slots@.len() <= final(self).slots@.len() <= old(self).slots@.len() + 1,
            spec_occupied_count(final(self).slots@) == spec_occupied_count(old(self).slots@) + 1,
            final(self).spec_live(id),
            final(self).spec_record(id) == record,
            !old(self).spec_live(id),
            forall|other: EntityId|
                old(self).spec_live(other) ==> #[trigger] final(self).spec_live(other) && final(self).spec_record(other) == old(self).spec_record(other) && other != id,
            forall|other: EntityId|
                #[trigger] final(self).spec_live(other) ==> old(self).spec_live(other) || other
                    == id,
    {
        let n = self.slots.len();
        let mut i: usize = 0;
        while i < n
            invariant
                i <= n,
                n == self.slots@.len(),
                self.wf(),
                self == old(self),
                old(self).slots@.len() < usize::MAX,
                forall|k: int|
                    0 <= k < i ==> (#[trigger] self.slots@[k]).record is Some
                        || self.slots@[k].generation == u64::MAX,
            decreases n - i,
        {
            if self.slots[i].record.is_none() && self.slots[i].generation < u64::MAX {
                let generation = self.slots[i].generation;
                let slot = &mut self.slots[i];
                slot.record = Some(record);
                let id = EntityId { index: i, generation };
                assert(self.slots@ == old(self).slots@.update(
                    i as int,
                    Slot { generation, record: self.slots@[i as int].record },
                ));
                proof {
                    assert forall|k: int|
                        0 <= k < self.slots@.len() && (#[trigger] self.slots@[k]).record is Some
                        implies self.slots@[k].generation < u64::MAX by {
                        if k != i {
                            assert(self.slots@[k] == old(self).slots@[k]);
                        }
                    }
                    lemma_occupied_count_update(
                        old(self).slots@,
                        i as int,
                        self.slots@[i as int],
                    );
                }
                return id;
            }
            i = i + 1;
        }
        let generation: u64 = 0;
        self.slots.push(Slot { generation, record: Some(record) });
        proof {
            lemma_occupied_count_push(
                old(self).slots@,
                Slot { generation: 0, record: self.slots@[n as int].record },
            );
            assert(self.slots@ == old(self).slots@.push(
                Slot { generation: 0, record: self.slots@[n as int].record },
            ));
        }
        EntityId { index: n, generation }
    }

    /// Free the slot a live handle points at and bump its generation; a
    /// dead handle is a no-op returning false. Every other handle keeps
    /// its state.
    pub fn despawn(&mut self, id: EntityId) -> (r: bool)
        requires
            old(self).wf(),
        ensures
            final(self).wf(),
            r == old(self).spec_live(id),
            !r ==> *final(self) == *old(self),
            r ==> !final(self).spec_live(id),
            forall|other: EntityId|
                old(self).spec_live(other) && other != id ==> #[trigger] final(self).spec_live(
                    other,
                ) && final(self).spec_record(other) == old(self).spec_record(other),
            forall|other: EntityId|
                #[trigger] final(self).spec_live(other) ==> old(self).spec_live(other) && other
                    != id,
    {
        if !self.is_live(id) {
            return false;
        }
        let generation = self.slots[id.index].generation;
        let slot = &mut self.slots[id.index];
        slot.record = None;
        slot.generation = generation + 1;
        assert(self.slots@ == old(self).slots@.update(
            id.index as int,
            Slot { generation: (generation + 1) as u64, record: None },
        ));
        true
    }


    /// Commit a move of a live entity that has a position: store the new
    /// position and mark its visibility state stale. This is the single
    /// path through which a position ever changes after spawn. No other
    /// entity's state changes.
    pub fn move_and_dirty(&mut self, id: EntityId, new_pos: Position)
        requires
            old(self).wf(),
            old(self).spec_live(id),
            old(self).spec_record(id).position is Some,
        ensures
            final(self).wf(),
            final(self).spec_live(id),
            final(self).spec_record(id) == spec_moved_record(old(self).spec_record(id), new_pos),
            final(self).slots@ == old(self).slots@.update(
                id.index as int,
                Slot {
                    generation: id.generation,
                    record: Some(spec_moved_record(old(self).spec_record(id), new_pos)),
                },
            ),
            final(self).slots@.len() == old(self).slots@.len(),
            forall|other: EntityId|
                old(self).spec_live(other) && other != id ==> #[trigger] final(self).spec_live(
                    other,
                ) && final(self).spec_record(other) == old(self).spec_record(other),
            forall|other: EntityId|
                #[trigger] final(self).spec_live(other) ==> old(self).spec_live(other),
    {
        let slot = &mut self.slots[id.index];
        match &mut slot.record {
            Some(rec) => {
                rec.position = Some(new_pos);
                match &mut rec.fov {
                    Some(f) => {
                        f.is_dirty = true;
                    },
                    None => {},
                }
            },
            None => {},
        }
        proof {
            assert(self.slots@ == old(self).slots@.update(
                id.index as int,
                self.slots@[id.index as int],
            ));
            assert(self.slots@[id.index as int].generation == id.generation);
            assert(self.slots@[id.index as int].record == Some(
                spec_moved_record(old(self).spec_record(id), new_pos),
            ));
            assert forall|k: int|
                0 <= k < self.slots@.len() && (#[trigger] self.slots@[k]).record is Some
                implies self.slots@[k].generation < u64::MAX by {
                if k != id.index {
                    assert(self.slots@[k] == old(self).slots@[k]);
                }
            }
        }
    }

    /// Borrow the record of a handle, when it is live.
    pub fn record(&self, id: EntityId) -> (r: Option<&EntityRecord>)
        ensures
            self.spec_live(id) ==> r is Some && *r->Some_0 == self.spec_record(id),
            !self.spec_live(id) ==> r is None,
    {
        if self.is_live(id) {
            self.slots[id.index].record.as_ref()
        } else {
            None
        }
    }

    /// The position of a live entity that has one, else None.
    pub fn position_of(&self, id: EntityId) -> (r: Option<Position>)
        ensures
            r == (if self.spec_live(id) {
                self.spec_record(id).position
            } else {
                Option::<Position>::None
            }),
    {
        if self.is_live(id) {
            match &self.slots[id.index].record {
                Some(rec) => rec.position,
                None => None,
            }
        } else {
            None
        }
    }
}

} // verus!
