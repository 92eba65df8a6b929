//! The movement controller: four-direction step validation against the
//! map's walkability, committed through the registry. A blocked attempt
//! mutates nothing; a committed step is the only way a position changes
//! after spawn, and it marks the mover's visibility state stale.

use vstd::prelude::*;

use crate::grid_map::GridMap;
use crate::position::Position;
use crate::registry::{spec_live_slots, spec_moved_record, spec_record_slots, EntityId, Registry, Slot};

verus! {

/// The four cardinal step directions.
#[derive(Clone, Copy, Debug, PartialEq, Eq, Hash, Structural)]
pub enum MoveDirection {
    North,
    South,
    East,
    West,
}

impl MoveDirection {
    /// The fixed step delta of each direction; north is negative y.
    pub open spec fn spec_delta(self) -> (int, int) {
        match self {
            MoveDirection::North => (0, -1),
            MoveDirection::South => (0, 1),
            MoveDirection::East => (1, 0),
            MoveDirection::West => (-1, 0),
        }
    }

    pub fn delta(&self) -> (r: (i32, i32))
        ensures
            (r.0 as int, r.1 as int) == self.spec_delta(),
    {
        match self {
            MoveDirection::North => (0, -1),
            MoveDirection::South => (0, 1),
            MoveDirection::East => (1, 0),
            MoveDirection::West => (-1, 0),
        }
    }
}

/// The cell one step from `pos` in the given direction.
pub open spec fn spec_move_target(pos: Position, dir: MoveDirection) -> (int, int) {
    (pos.x + dir.spec_delta().0, pos.y + dir.spec_delta().1)
}

/// Whether the attempt commits: the entity is live with a position and the
/// target cell is not blocked (in bounds and walkable).
pub open spec fn spec_try_move_ok(
    slots: Seq<Slot>,
    id: EntityId,
    dir: MoveDirection,
    m: GridMap,
) -> bool {
    &&& spec_live_slots(slots, id)
    &&& spec_record_slots(slots, id).position is Some
    &&& !m.spec_blocked(
        spec_move_target(spec_record_slots(slots, id).position->Some_0, dir).0,
        spec_move_target(spec_record_slots(slots, id).position->Some_0, dir).1,
    )
}

/// The slot table after the attempt: unchanged when it does not commit,
/// else the mover's record with the target position and a stale visibility
/// cache, every other entity untouched.
pub open spec fn spec_try_move_result(
    slots: Seq<Slot>,
    id: EntityId,
    dir: MoveDirection,
    m: GridMap,
) -> Seq<Slot> {
    if spec_try_move_ok(slots, id, dir, m) {
        let pos = spec_record_slots(slots, id).position->Some_0;
        let target = spec_move_target(pos, dir);
        let moved = spec_moved_record(
            spec_record_slots(slots, id),
            Position { x: target.0 as i32, y: target.1 as i32 },
        );
        slots.update(id.index as int, Slot { generation: id.generation, record: Some(moved) })
    } else {
        slots
    }
}

/// Attempt one step. Reads the entity's position, computes the target from
/// the fixed delta table, and checks the map: a blocked target (or an
/// entity without a position) commits nothing and returns false; a walkable
/// target commits the new position, marks the entity's visibility state
/// stale, and returns true.
pub fn try_move_entity(
    registry: &mut Registry,
    entity: EntityId,
    direction: MoveDirection,
    map: &GridMap,
) -> (moved: bool)
    requires
        old(registry).wf(),
        map.wf(),
    ensures
        final(registry).wf(),
        moved == spec_try_move_ok(old(registry).slots@, entity, direction, *map),
        final(registry).slots@ == spec_try_move_result(old(registry).slots@, entity, direction, *map),
        !moved ==> *final(registry) == *old(registry),
        forall|other: EntityId|
            old(registry).spec_live(other) && other != entity ==> #[trigger] final(registry).spec_live(other) && final(registry).spec_record(other) == old(registry).spec_record(
                other,
            ),
{
    let pos = match registry.position_of(entity) {
        Some(p) => p,
        None => {
            return false;
        },
    };
    let (dx, dy) = direction.delta();
    let tx = pos.x as i64 + dx as i64;
    let ty = pos.y as i64 + dy as i64;
    let blocked = if tx < i32::MIN as i64 || tx > i32::MAX as i64 || ty < i32::MIN as i64 || ty
        > i32::MAX as i64 {
        true
    } else {
        map.is_blocked(tx as i32, ty as i32)
    };
    if blocked {
        return false;
    }
    let target = Position::new(tx as i32, ty as i32);
    registry.move_and_dirty(entity, target);
    proof {
        let spec_slots = spec_try_move_result(old(registry).slots@, entity, direction, *map);
        assert(registry.slots@ =~= spec_slots);
    }
    true
}

/// Repeating an identical blocked attempt has no further effect: the
/// attempt leaves the registry exactly as it was, so the second attempt
/// sees the same state, is blocked again, and changes neither any position
/// nor any visibility state.
pub proof fn lemma_blocked_try_move_idempotent(
    slots: Seq<Slot>,
    id: EntityId,
    dir: MoveDirection,
    m: GridMap,
)
    requires
        !spec_try_move_ok(slots, id, dir, m),
    ensures
        spec_try_move_result(slots, id, dir, m) == slots,
        !spec_try_move_ok(spec_try_move_result(slots, id, dir, m), id, dir, m),
        spec_try_move_result(spec_try_move_result(slots, id, dir, m), id, dir, m) == slots,
{
}

} // verus!
