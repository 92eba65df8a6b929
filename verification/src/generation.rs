//! The dungeon generator: up to `max_rooms` random rectangles, kept only
//! when they overlap no earlier room, carved as Floor and joined by
//! L-shaped corridors, with Stairs at the center of the last accepted room.
//!
//! The contract of `generate_map` carries the generator's guarantees for
//! every sequence of draws the generator can make: accepted rooms are
//! pairwise disjoint, consecutive accepted rooms' centers are joined by a
//! walkable path, and the map holds exactly one Stairs cell when at least
//! one room was accepted and none otherwise.

use vstd::prelude::*;

use bracket_lib::random::RandomNumberGenerator;

use crate::connectivity::{
    lemma_connected_h_segment,
    lemma_connected_still_connected,
    lemma_connected_trans,
    lemma_connected_v_segment,
    spec_connected,
};
use crate::grid_map::GridMap;
use crate::rng::rng_range;
use crate::room::Room;
use crate::terrain::TerrainType;

verus! {

/// The cells a room carves: its rectangle minus the outer edge.
pub open spec fn spec_room_interior(room: Room, xx: int, yy: int) -> bool {
    room.x1 < xx < room.x2 && room.y1 < yy < room.y2
}

/// The room fits strictly inside the map, never touching the border row or
/// column, with at least one interior cell in each direction.
pub open spec fn spec_room_in_map_interior(m: GridMap, room: Room) -> bool {
    &&& 1 <= room.x1
    &&& room.x1 + 2 <= room.x2
    &&& room.x2 <= m.width - 2
    &&& 1 <= room.y1
    &&& room.y1 + 2 <= room.y2
    &&& room.y2 <= m.height - 2
}

/// No two accepted rooms' bounding boxes overlap.
pub open spec fn spec_rooms_disjoint(rooms: Seq<Room>) -> bool {
    forall|i: int, j: int|
        0 <= i < j < rooms.len() ==> !(#[trigger] rooms[i]).spec_intersect(#[trigger] rooms[j])
}

/// Every accepted room's interior is carved to Floor.
pub open spec fn spec_interiors_floor(m: GridMap, rooms: Seq<Room>) -> bool {
    forall|i: int, xx: int, yy: int|
        0 <= i < rooms.len() && #[trigger] spec_room_interior(rooms[i], xx, yy) ==> m.spec_in_bounds(
            xx,
            yy,
        ) && m.spec_tile(xx, yy) is Floor
}

/// Every accepted room's interior is walkable (Floor, or the single Stairs
/// cell placed at the end of generation).
pub open spec fn spec_interiors_walkable(m: GridMap, rooms: Seq<Room>) -> bool {
    forall|i: int, xx: int, yy: int|
        0 <= i < rooms.len() && #[trigger] spec_room_interior(rooms[i], xx, yy) ==> m.spec_in_bounds(
            xx,
            yy,
        ) && m.spec_tile(xx, yy).spec_is_walkable()
}

/// Each accepted room's center is joined to the previous accepted room's
/// center by a walkable path.
pub open spec fn spec_rooms_chained(m: GridMap, rooms: Seq<Room>) -> bool {
    forall|i: int|
        0 < i < rooms.len() ==> spec_connected(
            m,
            rooms[i - 1].spec_center(),
            (#[trigger] rooms[i]).spec_center(),
        )
}

/// No Stairs cell anywhere on the map.
pub open spec fn spec_no_stairs(m: GridMap) -> bool {
    forall|xx: int, yy: int|
        m.spec_in_bounds(xx, yy) ==> !((#[trigger] m.spec_tile(xx, yy)) is Stairs)
}

/// Walkability only ever grows from `m1` to `m2` (same dimensions).
pub open spec fn spec_keeps_walkable(m1: GridMap, m2: GridMap) -> bool {
    &&& m1.width == m2.width
    &&& m1.height == m2.height
    &&& forall|x: int, y: int|
        m1.spec_in_bounds(x, y) && m1.spec_tile(x, y).spec_is_walkable()
            ==> (#[trigger] m2.spec_tile(x, y)).spec_is_walkable()
}

/// The cells of the two L-shaped corridors that can join the centers `a`
/// and `b`: the horizontal leg at either endpoint's row together with the
/// vertical leg at the other endpoint's column. The generator carves one
/// of the two Ls; both lie within this set.
pub open spec fn spec_on_corridor(a: (int, int), b: (int, int), xx: int, yy: int) -> bool {
    ||| (yy == a.1 && spec_between(a.0, b.0, xx))
    ||| (xx == b.0 && spec_between(a.1, b.1, yy))
    ||| (xx == a.0 && spec_between(a.1, b.1, yy))
    ||| (yy == b.1 && spec_between(a.0, b.0, xx))
}

/// The cell belongs to the region generation is allowed to carve: some
/// accepted room's interior (which holds the Stairs cell, placed at the
/// last room's center) or an L-corridor joining a consecutive pair of
/// accepted centers.
pub open spec fn spec_carved(rooms: Seq<Room>, xx: int, yy: int) -> bool {
    ||| exists|i: int| 0 <= i < rooms.len() && spec_room_interior(#[trigger] rooms[i], xx, yy)
    ||| exists|i: int|
        0 < i < rooms.len() && spec_on_corridor(
            rooms[i - 1].spec_center(),
            (#[trigger] rooms[i]).spec_center(),
            xx,
            yy,
        )
}

/// The center of a room with interior cells lies strictly inside it.
pub proof fn lemma_center_in_interior(room: Room)
    requires
        0 <= room.x1,
        room.x1 + 2 <= room.x2,
        0 <= room.y1,
        room.y1 + 2 <= room.y2,
    ensures
        spec_room_interior(room, room.spec_center().0, room.spec_center().1),
{
}

/// Whether `v` lies between `a` and `b` inclusive, in either order.
pub open spec fn spec_between(a: int, b: int, v: int) -> bool {
    if a <= b {
        a <= v <= b
    } else {
        b <= v <= a
    }
}

/// Overwrite one in-bounds cell's terrain, leaving all else as it was.
fn set_tile(map: &mut GridMap, x: i32, y: i32, t: TerrainType)
    requires
        old(map).wf(),
        old(map).spec_in_bounds(x as int, y as int),
    ensures
        final(map).wf(),
        final(map).width == old(map).width,
        final(map).height == old(map).height,
        final(map).revealed_tiles@ == old(map).revealed_tiles@,
        final(map).visible_tiles@ == old(map).visible_tiles@,
        final(map).spec_tile(x as int, y as int) == t,
        forall|xx: int, yy: int|
            final(map).spec_in_bounds(xx, yy) && !(xx == x && yy == y) ==> final(map).spec_tile(
                xx,
                yy,
            ) == old(map).spec_tile(xx, yy),
    {
    let idx = map.xy_idx(x, y);
    let ghost pre = *map;
    map.tiles.set(idx, t);
    proof {
        assert(map.tiles@ == pre.tiles@.update(idx as int, t));
        assert forall|xx: int, yy: int|
            map.spec_in_bounds(xx, yy) && !(xx == x && yy == y) implies map.spec_tile(xx, yy)
            == pre.spec_tile(xx, yy) by {
            pre.lemma_idx_in_range(xx, yy);
            if pre.spec_idx(xx, yy) == idx {
                pre.lemma_idx_injective(xx, yy, x as int, y as int);
            }
        }
    }
}

/// Carve the room's interior (the rectangle minus its outer edge) to Floor,
/// leaving every other cell as it was.
#[verifier::loop_isolation(false)]
fn apply_room_to_map(map: &mut GridMap, room: &Room)
    requires
        old(map).wf(),
        0 <= room.x1 <= room.x2,
        room.x2 < old(map).width,
        0 <= room.y1 <= room.y2,
        room.y2 < old(map).height,
    ensures
        final(map).wf(),
        final(map).width == old(map).width,
        final(map).height == old(map).height,
        final(map).revealed_tiles@ == old(map).revealed_tiles@,
        final(map).visible_tiles@ == old(map).visible_tiles@,
        forall|xx: int, yy: int|
            final(map).spec_in_bounds(xx, yy) && spec_room_interior(*room, xx, yy) ==> (
            #[trigger] final(map).spec_tile(xx, yy)) is Floor,
        forall|xx: int, yy: int|
            final(map).spec_in_bounds(xx, yy) && !spec_room_interior(*room, xx, yy)
                ==> #[trigger] final(map).spec_tile(xx, yy) == old(map).spec_tile(xx, yy),
    {
    let mut y: i32 = room.y1 + 1;
    while y < room.y2
        invariant
            map.wf(),
            map.width == old(map).width,
            map.height == old(map).height,
            map.revealed_tiles@ == old(map).revealed_tiles@,
            map.visible_tiles@ == old(map).visible_tiles@,
            room.y1 + 1 <= y,
            y <= room.y2 || y == room.y1 + 1,
            forall|xx: int, yy: int|
                map.spec_in_bounds(xx, yy) && spec_room_interior(*room, xx, yy) && yy < y ==> (
                #[trigger] map.spec_tile(xx, yy)) is Floor,
            forall|xx: int, yy: int|
                map.spec_in_bounds(xx, yy) && !(spec_room_interior(*room, xx, yy) && yy < y)
                    ==> #[trigger] map.spec_tile(xx, yy) == old(map).spec_tile(xx, yy),
        decreases room.y2 - y,
    {
        let mut x: i32 = room.x1 + 1;
        while x < room.x2
            invariant
                map.wf(),
                map.width == old(map).width,
                map.height == old(map).height,
                map.revealed_tiles@ == old(map).revealed_tiles@,
                map.visible_tiles@ == old(map).visible_tiles@,
                room.y1 < y < room.y2,
                room.x1 + 1 <= x,
                x <= room.x2 || x == room.x1 + 1,
                forall|xx: int, yy: int|
                    map.spec_in_bounds(xx, yy) && spec_room_interior(*room, xx, yy) && (yy < y || (
                    yy == y && xx < x)) ==> (#[trigger] map.spec_tile(xx, yy)) is Floor,
                forall|xx: int, yy: int|
                    map.spec_in_bounds(xx, yy) && !(spec_room_interior(*room, xx, yy) && (yy < y
                        || (yy == y && xx < x))) ==> #[trigger] map.spec_tile(xx, yy) == old(
                        map,
                    ).spec_tile(xx, yy),
            decreases room.x2 - x,
        {
            set_tile(map, x, y, TerrainType::Floor);
            x = x + 1;
        }
        y = y + 1;
    }
}

/// Carve a one-cell-high corridor between two x coordinates (inclusive,
/// order-independent) at a fixed y to Floor, bounds-checking every cell and
/// leaving every other cell as it was.
#[verifier::loop_isolation(false)]
fn apply_horizontal_tunnel(map: &mut GridMap, x1: i32, x2: i32, y: i32)
    requires
        old(map).wf(),
    ensures
        final(map).wf(),
        final(map).width == old(map).width,
        final(map).height == old(map).height,
        final(map).revealed_tiles@ == old(map).revealed_tiles@,
        final(map).visible_tiles@ == old(map).visible_tiles@,
        forall|xx: int, yy: int|
            final(map).spec_in_bounds(xx, yy) && yy == y && spec_between(x1 as int, x2 as int, xx)
                ==> (#[trigger] final(map).spec_tile(xx, yy)) is Floor,
        forall|xx: int, yy: int|
            final(map).spec_in_bounds(xx, yy) && !(yy == y && spec_between(
                x1 as int,
                x2 as int,
                xx,
            )) ==> #[trigger] final(map).spec_tile(xx, yy) == old(map).spec_tile(xx, yy),
    {
    if y < 0 || y >= map.height {
        return ;
    }
    let lo0 = if x1 <= x2 {
        x1
    } else {
        x2
    };
    let hi0 = if x1 <= x2 {
        x2
    } else {
        x1
    };
    let lo = if lo0 < 0 {
        0
    } else {
        lo0
    };
    let hi = if hi0 >= map.width {
        map.width - 1
    } else {
        hi0
    };
    let mut x: i32 = lo;
    while x <= hi
        invariant
            map.wf(),
            map.width == old(map).width,
            map.height == old(map).height,
            map.revealed_tiles@ == old(map).revealed_tiles@,
            map.visible_tiles@ == old(map).visible_tiles@,
            lo <= x,
            x <= hi + 1 || x == lo,
            forall|xx: int, yy: int|
                map.spec_in_bounds(xx, yy) && yy == y && lo <= xx < x ==> (
                #[trigger] map.spec_tile(xx, yy)) is Floor,
            forall|xx: int, yy: int|
                map.spec_in_bounds(xx, yy) && !(yy == y && lo <= xx < x)
                    ==> #[trigger] map.spec_tile(xx, yy) == old(map).spec_tile(xx, yy),
        decreases hi + 1 - x,
    {
        set_tile(map, x, y, TerrainType::Floor);
        x = x + 1;
    }
}

/// Carve a one-cell-wide corridor between two y coordinates (inclusive,
/// order-independent) at a fixed x to Floor, bounds-checking every cell and
/// leaving every other cell as it was.
#[verifier::loop_isolation(false)]
fn apply_vertical_tunnel(map: &mut GridMap, y1: i32, y2: i32, x: i32)
    requires
        old(map).wf(),
    ensures
        final(map).wf(),
        final(map).width == old(map).width,
        final(map).height == old(map).height,
        final(map).revealed_tiles@ == old(map).revealed_tiles@,
        final(map).visible_tiles@ == old(map).visible_tiles@,
        forall|xx: int, yy: int|
            final(map).spec_in_bounds(xx, yy) && xx == x && spec_between(y1 as int, y2 as int, yy)
                ==> (#[trigger] final(map).spec_tile(xx, yy)) is Floor,
        forall|xx: int, yy: int|
            final(map).spec_in_bounds(xx, yy) && !(xx == x && spec_between(
                y1 as int,
                y2 as int,
                yy,
            )) ==> #[trigger] final(map).spec_tile(xx, yy) == old(map).spec_tile(xx, yy),
    {
    if x < 0 || x >= map.width {
        return ;
    }
    let lo0 = if y1 <= y2 {
        y1
    } else {
        y2
    };
    let hi0 = if y1 <= y2 {
        y2
    } else {
        y1
    };
    let lo = if lo0 < 0 {
        0
    } else {
        lo0
    };
    let hi = if hi0 >= map.height {
        map.height - 1
    } else {
        hi0
    };
    let mut y: i32 = lo;
    while y <= hi
        invariant
            map.wf(),
            map.width == old(map).width,
            map.height == old(map).height,
            map.revealed_tiles@ == old(map).revealed_tiles@,
            map.visible_tiles@ == old(map).visible_tiles@,
            lo <= y,
            y <= hi + 1 || y == lo,
            forall|xx: int, yy: int|
                map.spec_in_bounds(xx, yy) && xx == x && lo <= yy < y ==> (
                #[trigger] map.spec_tile(xx, yy)) is Floor,
            forall|xx: int, yy: int|
                map.spec_in_bounds(xx, yy) && !(xx == x && lo <= yy < y)
                    ==> #[trigger] map.spec_tile(xx, yy) == old(map).spec_tile(xx, yy),
        decreases hi + 1 - y,
    {
        set_tile(map, x, y, TerrainType::Floor);
        y = y + 1;
    }
}

/// A carve step that only writes Floor keeps every invariant of the accepted
/// rooms: walkability only grows, no Stairs appears, interiors stay Floor,
/// and consecutive centers stay connected.
proof fn lemma_carve_step(m1: GridMap, m2: GridMap, rooms: Seq<Room>)
    requires
        m1.wf(),
        m2.wf(),
        m1.width == m2.width,
        m1.height == m2.height,
        forall|x: int, y: int|
            m1.spec_in_bounds(x, y) ==> (#[trigger] m2.spec_tile(x, y)) == m1.spec_tile(x, y)
                || m2.spec_tile(x, y) is Floor,
        spec_no_stairs(m1),
        spec_interiors_floor(m1, rooms),
        spec_rooms_chained(m1, rooms),
    ensures
        spec_keeps_walkable(m1, m2),
        spec_no_stairs(m2),
        spec_interiors_floor(m2, rooms),
        spec_rooms_chained(m2, rooms),
{
    assert forall|x: int, y: int|
        m1.spec_in_bounds(x, y) && m1.spec_tile(x, y).spec_is_walkable() implies (
    #[trigger] m2.spec_tile(x, y)).spec_is_walkable() by {}
    assert forall|x: int, y: int| m2.spec_in_bounds(x, y) implies !((#[trigger] m2.spec_tile(
        x,
        y,
    )) is Stairs) by {
        assert(m1.spec_in_bounds(x, y));
    }
    assert forall|i: int, xx: int, yy: int|
        0 <= i < rooms.len() && #[trigger] spec_room_interior(rooms[i], xx, yy) implies m2
        .spec_in_bounds(xx, yy) && m2.spec_tile(xx, yy) is Floor by {
        assert(m1.spec_in_bounds(xx, yy) && m1.spec_tile(xx, yy) is Floor);
    }
    assert forall|i: int| 0 < i < rooms.len() implies spec_connected(
        m2,
        rooms[i - 1].spec_center(),
        (#[trigger] rooms[i]).spec_center(),
    ) by {
        lemma_connected_still_connected(
            m1,
            m2,
            rooms[i - 1].spec_center(),
            rooms[i].spec_center(),
        );
    }
}

/// Walkability growth is transitive across carve steps.
proof fn lemma_keeps_walkable_trans(a: GridMap, b: GridMap, c: GridMap)
    requires
        spec_keeps_walkable(a, b),
        spec_keeps_walkable(b, c),
    ensures
        spec_keeps_walkable(a, c),
{
    assert forall|x: int, y: int|
        a.spec_in_bounds(x, y) && a.spec_tile(x, y).spec_is_walkable() implies (
    #[trigger] c.spec_tile(x, y)).spec_is_walkable() by {
        assert(b.spec_in_bounds(x, y));
        assert(b.spec_tile(x, y).spec_is_walkable());
    }
}

/// Build a dungeon onto a map that holds no Stairs yet: up to `max_rooms`
/// random rectangles drawn with edge lengths in
/// `room_min_size..=room_max_size`, placed strictly inside the border,
/// accepted only when they overlap no earlier accepted room (rejected
/// candidates are skipped, not retried), carved to Floor and joined in
/// acceptance order by L-shaped corridors; the center of the last accepted
/// room becomes the single Stairs cell. The first candidate has no earlier
/// room to collide with, so whenever any rooms are requested at least one
/// is accepted; carving never leaves the accepted rooms' interiors and
/// their joining corridors. Returns the accepted rooms in order. With
/// `max_rooms` zero the map is returned unchanged, without Stairs and
/// without error.
#[verifier::loop_isolation(false)]
#[verifier::rlimit(100)]
pub fn generate_map(
    map: &mut GridMap,
    rng: &mut RandomNumberGenerator,
    max_rooms: u32,
    room_min_size: i32,
    room_max_size: i32,
) -> (rooms: Vec<Room>)
    requires
        old(map).wf(),
        2 <= room_min_size <= room_max_size,
        room_max_size + 3 <= old(map).width,
        room_max_size + 3 <= old(map).height,
        spec_no_stairs(*old(map)),
    ensures
        final(map).wf(),
        final(map).width == old(map).width,
        final(map).height == old(map).height,
        final(map).revealed_tiles@ == old(map).revealed_tiles@,
        final(map).visible_tiles@ == old(map).visible_tiles@,
        spec_keeps_walkable(*old(map), *final(map)),
        rooms@.len() <= max_rooms,
        forall|i: int|
            0 <= i < rooms@.len() ==> spec_room_in_map_interior(*final(map), #[trigger] rooms@[i]),
        forall|i: int|
            0 <= i < rooms@.len() ==> room_min_size <= (#[trigger] rooms@[i]).x2 - rooms@[i].x1
                <= room_max_size && room_min_size <= rooms@[i].y2 - rooms@[i].y1 <= room_max_size,
        spec_rooms_disjoint(rooms@),
        spec_interiors_walkable(*final(map), rooms@),
        spec_rooms_chained(*final(map), rooms@),
        max_rooms >= 1 ==> rooms@.len() >= 1,
        forall|xx: int, yy: int|
            final(map).spec_in_bounds(xx, yy) && (#[trigger] final(map).spec_tile(xx, yy)) != old(
                map,
            ).spec_tile(xx, yy) ==> spec_carved(rooms@, xx, yy),
        rooms@.len() == 0 ==> final(map).tiles@ == old(map).tiles@ && spec_no_stairs(*final(map)),
        rooms@.len() > 0 ==> {
            let c = rooms@[rooms@.len() - 1].spec_center();
            &&& final(map).spec_tile(c.0, c.1) is Stairs
            &&& forall|xx: int, yy: int|
                final(map).spec_in_bounds(xx, yy) && !(xx == c.0 && yy == c.1) ==> !((
                #[trigger] final(map).spec_tile(xx, yy)) is Stairs)
        },
    {
    let mut rooms: Vec<Room> = Vec::new();
    let mut attempt: u32 = 0;
    while attempt < max_rooms
        invariant
            map.wf(),
            map.width == old(map).width,
            map.height == old(map).height,
            map.revealed_tiles@ == old(map).revealed_tiles@,
            map.visible_tiles@ == old(map).visible_tiles@,
            spec_keeps_walkable(*old(map), *map),
            spec_no_stairs(*map),
            attempt <= max_rooms,
            rooms@.len() <= attempt,
            1 <= attempt ==> 1 <= rooms@.len(),
            rooms@.len() == 0 ==> map.tiles@ == old(map).tiles@,
            forall|xx: int, yy: int|
                map.spec_in_bounds(xx, yy) && (#[trigger] map.spec_tile(xx, yy)) != old(
                    map,
                ).spec_tile(xx, yy) ==> spec_carved(rooms@, xx, yy),
            forall|i: int|
                0 <= i < rooms@.len() ==> spec_room_in_map_interior(*map, #[trigger] rooms@[i]),
            forall|i: int|
                0 <= i < rooms@.len() ==> room_min_size <= (#[trigger] rooms@[i]).x2
                    - rooms@[i].x1 <= room_max_size && room_min_size <= rooms@[i].y2
                    - rooms@[i].y1 <= room_max_size,
            spec_rooms_disjoint(rooms@),
            spec_interiors_floor(*map, rooms@),
            spec_rooms_chained(*map, rooms@),
        decreases max_rooms - attempt,
    {
        let w = rng_range(rng, room_min_size, room_max_size + 1);
        let h = rng_range(rng, room_min_size, room_max_size + 1);
        let x = rng_range(rng, 1, map.width - w - 1);
        let y = rng_range(rng, 1, map.height - h - 1);
        let new_room = Room::new(x, y, w, h);

        let mut ok = true;
        let mut j: usize = 0;
        while j < rooms.len()
            invariant
                j <= rooms@.len(),
                rooms@.len() == 0 ==> ok,
                ok ==> forall|jj: int|
                    0 <= jj < j ==> !new_room.spec_intersect(#[trigger] rooms@[jj]),
            decreases rooms@.len() - j,
        {
            if new_room.intersect(&rooms[j]) {
                ok = false;
            }
            j = j + 1;
        }

        if ok {
            let ghost m0 = *map;
            apply_room_to_map(map, &new_room);
            let ghost m1 = *map;
            proof {
                assert forall|xx: int, yy: int| m0.spec_in_bounds(xx, yy) implies (
                #[trigger] map.spec_tile(xx, yy)) == m0.spec_tile(xx, yy) || map.spec_tile(
                    xx,
                    yy,
                ) is Floor by {}
                lemma_carve_step(m0, *map, rooms@);
                lemma_keeps_walkable_trans(*old(map), m0, *map);
            }

            if rooms.len() > 0 {
                proof {
                    assert(2 * (map.width as int) <= i32::MAX as int && 2 * (map.height as int)
                        <= i32::MAX as int) by (nonlinear_arith)
                        requires
                            (map.width as int) * (map.height as int) <= i32::MAX as int,
                            5 <= map.height as int,
                            5 <= map.width as int;
                }
                let prev_room = rooms[rooms.len() - 1];
                let prev_c = prev_room.center();
                let new_c = new_room.center();
                let prev_x = prev_c.0;
                let prev_y = prev_c.1;
                let new_x = new_c.0;
                let new_y = new_c.1;
                proof {
                    lemma_center_in_interior(prev_room);
                    lemma_center_in_interior(new_room);
                }
                if rng_range(rng, 0, 2) == 1 {
                    apply_horizontal_tunnel(map, prev_x, new_x, prev_y);
                    let ghost m2 = *map;
                    proof {
                        assert forall|xx: int, yy: int| m1.spec_in_bounds(xx, yy) implies (
                        #[trigger] m2.spec_tile(xx, yy)) == m1.spec_tile(xx, yy) || m2.spec_tile(
                            xx,
                            yy,
                        ) is Floor by {}
                        lemma_carve_step(m1, m2, rooms@);
                    }
                    apply_vertical_tunnel(map, prev_y, new_y, new_x);
                    proof {
                        assert forall|xx: int, yy: int| m2.spec_in_bounds(xx, yy) implies (
                        #[trigger] map.spec_tile(xx, yy)) == m2.spec_tile(xx, yy) || map.spec_tile(
                            xx,
                            yy,
                        ) is Floor by {}
                        lemma_carve_step(m2, *map, rooms@);
                        lemma_keeps_walkable_trans(m1, m2, *map);
                        lemma_keeps_walkable_trans(*old(map), m1, *map);
                        assert forall|xv: int|
                            spec_between(prev_x as int, new_x as int, xv) implies map
                            .spec_in_bounds(xv, prev_y as int) && (#[trigger] map.spec_tile(
                            xv,
                            prev_y as int,
                        )).spec_is_walkable() by {
                            assert(m2.spec_tile(xv, prev_y as int) is Floor);
                        }
                        lemma_connected_h_segment(*map, prev_x as int, new_x as int, prev_y as int);
                        assert forall|yv: int|
                            spec_between(prev_y as int, new_y as int, yv) implies map
                            .spec_in_bounds(new_x as int, yv) && (#[trigger] map.spec_tile(
                            new_x as int,
                            yv,
                        )).spec_is_walkable() by {}
                        lemma_connected_v_segment(*map, prev_y as int, new_y as int, new_x as int);
                        lemma_connected_trans(
                            *map,
                            (prev_x as int, prev_y as int),
                            (new_x as int, prev_y as int),
                            (new_x as int, new_y as int),
                        );
                        assert forall|xx: int, yy: int|
                            map.spec_in_bounds(xx, yy) && (#[trigger] map.spec_tile(xx, yy))
                                != m1.spec_tile(xx, yy) implies spec_on_corridor(
                            (prev_x as int, prev_y as int),
                            (new_x as int, new_y as int),
                            xx,
                            yy,
                        ) by {
                            if m2.spec_tile(xx, yy) != m1.spec_tile(xx, yy) {
                                assert(m2.spec_in_bounds(xx, yy));
                            }
                        }
                    }
                } else {
                    apply_vertical_tunnel(map, prev_y, new_y, prev_x);
                    let ghost m2 = *map;
                    proof {
                        assert forall|xx: int, yy: int| m1.spec_in_bounds(xx, yy) implies (
                        #[trigger] m2.spec_tile(xx, yy)) == m1.spec_tile(xx, yy) || m2.spec_tile(
                            xx,
                            yy,
                        ) is Floor by {}
                        lemma_carve_step(m1, m2, rooms@);
                    }
                    apply_horizontal_tunnel(map, prev_x, new_x, new_y);
                    proof {
                        assert forall|xx: int, yy: int| m2.spec_in_bounds(xx, yy) implies (
                        #[trigger] map.spec_tile(xx, yy)) == m2.spec_tile(xx, yy) || map.spec_tile(
                            xx,
                            yy,
                        ) is Floor by {}
                        lemma_carve_step(m2, *map, rooms@);
                        lemma_keeps_walkable_trans(m1, m2, *map);
                        lemma_keeps_walkable_trans(*old(map), m1, *map);
                        assert forall|yv: int|
                            spec_between(prev_y as int, new_y as int, yv) implies map
                            .spec_in_bounds(prev_x as int, yv) && (#[trigger] map.spec_tile(
                            prev_x as int,
                            yv,
                        )).spec_is_walkable() by {
                            assert(m2.spec_tile(prev_x as int, yv) is Floor);
                        }
                        lemma_connected_v_segment(*map, prev_y as int, new_y as int, prev_x as int);
                        assert forall|xv: int|
                            spec_between(prev_x as int, new_x as int, xv) implies map
                            .spec_in_bounds(xv, new_y as int) && (#[trigger] map.spec_tile(
                            xv,
                            new_y as int,
                        )).spec_is_walkable() by {}
                        lemma_connected_h_segment(*map, prev_x as int, new_x as int, new_y as int);
                        lemma_connected_trans(
                            *map,
                            (prev_x as int, prev_y as int),
                            (prev_x as int, new_y as int),
                            (new_x as int, new_y as int),
                        );
                        assert forall|xx: int, yy: int|
                            map.spec_in_bounds(xx, yy) && (#[trigger] map.spec_tile(xx, yy))
                                != m1.spec_tile(xx, yy) implies spec_on_corridor(
                            (prev_x as int, prev_y as int),
                            (new_x as int, new_y as int),
                            xx,
                            yy,
                        ) by {
                            if m2.spec_tile(xx, yy) != m1.spec_tile(xx, yy) {
                                assert(m2.spec_in_bounds(xx, yy));
                            }
                        }
                    }
                }
                proof {
                    assert(spec_connected(
                        *map,
                        prev_room.spec_center(),
                        new_room.spec_center(),
                    ));
                }
            }

            let ghost rooms_before = rooms@;
            rooms.push(new_room);
            proof {
                assert(rooms@ == rooms_before.push(new_room));
                assert forall|i: int, jj: int| 0 <= i < jj < rooms@.len() implies !(
                #[trigger] rooms@[i]).spec_intersect(#[trigger] rooms@[jj]) by {
                    if jj < rooms_before.len() {
                        assert(rooms@[i] == rooms_before[i] && rooms@[jj] == rooms_before[jj]);
                    } else {
                        assert(rooms@[jj] == new_room && rooms@[i] == rooms_before[i]);
                        assert(!new_room.spec_intersect(rooms_before[i]));
                    }
                }
                assert forall|i: int, xx: int, yy: int|
                    0 <= i < rooms@.len() && #[trigger] spec_room_interior(rooms@[i], xx, yy)
                    implies map.spec_in_bounds(xx, yy) && map.spec_tile(xx, yy) is Floor by {
                    if i < rooms_before.len() {
                        assert(rooms@[i] == rooms_before[i]);
                    } else {
                        assert(rooms@[i] == new_room);
                    }
                }
                assert forall|i: int| 0 < i < rooms@.len() implies spec_connected(
                    *map,
                    rooms@[i - 1].spec_center(),
                    (#[trigger] rooms@[i]).spec_center(),
                ) by {
                    if i < rooms_before.len() {
                        assert(rooms@[i] == rooms_before[i] && rooms@[i - 1] == rooms_before[i
                            - 1]);
                    } else {
                        assert(rooms@[i] == new_room && rooms@[i - 1] == rooms_before[i - 1]);
                    }
                }
                assert forall|xx: int, yy: int|
                    map.spec_in_bounds(xx, yy) && (#[trigger] map.spec_tile(xx, yy)) != old(
                        map,
                    ).spec_tile(xx, yy) implies spec_carved(rooms@, xx, yy) by {
                    if m0.spec_tile(xx, yy) != old(map).spec_tile(xx, yy) {
                        assert(spec_carved(rooms_before, xx, yy));
                        if exists|i: int|
                            0 <= i < rooms_before.len() && spec_room_interior(
                                #[trigger] rooms_before[i],
                                xx,
                                yy,
                            ) {
                            let i = choose|i: int|
                                0 <= i < rooms_before.len() && spec_room_interior(
                                    #[trigger] rooms_before[i],
                                    xx,
                                    yy,
                                );
                            assert(rooms@[i] == rooms_before[i]);
                            assert(spec_room_interior(rooms@[i], xx, yy));
                        } else {
                            let i = choose|i: int|
                                0 < i < rooms_before.len() && spec_on_corridor(
                                    rooms_before[i - 1].spec_center(),
                                    (#[trigger] rooms_before[i]).spec_center(),
                                    xx,
                                    yy,
                                );
                            assert(rooms@[i] == rooms_before[i] && rooms@[i - 1]
                                == rooms_before[i - 1]);
                            assert(spec_on_corridor(
                                rooms@[i - 1].spec_center(),
                                rooms@[i].spec_center(),
                                xx,
                                yy,
                            ));
                        }
                    } else if m1.spec_tile(xx, yy) != m0.spec_tile(xx, yy) {
                        assert(m0.spec_in_bounds(xx, yy));
                        assert(spec_room_interior(new_room, xx, yy));
                        assert(rooms@[rooms@.len() - 1] == new_room);
                        assert(spec_room_interior(rooms@[rooms@.len() - 1], xx, yy));
                    } else {
                        assert(map.spec_tile(xx, yy) != m1.spec_tile(xx, yy));
                        assert(rooms_before.len() > 0);
                        let a = rooms_before[rooms_before.len() - 1].spec_center();
                        let b = new_room.spec_center();
                        assert(spec_on_corridor(a, b, xx, yy));
                        assert(rooms@[rooms@.len() - 2] == rooms_before[rooms_before.len() - 1]);
                        assert(rooms@[rooms@.len() - 1] == new_room);
                        assert(spec_on_corridor(
                            rooms@[rooms@.len() - 1 - 1].spec_center(),
                            rooms@[rooms@.len() - 1].spec_center(),
                            xx,
                            yy,
                        ));
                    }
                }
            }
        }
        attempt = attempt + 1;
    }

    if rooms.len() > 0 {
        proof {
            assert(2 * (map.width as int) <= i32::MAX as int && 2 * (map.height as int)
                <= i32::MAX as int) by (nonlinear_arith)
                requires
                    (map.width as int) * (map.height as int) <= i32::MAX as int,
                    5 <= map.height as int,
                    5 <= map.width as int;
        }
        let last_room = rooms[rooms.len() - 1];
        let c = last_room.center();
        proof {
            lemma_center_in_interior(last_room);
        }
        let ghost m3 = *map;
        set_tile(map, c.0, c.1, TerrainType::Stairs);
        proof {
            assert forall|x: int, y: int|
                m3.spec_in_bounds(x, y) && m3.spec_tile(x, y).spec_is_walkable() implies (
            #[trigger] map.spec_tile(x, y)).spec_is_walkable() by {}
            lemma_keeps_walkable_trans(*old(map), m3, *map);
            assert forall|i: int, xx: int, yy: int|
                0 <= i < rooms@.len() && #[trigger] spec_room_interior(rooms@[i], xx, yy)
                implies map.spec_in_bounds(xx, yy) && map.spec_tile(xx, yy).spec_is_walkable() by {
                assert(m3.spec_tile(xx, yy) is Floor);
            }
            assert forall|i: int| 0 < i < rooms@.len() implies spec_connected(
                *map,
                rooms@[i - 1].spec_center(),
                (#[trigger] rooms@[i]).spec_center(),
            ) by {
                lemma_connected_still_connected(
                    m3,
                    *map,
                    rooms@[i - 1].spec_center(),
                    rooms@[i].spec_center(),
                );
            }
            assert forall|xx: int, yy: int|
                map.spec_in_bounds(xx, yy) && (#[trigger] map.spec_tile(xx, yy)) != old(
                    map,
                ).spec_tile(xx, yy) implies spec_carved(rooms@, xx, yy) by {
                if xx == c.0 as int && yy == c.1 as int {
                    assert(spec_room_interior(last_room, xx, yy));
                    assert(rooms@[rooms@.len() - 1] == last_room);
                    assert(spec_room_interior(rooms@[rooms@.len() - 1], xx, yy));
                } else {
                    assert(map.spec_tile(xx, yy) == m3.spec_tile(xx, yy));
                }
            }
        }
    }
    rooms
}

/// The classic whole-level construction: an 80 by 50 map of solid Wall,
/// rooms with edges from 6 to 10 cells carved into it — at least one and
/// at most 30 — joined by corridors, with Stairs in the last accepted
/// room. Every cell the carving did not reach is still Wall. Returns the
/// map with its accepted rooms.
pub fn new_map_rooms_and_corridors(rng: &mut RandomNumberGenerator) -> (r: (GridMap, Vec<Room>))
    ensures
        r.0.wf(),
        r.0.width == 80,
        r.0.height == 50,
        1 <= r.1@.len() <= 30,
        forall|xx: int, yy: int|
            r.0.spec_in_bounds(xx, yy) && !spec_carved(r.1@, xx, yy) ==> (
            #[trigger] r.0.spec_tile(xx, yy)) is Wall,
        spec_rooms_disjoint(r.1@),
        spec_interiors_walkable(r.0, r.1@),
        spec_rooms_chained(r.0, r.1@),
        forall|i: int|
            0 <= i < r.1@.len() ==> spec_room_in_map_interior(r.0, #[trigger] r.1@[i]),
        r.1@.len() > 0 ==> {
            let c = r.1@[r.1@.len() - 1].spec_center();
            &&& r.0.spec_tile(c.0, c.1) is Stairs
            &&& forall|xx: int, yy: int|
                r.0.spec_in_bounds(xx, yy) && !(xx == c.0 && yy == c.1) ==> !((
                #[trigger] r.0.spec_tile(xx, yy)) is Stairs)
        },
        r.1@.len() == 0 ==> spec_no_stairs(r.0),
{
    let mut map = GridMap::new(80, 50);
    let ghost fresh = map;
    let rooms = generate_map(&mut map, rng, 30, 6, 10);
    proof {
        assert forall|xx: int, yy: int|
            map.spec_in_bounds(xx, yy) && !spec_carved(rooms@, xx, yy) implies (
        #[trigger] map.spec_tile(xx, yy)) is Wall by {
            assert(map.spec_tile(xx, yy) == fresh.spec_tile(xx, yy));
            fresh.lemma_idx_in_range(xx, yy);
        }
    }
    (map, rooms)
}

} // verus!
