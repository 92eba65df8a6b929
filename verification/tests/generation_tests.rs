use bracket_lib::random::RandomNumberGenerator;
use roguelike_core::generation::{generate_map, new_map_rooms_and_corridors};
use roguelike_core::grid_map::GridMap;
use roguelike_core::room::Room;
use roguelike_core::terrain::TerrainType;

fn count_stairs(map: &GridMap) -> usize {
    map.tiles.iter().filter(|t| **t == TerrainType::Stairs).count()
}

/// Breadth-first search over walkable tiles, four-directional.
fn connected_by_walkable(map: &GridMap, from: (i32, i32), to: (i32, i32)) -> bool {
    if map.is_blocked(from.0, from.1) || map.is_blocked(to.0, to.1) {
        return false;
    }
    let size = (map.width * map.height) as usize;
    let mut seen = vec![false; size];
    let mut queue = vec![map.xy_idx(from.0, from.1)];
    seen[map.xy_idx(from.0, from.1)] = true;
    let goal = map.xy_idx(to.0, to.1);
    while let Some(idx) = queue.pop() {
        if idx == goal {
            return true;
        }
        for next in map.get_available_exits(idx) {
            if !seen[next] {
                seen[next] = true;
                queue.push(next);
            }
        }
    }
    false
}

#[test]
fn rooms_are_pairwise_disjoint() {
    let mut rng = RandomNumberGenerator::seeded(7);
    let (_map, rooms) = new_map_rooms_and_corridors(&mut rng);
    for i in 0..rooms.len() {
        for j in 0..rooms.len() {
            if i != j {
                assert!(!rooms[i].intersect(&rooms[j]));
            }
        }
    }
}

#[test]
fn consecutive_room_centers_are_connected() {
    let mut rng = RandomNumberGenerator::seeded(11);
    let (map, rooms) = new_map_rooms_and_corridors(&mut rng);
    assert!(rooms.len() >= 1);
    for w in rooms.windows(2) {
        let a = w[0].center();
        let b = w[1].center();
        assert!(connected_by_walkable(&map, a, b));
    }
}

#[test]
fn exactly_one_stairs_when_rooms_accepted() {
    let mut rng = RandomNumberGenerator::seeded(3);
    let (map, rooms) = new_map_rooms_and_corridors(&mut rng);
    assert!(rooms.len() >= 1);
    assert_eq!(count_stairs(&map), 1);
    let (cx, cy) = rooms[rooms.len() - 1].center();
    assert_eq!(map.get_tile(cx, cy), TerrainType::Stairs);
}

#[test]
fn zero_rooms_leave_an_all_wall_map_without_stairs() {
    let mut rng = RandomNumberGenerator::seeded(3);
    let mut map = GridMap::new(80, 50);
    let rooms = generate_map(&mut map, &mut rng, 0, 6, 10);
    assert_eq!(rooms.len(), 0);
    assert_eq!(count_stairs(&map), 0);
    for t in &map.tiles {
        assert_eq!(*t, TerrainType::Wall);
    }
}

#[test]
fn generation_is_reproducible_under_a_fixed_seed() {
    let build = || {
        let mut rng = RandomNumberGenerator::seeded(0xC0FFEE);
        let mut map = GridMap::new(80, 50);
        let rooms = generate_map(&mut map, &mut rng, 30, 6, 10);
        (map, rooms)
    };
    let (map1, rooms1) = build();
    let (map2, rooms2) = build();
    assert_eq!(rooms1.len(), rooms2.len());
    for (a, b) in rooms1.iter().zip(rooms2.iter()) {
        assert_eq!(a, b);
    }
    assert_eq!(map1.tiles, map2.tiles);
    let stairs1: Vec<usize> = (0..map1.tiles.len())
        .filter(|i| map1.tiles[*i] == TerrainType::Stairs)
        .collect();
    let stairs2: Vec<usize> = (0..map2.tiles.len())
        .filter(|i| map2.tiles[*i] == TerrainType::Stairs)
        .collect();
    assert_eq!(stairs1, stairs2);
    assert_eq!(stairs1.len(), 1);
}

#[test]
fn room_edges_stay_within_requested_sizes() {
    let mut rng = RandomNumberGenerator::seeded(99);
    let mut map = GridMap::new(80, 50);
    let rooms = generate_map(&mut map, &mut rng, 30, 6, 10);
    assert!(rooms.len() <= 30);
    for room in &rooms {
        let w = room.x2 - room.x1;
        let h = room.y2 - room.y1;
        assert!((6..=10).contains(&w));
        assert!((6..=10).contains(&h));
        assert!(room.x1 >= 1 && room.x2 <= 78);
        assert!(room.y1 >= 1 && room.y2 <= 48);
    }
}

#[test]
fn room_interiors_are_carved_walkable() {
    let mut rng = RandomNumberGenerator::seeded(21);
    let (map, rooms) = new_map_rooms_and_corridors(&mut rng);
    for room in &rooms {
        for y in room.y1 + 1..room.y2 {
            for x in room.x1 + 1..room.x2 {
                assert!(map.get_tile(x, y).is_walkable());
            }
        }
    }
}

#[test]
fn room_intersect_and_center() {
    let a = Room::new(1, 1, 6, 6);
    let b = Room::new(5, 5, 6, 6);
    let c = Room::new(10, 10, 4, 4);
    assert!(a.intersect(&b));
    assert!(b.intersect(&a));
    assert!(!a.intersect(&c));
    assert_eq!(a.center(), (4, 4));
    assert_eq!(Room::new(2, 3, 5, 7).center(), ((2 + 7) / 2, (3 + 10) / 2));
}

#[test]
fn at_least_one_room_whenever_any_are_requested() {
    // The first candidate can never collide with an earlier room, so it is
    // always accepted: every seed yields at least one room.
    for seed in 0..25u64 {
        let mut rng = RandomNumberGenerator::seeded(seed);
        let mut map = GridMap::new(80, 50);
        let rooms = generate_map(&mut map, &mut rng, 1, 6, 10);
        assert_eq!(rooms.len(), 1, "seed {}", seed);
        assert_eq!(count_stairs(&map), 1, "seed {}", seed);
    }
}

/// Whether (x, y) lies in `room`'s carved interior.
fn in_interior(room: &Room, x: i32, y: i32) -> bool {
    room.x1 < x && x < room.x2 && room.y1 < y && y < room.y2
}

/// Whether (x, y) lies on either L-corridor joining centers `a` and `b`.
fn on_corridor(a: (i32, i32), b: (i32, i32), x: i32, y: i32) -> bool {
    let between = |lo: i32, hi: i32, v: i32| {
        if lo <= hi {
            lo <= v && v <= hi
        } else {
            hi <= v && v <= lo
        }
    };
    (y == a.1 && between(a.0, b.0, x))
        || (x == b.0 && between(a.1, b.1, y))
        || (x == a.0 && between(a.1, b.1, y))
        || (y == b.1 && between(a.0, b.0, x))
}

#[test]
fn carving_is_confined_to_rooms_and_corridors() {
    // Every non-Wall tile lies in some accepted room's interior or on an
    // L-corridor joining a consecutive pair of centers; everything else is
    // still the Wall the fresh map started with.
    let mut rng = RandomNumberGenerator::seeded(31);
    let (map, rooms) = new_map_rooms_and_corridors(&mut rng);
    for y in 0..map.height {
        for x in 0..map.width {
            if map.get_tile(x, y) == TerrainType::Wall {
                continue;
            }
            let in_room = rooms.iter().any(|r| in_interior(r, x, y));
            let in_tunnel = rooms
                .windows(2)
                .any(|w| on_corridor(w[0].center(), w[1].center(), x, y));
            assert!(in_room || in_tunnel, "stray carve at ({}, {})", x, y);
        }
    }
}

#[test]
fn generation_fits_the_smallest_admissible_map() {
    // The sampler needs only room_max_size + 3 cells per axis.
    let mut rng = RandomNumberGenerator::seeded(8);
    let mut map = GridMap::new(13, 13);
    let rooms = generate_map(&mut map, &mut rng, 4, 2, 10);
    assert!(!rooms.is_empty());
    assert_eq!(count_stairs(&map), 1);
    for room in &rooms {
        assert!(room.x1 >= 1 && room.x2 <= 11);
        assert!(room.y1 >= 1 && room.y2 <= 11);
    }
}
