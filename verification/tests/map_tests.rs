use roguelike_core::grid_map::GridMap;
use roguelike_core::position::Position;
use roguelike_core::terrain::TerrainType;

#[test]
fn new_map_is_all_wall_and_unseen() {
    let map = GridMap::new(7, 5);
    assert_eq!(map.width, 7);
    assert_eq!(map.height, 5);
    assert_eq!(map.tiles.len(), 35);
    assert_eq!(map.revealed_tiles.len(), 35);
    assert_eq!(map.visible_tiles.len(), 35);
    for t in &map.tiles {
        assert_eq!(*t, TerrainType::Wall);
    }
    for i in 0..35 {
        assert!(!map.revealed_tiles[i]);
        assert!(!map.visible_tiles[i]);
    }
}

#[test]
fn default_map_has_open_interior() {
    let map = GridMap::default();
    assert_eq!(map.width, 80);
    assert_eq!(map.height, 50);
    assert_eq!(map.get_tile(0, 0), TerrainType::Wall);
    assert_eq!(map.get_tile(79, 49), TerrainType::Wall);
    assert_eq!(map.get_tile(1, 1), TerrainType::Floor);
    assert_eq!(map.get_tile(78, 48), TerrainType::Floor);
    assert_eq!(map.get_tile(79, 1), TerrainType::Wall);
    assert_eq!(map.get_tile(1, 49), TerrainType::Wall);
}

#[test]
fn terrain_predicates() {
    assert!(TerrainType::Floor.is_walkable());
    assert!(TerrainType::Stairs.is_walkable());
    assert!(!TerrainType::Wall.is_walkable());
    assert!(TerrainType::Wall.is_opaque());
    assert!(!TerrainType::Floor.is_opaque());
    assert!(!TerrainType::Stairs.is_opaque());
}

#[test]
fn bounds_and_indexing_round_trip() {
    let map = GridMap::new(80, 50);
    assert!(map.in_bounds(0, 0));
    assert!(map.in_bounds(79, 49));
    assert!(!map.in_bounds(-1, 0));
    assert!(!map.in_bounds(80, 0));
    assert!(!map.in_bounds(0, 50));
    let idx = map.xy_idx(13, 27);
    assert_eq!(idx, 27 * 80 + 13);
    assert_eq!(map.idx_xy(idx), (13, 27));
}

#[test]
fn out_of_bounds_is_blocked_and_opaque() {
    let map = GridMap::default();
    assert!(map.is_blocked(-1, 5));
    assert!(map.is_blocked(5, -1));
    assert!(map.is_blocked(80, 5));
    assert!(map.is_blocked(5, 50));
    assert!(map.is_blocked(0, 0));
    assert!(!map.is_blocked(5, 5));
    assert!(map.is_opaque_at(-3, 2));
    assert!(map.is_opaque_at(0, 0));
    assert!(!map.is_opaque_at(5, 5));
}

#[test]
fn set_visibility_marks_exactly_in_bounds_inputs() {
    let mut map = GridMap::default();
    let positions = vec![
        Position::new(2, 3),
        Position::new(5, 5),
        Position::new(-4, 2),
        Position::new(200, 200),
    ];
    map.set_visibility(&positions);
    let a = map.xy_idx(2, 3);
    let b = map.xy_idx(5, 5);
    assert!(map.visible_tiles[a]);
    assert!(map.visible_tiles[b]);
    assert!(map.revealed_tiles[a]);
    assert!(map.revealed_tiles[b]);
    let marked: usize = map.visible_tiles.iter().filter(|v| **v).count();
    assert_eq!(marked, 2);
}

#[test]
fn revealed_contains_visible_after_every_call() {
    let mut map = GridMap::default();
    map.set_visibility(&vec![Position::new(4, 4), Position::new(6, 7)]);
    for i in 0..map.visible_tiles.len() {
        if map.visible_tiles[i] {
            assert!(map.revealed_tiles[i]);
        }
    }
    // The second snapshot drops (4,4) from view, but it stays revealed.
    map.set_visibility(&vec![Position::new(6, 7)]);
    assert!(!map.visible_tiles[map.xy_idx(4, 4)]);
    assert!(map.revealed_tiles[map.xy_idx(4, 4)]);
    for i in 0..map.visible_tiles.len() {
        if map.visible_tiles[i] {
            assert!(map.revealed_tiles[i]);
        }
    }
    // An empty snapshot: nothing visible, revelation persists.
    map.set_visibility(&vec![]);
    assert_eq!(map.visible_tiles.iter().filter(|v| **v).count(), 0);
    assert!(map.revealed_tiles[map.xy_idx(6, 7)]);
}

#[test]
fn clear_visibility_keeps_revealed() {
    let mut map = GridMap::default();
    map.set_visibility(&vec![Position::new(3, 3)]);
    map.clear_visibility();
    assert_eq!(map.visible_tiles.iter().filter(|v| **v).count(), 0);
    assert!(map.revealed_tiles[map.xy_idx(3, 3)]);
}

#[test]
fn available_exits_on_open_ground() {
    let map = GridMap::default();
    let idx = map.xy_idx(5, 5);
    let exits = map.get_available_exits(idx);
    let expected = vec![
        map.xy_idx(5, 4),
        map.xy_idx(6, 5),
        map.xy_idx(5, 6),
        map.xy_idx(4, 5),
    ];
    assert_eq!(exits, expected);
}

#[test]
fn available_exits_in_a_corner() {
    let map = GridMap::default();
    // (1, 1) has walls to its north and west.
    let exits = map.get_available_exits(map.xy_idx(1, 1));
    let expected = vec![map.xy_idx(2, 1), map.xy_idx(1, 2)];
    assert_eq!(exits, expected);
}

#[test]
fn app_constants_are_fixed() {
    assert_eq!(roguelike_core::AppConstants::BASE, "./assets");
    assert_eq!(roguelike_core::AppConstants::APP_NAME, "BasicRoguelike");
}
