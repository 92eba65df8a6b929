use roguelike_core::field_of_view::{update_all_fov, update_fov, FieldOfView};
use roguelike_core::registry::{EntityKind, EntityRecord, Registry};
use roguelike_core::fov::compute_fov;
use roguelike_core::grid_map::GridMap;
use roguelike_core::position::Position;
use roguelike_core::terrain::TerrainType;

/// A width-by-height map whose interior is all Floor with Wall only on the
/// border.
fn bordered_floor_map(width: i32, height: i32) -> GridMap {
    let mut map = GridMap::new(width, height);
    for y in 1..height - 1 {
        for x in 1..width - 1 {
            let idx = map.xy_idx(x, y);
            map.tiles[idx] = TerrainType::Floor;
        }
    }
    map
}

#[test]
fn open_map_sees_every_tile_in_range() {
    // 10 by 10, walls only on the border, origin (5, 5), radius 8: every
    // in-bounds tile lies within Euclidean distance 8 and nothing occludes.
    let map = bordered_floor_map(10, 10);
    let result = compute_fov(Position::new(5, 5), 8, &map);
    assert_eq!(result.len(), 100);
    for y in 0..10 {
        for x in 0..10 {
            assert!(result.contains(&Position::new(x, y)), "missing ({}, {})", x, y);
        }
    }
}

#[test]
fn fov_is_deterministic() {
    let map = bordered_floor_map(24, 18);
    let a = compute_fov(Position::new(7, 9), 6, &map);
    let b = compute_fov(Position::new(7, 9), 6, &map);
    assert_eq!(a, b);
}

#[test]
fn origin_is_always_visible() {
    let map = GridMap::new(9, 9);
    // Even on solid Wall the origin tile sees itself.
    let result = compute_fov(Position::new(4, 4), 3, &map);
    assert!(result.contains(&Position::new(4, 4)));
}

#[test]
fn range_cutoff_is_euclidean() {
    let map = bordered_floor_map(40, 40);
    let result = compute_fov(Position::new(20, 20), 5, &map);
    for y in 0..40 {
        for x in 0..40 {
            let d2 = (x - 20) * (x - 20) + (y - 20) * (y - 20);
            assert_eq!(
                result.contains(&Position::new(x, y)),
                d2 <= 25,
                "tile ({}, {})",
                x,
                y
            );
        }
    }
}

#[test]
fn a_wall_casts_shadow() {
    let mut map = bordered_floor_map(20, 7);
    // A wall two steps east of the origin hides the tile straight behind it.
    let idx = map.xy_idx(10, 3);
    map.tiles[idx] = TerrainType::Wall;
    let result = compute_fov(Position::new(8, 3), 8, &map);
    assert!(result.contains(&Position::new(10, 3)), "the wall itself is seen");
    assert!(!result.contains(&Position::new(11, 3)), "hidden right behind the wall");
    assert!(!result.contains(&Position::new(12, 3)), "hidden further behind the wall");
}

#[test]
fn out_of_bounds_tiles_are_never_reported() {
    let map = bordered_floor_map(6, 6);
    let result = compute_fov(Position::new(1, 1), 8, &map);
    for p in &result {
        assert!(p.x >= 0 && p.x < 6 && p.y >= 0 && p.y < 6);
    }
}

#[test]
fn field_of_view_component_basics() {
    let mut fov = FieldOfView::new(8);
    assert_eq!(fov.range, 8);
    assert!(fov.is_dirty);
    assert!(fov.visible_tiles.is_empty());
    assert!(!fov.is_visible(&Position::new(1, 1)));
    fov.visible_tiles.push(Position::new(1, 1));
    assert!(fov.is_visible(&Position::new(1, 1)));
    assert!(!fov.is_visible(&Position::new(2, 1)));
    fov.clear();
    assert!(fov.visible_tiles.is_empty());
    assert!(fov.is_dirty);
}

#[test]
fn update_fov_recomputes_only_when_dirty() {
    let mut map = bordered_floor_map(10, 10);
    let pos = Position::new(5, 5);
    let mut fov = FieldOfView::new(8);
    update_fov(&mut map, &pos, &mut fov, true);
    assert!(!fov.is_dirty);
    assert_eq!(fov.visible_tiles.len(), 100);
    // The vision source pushed its set into the shared map state.
    assert!(map.visible_tiles[map.xy_idx(0, 0)]);
    assert!(map.revealed_tiles[map.xy_idx(9, 9)]);
    // A clean cache is a no-op, even with stale contents planted.
    fov.visible_tiles.clear();
    update_fov(&mut map, &pos, &mut fov, true);
    assert!(fov.visible_tiles.is_empty());
}

#[test]
fn non_source_update_leaves_map_alone() {
    let mut map = bordered_floor_map(10, 10);
    let pos = Position::new(4, 4);
    let mut fov = FieldOfView::new(6);
    update_fov(&mut map, &pos, &mut fov, false);
    assert!(!fov.is_dirty);
    assert!(!fov.visible_tiles.is_empty());
    assert_eq!(map.visible_tiles.iter().filter(|v| **v).count(), 0);
    assert_eq!(map.revealed_tiles.iter().filter(|v| **v).count(), 0);
}

#[test]
fn visibility_is_mutual() {
    // Scattered walls: any two floor tiles within range of each other
    // either see each other or hide from each other together.
    let mut map = bordered_floor_map(9, 9);
    for (x, y) in [(3, 2), (5, 5), (2, 6), (6, 3), (4, 4)] {
        let idx = map.xy_idx(x, y);
        map.tiles[idx] = TerrainType::Wall;
    }
    let range = 12;
    for ay in 0..9 {
        for ax in 0..9 {
            let from_a = compute_fov(Position::new(ax, ay), range, &map);
            for by in 0..9 {
                for bx in 0..9 {
                    let from_b = compute_fov(Position::new(bx, by), range, &map);
                    assert_eq!(
                        from_a.contains(&Position::new(bx, by)),
                        from_b.contains(&Position::new(ax, ay)),
                        "asymmetric sight between ({}, {}) and ({}, {})",
                        ax,
                        ay,
                        bx,
                        by
                    );
                }
            }
        }
    }
}

#[test]
fn a_half_cell_crossing_checks_both_neighbours() {
    // From (0, 0) toward (2, 1) the single intermediate step crosses the
    // grid line exactly between (1, 0) and (1, 1): a wall on either of the
    // two blocks the sight, from both ends alike.
    let mut map = bordered_floor_map(5, 4);
    // Rebuild without a border so the short line has only the one wall.
    for t in map.tiles.iter_mut() {
        *t = TerrainType::Floor;
    }
    let idx = map.xy_idx(1, 1);
    map.tiles[idx] = TerrainType::Wall;
    let from_origin = compute_fov(Position::new(0, 0), 4, &map);
    assert!(!from_origin.contains(&Position::new(2, 1)));
    let from_target = compute_fov(Position::new(2, 1), 4, &map);
    assert!(!from_target.contains(&Position::new(0, 0)));
    // With the other neighbour walled instead, the crossing still blocks.
    let mut map2 = map;
    let idx1 = map2.xy_idx(1, 1);
    map2.tiles[idx1] = TerrainType::Floor;
    let idx0 = map2.xy_idx(1, 0);
    map2.tiles[idx0] = TerrainType::Wall;
    let again = compute_fov(Position::new(0, 0), 4, &map2);
    assert!(!again.contains(&Position::new(2, 1)));
}

#[test]
fn registry_wide_pass_feeds_the_map_from_the_source_only() {
    let mut map = bordered_floor_map(12, 12);
    let mut registry = Registry::new();
    let spawn_at = |registry: &mut Registry, kind, x, y, range| {
        registry.spawn(EntityRecord {
            kind,
            position: Some(Position::new(x, y)),
            fov: Some(FieldOfView::new(range)),
            stats: None,
            renderable: None,
            name: None,
            consumable: false,
            equippable: None,
        })
    };
    let player = spawn_at(&mut registry, EntityKind::PlayerActor, 2, 2, 3);
    let monster = spawn_at(&mut registry, EntityKind::MonsterActor, 9, 9, 8);
    update_all_fov(&mut registry, &mut map, player);
    // Both caches are clean and filled.
    let prec = registry.record(player).unwrap();
    let mrec = registry.record(monster).unwrap();
    assert!(!prec.fov.as_ref().unwrap().is_dirty);
    assert!(!mrec.fov.as_ref().unwrap().is_dirty);
    assert!(!prec.fov.as_ref().unwrap().visible_tiles.is_empty());
    assert!(!mrec.fov.as_ref().unwrap().visible_tiles.is_empty());
    // The shared map state mirrors the player's set, not the monster's:
    // (9, 9) lies in the monster's own sight but far outside the player's.
    assert!(map.visible_tiles[map.xy_idx(2, 2)]);
    assert!(!map.visible_tiles[map.xy_idx(9, 9)]);
    // A second pass with everything clean changes nothing on the map.
    let before = map.visible_tiles.clone();
    update_all_fov(&mut registry, &mut map, player);
    assert_eq!(map.visible_tiles, before);
}
