use roguelike_core::actions::{handle_player_actions, MoveOutcome, PlayerAction, TryMove};
use roguelike_core::field_of_view::FieldOfView;
use roguelike_core::game_log::GameLog;
use roguelike_core::grid_map::GridMap;
use roguelike_core::movement::{try_move_entity, MoveDirection};
use roguelike_core::position::Position;
use roguelike_core::registry::{EntityKind, EntityRecord, Registry};
use roguelike_core::terrain::TerrainType;
use roguelike_core::turn_state::TurnState;

fn actor_at(x: i32, y: i32) -> EntityRecord {
    EntityRecord {
        kind: EntityKind::PlayerActor,
        position: Some(Position::new(x, y)),
        fov: Some(FieldOfView::new(8)),
        stats: None,
        renderable: None,
        name: None,
        consumable: false,
        equippable: None,
    }
}

/// A 5 by 5 map of Wall with a single Floor cell at (2, 2).
fn one_cell_map() -> GridMap {
    let mut map = GridMap::new(5, 5);
    let idx = map.xy_idx(2, 2);
    map.tiles[idx] = TerrainType::Floor;
    map
}

#[test]
fn direction_deltas() {
    assert_eq!(MoveDirection::North.delta(), (0, -1));
    assert_eq!(MoveDirection::South.delta(), (0, 1));
    assert_eq!(MoveDirection::East.delta(), (1, 0));
    assert_eq!(MoveDirection::West.delta(), (-1, 0));
}

#[test]
fn walkable_step_commits_and_dirties_sight() {
    let mut map = GridMap::default();
    let mut registry = Registry::new();
    let id = registry.spawn(actor_at(5, 5));
    // Settle the sight cache so the dirty flag change is observable.
    match &mut registry.slots[id.index].record {
        Some(rec) => rec.fov.as_mut().unwrap().is_dirty = false,
        None => unreachable!(),
    }
    let moved = try_move_entity(&mut registry, id, MoveDirection::East, &map);
    assert!(moved);
    let rec = registry.record(id).unwrap();
    assert_eq!(rec.position, Some(Position::new(6, 5)));
    assert!(rec.fov.as_ref().unwrap().is_dirty);
    // And the map itself is never touched by movement.
    assert_eq!(map.get_tile(5, 5), TerrainType::Floor);
}

#[test]
fn blocked_step_changes_nothing_twice_over() {
    let map = one_cell_map();
    let mut registry = Registry::new();
    let id = registry.spawn(actor_at(2, 2));
    match &mut registry.slots[id.index].record {
        Some(rec) => rec.fov.as_mut().unwrap().is_dirty = false,
        None => unreachable!(),
    }
    let first = try_move_entity(&mut registry, id, MoveDirection::North, &map);
    assert!(!first);
    let rec = registry.record(id).unwrap();
    assert_eq!(rec.position, Some(Position::new(2, 2)));
    assert!(!rec.fov.as_ref().unwrap().is_dirty);
    // The identical blocked attempt again: still no change at all.
    let second = try_move_entity(&mut registry, id, MoveDirection::North, &map);
    assert!(!second);
    let rec = registry.record(id).unwrap();
    assert_eq!(rec.position, Some(Position::new(2, 2)));
    assert!(!rec.fov.as_ref().unwrap().is_dirty);
}

#[test]
fn stepping_off_the_map_edge_is_blocked() {
    let mut map = GridMap::new(3, 3);
    let idx = map.xy_idx(0, 0);
    map.tiles[idx] = TerrainType::Floor;
    let mut registry = Registry::new();
    let id = registry.spawn(actor_at(0, 0));
    assert!(!try_move_entity(&mut registry, id, MoveDirection::North, &map));
    assert!(!try_move_entity(&mut registry, id, MoveDirection::West, &map));
    assert_eq!(registry.record(id).unwrap().position, Some(Position::new(0, 0)));
}

#[test]
fn dead_entity_cannot_move() {
    let map = GridMap::default();
    let mut registry = Registry::new();
    let id = registry.spawn(actor_at(5, 5));
    registry.despawn(id);
    assert!(!try_move_entity(&mut registry, id, MoveDirection::East, &map));
}

#[test]
fn blocked_move_logs_and_still_consumes_a_turn() {
    // An entity against a Wall to its north: the move fails, the position
    // stays, a blocked narration is appended, and exactly one turn passes.
    let map = one_cell_map();
    let mut registry = Registry::new();
    let mut log = GameLog::new();
    let mut turns = TurnState::new();
    let id = registry.spawn(actor_at(2, 2));
    let entries_before = log.entries.len();
    handle_player_actions(
        PlayerAction::Move(MoveDirection::North),
        &mut registry,
        id,
        &map,
        &mut log,
        &mut turns,
    );
    assert_eq!(registry.record(id).unwrap().position, Some(Position::new(2, 2)));
    assert_eq!(log.entries.len(), entries_before + 1);
    assert_eq!(log.entries.last().unwrap().text, "Something blocks your way.");
    assert_eq!(turns.turn_number, 1);
}

#[test]
fn successful_move_logs_and_consumes_a_turn() {
    let map = GridMap::default();
    let mut registry = Registry::new();
    let mut log = GameLog::new();
    let mut turns = TurnState::new();
    let id = registry.spawn(actor_at(5, 5));
    handle_player_actions(
        PlayerAction::Move(MoveDirection::South),
        &mut registry,
        id,
        &map,
        &mut log,
        &mut turns,
    );
    assert_eq!(registry.record(id).unwrap().position, Some(Position::new(5, 6)));
    assert_eq!(log.entries.last().unwrap().text, "You move.");
    assert_eq!(turns.turn_number, 1);
}

#[test]
fn waiting_consumes_a_turn_too() {
    let map = GridMap::default();
    let mut registry = Registry::new();
    let mut log = GameLog::new();
    let mut turns = TurnState::new();
    let id = registry.spawn(actor_at(5, 5));
    handle_player_actions(PlayerAction::Wait, &mut registry, id, &map, &mut log, &mut turns);
    assert_eq!(log.entries.last().unwrap().text, "You wait.");
    assert_eq!(turns.turn_number, 1);
    handle_player_actions(PlayerAction::PickupItem, &mut registry, id, &map, &mut log, &mut turns);
    assert_eq!(log.entries.last().unwrap().text, "You pick up an item.");
    assert_eq!(turns.turn_number, 2);
}

#[test]
fn try_move_command_narrates_terrain() {
    let mut map = GridMap::default();
    let stairs_idx = map.xy_idx(6, 5);
    map.tiles[stairs_idx] = TerrainType::Stairs;
    let mut registry = Registry::new();
    let mut log = GameLog::new();
    let id = registry.spawn(actor_at(5, 5));

    let onto_stairs = TryMove::new(MoveDirection::East).apply(id, &mut registry, &map, &mut log);
    assert_eq!(onto_stairs, MoveOutcome::MovedToStairs);
    assert_eq!(registry.record(id).unwrap().position, Some(Position::new(6, 5)));
    assert_eq!(log.entries.last().unwrap().text, "You move to the next level.");

    let plain_step = TryMove::new(MoveDirection::West).apply(id, &mut registry, &map, &mut log);
    assert_eq!(plain_step, MoveOutcome::Moved);
    assert_eq!(log.entries.last().unwrap().text, "You move West");

    // Walk to the border and bump the wall beyond it.
    for _ in 0..10 {
        TryMove::new(MoveDirection::West).apply(id, &mut registry, &map, &mut log);
    }
    let bump = TryMove::new(MoveDirection::West).apply(id, &mut registry, &map, &mut log);
    assert_eq!(bump, MoveOutcome::Blocked);
    assert_eq!(log.entries.last().unwrap().text, "You bump into a wall.");

    registry.despawn(id);
    let gone = TryMove::new(MoveDirection::East).apply(id, &mut registry, &map, &mut log);
    assert_eq!(gone, MoveOutcome::NoPosition);
    assert_eq!(
        log.entries.last().unwrap().text,
        "Entity cannot move (no position component)."
    );
}
