use bracket_lib::random::RandomNumberGenerator;
use roguelike_core::components::{ColorRgb, Stats};
use roguelike_core::game_log::{GameLog, LOG_LIMIT};
use roguelike_core::grid_map::GridMap;
use roguelike_core::position::Position;
use roguelike_core::registry::{EntityKind, EntityRecord, Registry};
use roguelike_core::spawner::{
    player_start_position, setup_game, spawn_items, spawn_monsters, spawn_player,
};
use roguelike_core::terrain::TerrainType;
use roguelike_core::turn_state::TurnState;
use roguelike_core::components::{Description, EquipmentSlot, Renderable};

fn bare_record(kind: EntityKind) -> EntityRecord {
    EntityRecord {
        kind,
        position: None,
        fov: None,
        stats: None,
        renderable: None,
        name: None,
        consumable: false,
        equippable: None,
    }
}

#[test]
fn registry_handles_are_generation_checked() {
    let mut registry = Registry::new();
    let a = registry.spawn(bare_record(EntityKind::NpcActor));
    let b = registry.spawn(bare_record(EntityKind::MonsterActor));
    assert!(registry.is_live(a));
    assert!(registry.is_live(b));
    assert!(registry.despawn(a));
    assert!(!registry.is_live(a));
    assert!(!registry.despawn(a), "a dead handle despawns as a no-op");
    // The freed slot is reused under a bumped generation: the stale handle
    // stays dead.
    let c = registry.spawn(bare_record(EntityKind::ItemEntity));
    assert_eq!(c.index, a.index);
    assert_ne!(c.generation, a.generation);
    assert!(!registry.is_live(a));
    assert!(registry.is_live(c));
    assert!(registry.record(a).is_none());
    assert_eq!(registry.record(c).unwrap().kind, EntityKind::ItemEntity);
}

#[test]
fn position_lookup_follows_the_record() {
    let mut registry = Registry::new();
    let mut rec = bare_record(EntityKind::PlayerActor);
    rec.position = Some(Position::new(3, 9));
    let id = registry.spawn(rec);
    assert_eq!(registry.position_of(id), Some(Position::new(3, 9)));
    let other = registry.spawn(bare_record(EntityKind::NpcActor));
    assert_eq!(registry.position_of(other), None);
}

#[test]
fn game_log_keeps_at_most_the_cap_evicting_oldest() {
    let mut log = GameLog::new();
    assert_eq!(log.entries.len(), 1);
    assert_eq!(log.entries[0].text, "Welcome to the dungeon!");
    for i in 0..60 {
        log.add_entry(format!("entry {}", i));
    }
    assert_eq!(log.entries.len(), LOG_LIMIT);
    // 61 entries entered in all; the last 50 remain, oldest first.
    assert_eq!(log.entries[0].text, "entry 10");
    assert_eq!(log.entries.last().unwrap().text, "entry 59");
    log.clear();
    assert!(log.entries.is_empty());
}

#[test]
fn log_entry_colors_are_kept() {
    let mut log = GameLog::new();
    log.add_entry_srgb("tinted".to_string(), ColorRgb::new(10, 20, 30));
    let e = log.entries.last().unwrap();
    assert_eq!(e.text, "tinted");
    assert_eq!(e.color, ColorRgb::new(10, 20, 30));
    log.add_entry("plain".to_string());
    assert_eq!(log.entries.last().unwrap().color, ColorRgb::new(100, 100, 0));
}

#[test]
fn turn_state_counts_and_budgets() {
    let mut ts = TurnState::new();
    assert_eq!(ts.turn_number, 0);
    assert_eq!(ts.action_points, 0);
    assert!(ts.current_entity.is_none());
    ts.next_turn();
    ts.next_turn();
    assert_eq!(ts.turn_number, 2);
    let mut registry = Registry::new();
    let id = registry.spawn(bare_record(EntityKind::PlayerActor));
    ts.set_current_entity(id, 5);
    assert_eq!(ts.current_entity, Some(id));
    assert_eq!(ts.action_points, 5);
    assert!(ts.consume_action_points(3));
    assert_eq!(ts.action_points, 2);
    assert!(!ts.consume_action_points(3), "insufficient points leave the budget");
    assert_eq!(ts.action_points, 2);
    assert!(ts.consume_action_points(2));
    assert_eq!(ts.action_points, 0);
    ts.clear_current_entity();
    assert!(ts.current_entity.is_none());
    assert_eq!(ts.action_points, 0);
    assert_eq!(ts.turn_number, 2, "initiative changes never advance the turn");
}

#[test]
fn player_starts_on_first_walkable_scan_tile() {
    let mut map = GridMap::new(6, 6);
    let idx = map.xy_idx(4, 2);
    map.tiles[idx] = TerrainType::Floor;
    let idx2 = map.xy_idx(1, 3);
    map.tiles[idx2] = TerrainType::Floor;
    // Row-major scan: row 2 comes before row 3.
    assert_eq!(player_start_position(&map), Position::new(4, 2));
    let mut registry = Registry::new();
    let id = spawn_player(&mut registry, &map);
    let rec = registry.record(id).unwrap();
    assert_eq!(rec.kind, EntityKind::PlayerActor);
    assert_eq!(rec.position, Some(Position::new(4, 2)));
    assert_eq!(rec.fov.as_ref().unwrap().range, 8);
    assert!(rec.fov.as_ref().unwrap().is_dirty);
    assert_eq!(
        rec.stats,
        Some(Stats { health: 30, max_health: 30, attack: 5, defense: 2, speed: 5 })
    );
}

#[test]
fn player_start_falls_back_on_all_wall_map() {
    let map = GridMap::new(8, 8);
    assert_eq!(player_start_position(&map), Position::new(1, 1));
}

#[test]
fn monsters_spawn_far_from_the_player() {
    // Player at (10, 10), squared-distance threshold 25: no spawned
    // monster may stand at squared distance 25 or less.
    let map = GridMap::default();
    let mut registry = Registry::new();
    let mut rng = RandomNumberGenerator::seeded(5);
    spawn_monsters(&mut registry, &map, &mut rng, Position::new(10, 10));
    let mut monsters = 0;
    for slot in &registry.slots {
        if let Some(rec) = &slot.record {
            assert_eq!(rec.kind, EntityKind::MonsterActor);
            let p = rec.position.expect("every monster stands somewhere");
            assert!(map.get_tile(p.x, p.y).is_walkable());
            let d2 = (p.x - 10) * (p.x - 10) + (p.y - 10) * (p.y - 10);
            assert!(d2 > 25, "monster at ({}, {}) is too close", p.x, p.y);
            assert!(p.x >= 1 && p.x < map.width - 1 && p.y >= 1 && p.y < map.height - 1);
            assert!(rec.fov.as_ref().unwrap().is_dirty);
            // Each monster is one of the two variants.
            let name = rec.name.as_ref().unwrap().0.as_str();
            match name {
                "Goblin" => {
                    assert_eq!(rec.fov.as_ref().unwrap().range, 6);
                    assert_eq!(rec.stats.unwrap().health, 8);
                }
                "Orc" => {
                    assert_eq!(rec.fov.as_ref().unwrap().range, 7);
                    assert_eq!(rec.stats.unwrap().health, 15);
                }
                other => panic!("unexpected monster {}", other),
            }
            monsters += 1;
        }
    }
    assert!((5..15).contains(&monsters));
}

#[test]
fn items_spawn_on_walkable_tiles() {
    let map = GridMap::default();
    let mut registry = Registry::new();
    let mut rng = RandomNumberGenerator::seeded(12);
    spawn_items(&mut registry, &map, &mut rng);
    let mut items = 0;
    for slot in &registry.slots {
        if let Some(rec) = &slot.record {
            assert_eq!(rec.kind, EntityKind::ItemEntity);
            let p = rec.position.expect("every item lies somewhere");
            assert!(map.get_tile(p.x, p.y).is_walkable());
            assert!(p.x >= 1 && p.x < map.width - 1 && p.y >= 1 && p.y < map.height - 1);
            // Each item is one of the three variants, wired the right way.
            let name = rec.name.as_ref().unwrap().0.as_str();
            match name {
                "Health Potion" => {
                    assert!(rec.consumable);
                    assert!(rec.equippable.is_none());
                }
                "Sword" => {
                    assert!(!rec.consumable);
                    assert_eq!(rec.equippable.as_ref().unwrap().slot, EquipmentSlot::MainHand);
                }
                "Shield" => {
                    assert!(!rec.consumable);
                    assert_eq!(rec.equippable.as_ref().unwrap().slot, EquipmentSlot::OffHand);
                }
                other => panic!("unexpected item {}", other),
            }
            assert!(rec.fov.is_none());
            assert!(rec.stats.is_none());
            items += 1;
        }
    }
    assert!((3..8).contains(&items));
}

#[test]
fn setup_game_resets_to_the_default_level() {
    let mut map = GridMap::new(12, 9);
    setup_game(&mut map);
    assert_eq!(map.width, 80);
    assert_eq!(map.height, 50);
    assert_eq!(map.get_tile(1, 1), TerrainType::Floor);
    assert_eq!(map.get_tile(0, 0), TerrainType::Wall);
    assert_eq!(map.revealed_tiles.iter().filter(|v| **v).count(), 0);
}

#[test]
fn component_builders_fill_fields() {
    let s = Stats::new(12, 4, 3, 2);
    assert_eq!(s.health, 12);
    assert_eq!(s.max_health, 12);
    assert_eq!(s.attack, 4);
    assert_eq!(s.defense, 3);
    assert_eq!(s.speed, 2);
    let r = Renderable::new('g', ColorRgb::new(0, 70, 0), ColorRgb::new(0, 0, 0), 1);
    assert_eq!(r.glyph, 'g');
    assert_eq!(r.fg, ColorRgb::new(0, 70, 0));
    assert_eq!(r.render_order, 1);
    let d = Description::new("a rusty sword".to_string());
    assert_eq!(d.0, "a rusty sword");
    let p = Position::new(7, 8).offset(-2, 3);
    assert_eq!(p, Position::new(5, 11));
}
