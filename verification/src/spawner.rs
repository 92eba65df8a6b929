//! Entity placement: the player on the first walkable tile in row-major
//! scan order, monsters on walkable tiles at a safe squared distance from
//! the player, items on walkable tiles. Placement retries a bounded number
//! of times and silently skips a spawn whose retries run out; that is never
//! an error.

use vstd::prelude::*;

use bracket_lib::random::RandomNumberGenerator;

use crate::components::{ColorRgb, Equippable, EquipmentSlot, Name, Renderable, Stats};
use crate::field_of_view::FieldOfView;
use crate::fov::spec_dist2;
use crate::grid_map::GridMap;
use crate::position::Position;
use crate::registry::{spec_occupied_count, EntityId, EntityKind, EntityRecord, Registry};
use crate::rng::rng_range;

verus! {

/// A cell strictly inside the map border.
pub open spec fn spec_interior_cell(m: GridMap, x: int, y: int) -> bool {
    1 <= x < m.width - 1 && 1 <= y < m.height - 1
}

/// Whether one interior cell comes before another in row-major scan order.
pub open spec fn spec_scan_before(x1: int, y1: int, x2: int, y2: int) -> bool {
    y1 < y2 || (y1 == y2 && x1 < x2)
}

/// The record of a freshly spawned Goblin: the common, weaker monster.
pub open spec fn spec_goblin(rec: EntityRecord) -> bool {
    &&& rec.fov is Some
    &&& rec.fov->Some_0.range == 6
    &&& rec.stats == Some(Stats { health: 8, max_health: 8, attack: 3, defense: 1, speed: 3 })
    &&& rec.renderable == Some(
        Renderable {
            glyph: 'g',
            fg: ColorRgb { r: 0, g: 70, b: 0 },
            bg: ColorRgb { r: 0, g: 0, b: 0 },
            render_order: 1,
        },
    )
    &&& rec.name is Some && rec.name->Some_0.0@ == "Goblin"@
}

/// The record of a freshly spawned Orc: the rarer, stronger monster.
pub open spec fn spec_orc(rec: EntityRecord) -> bool {
    &&& rec.fov is Some
    &&& rec.fov->Some_0.range == 7
    &&& rec.stats == Some(Stats { health: 15, max_health: 15, attack: 4, defense: 2, speed: 2 })
    &&& rec.renderable == Some(
        Renderable {
            glyph: 'o',
            fg: ColorRgb { r: 70, g: 0, b: 0 },
            bg: ColorRgb { r: 0, g: 0, b: 0 },
            render_order: 1,
        },
    )
    &&& rec.name is Some && rec.name->Some_0.0@ == "Orc"@
}

/// What every freshly spawned monster record holds: one of the two monster
/// variants, standing at its position with empty, stale sight, carrying
/// nothing.
pub open spec fn spec_monster_record(rec: EntityRecord) -> bool {
    &&& rec.kind is MonsterActor
    &&& rec.position is Some
    &&& rec.fov is Some
    &&& rec.fov->Some_0.is_dirty
    &&& rec.fov->Some_0.visible_tiles@.len() == 0
    &&& rec.consumable == false
    &&& rec.equippable is None
    &&& (spec_goblin(rec) || spec_orc(rec))
}

/// The record of a health potion lying at its position.
pub open spec fn spec_health_potion(rec: EntityRecord) -> bool {
    &&& rec.consumable == true
    &&& rec.equippable is None
    &&& rec.renderable == Some(
        Renderable {
            glyph: '!',
            fg: ColorRgb { r: 80, g: 0, b: 80 },
            bg: ColorRgb { r: 0, g: 0, b: 0 },
            render_order: 2,
        },
    )
    &&& rec.name is Some && rec.name->Some_0.0@ == "Health Potion"@
}

/// The record of a sword, equippable in the main hand.
pub open spec fn spec_sword(rec: EntityRecord) -> bool {
    &&& rec.consumable == false
    &&& rec.equippable == Some(Equippable { slot: EquipmentSlot::MainHand })
    &&& rec.renderable == Some(
        Renderable {
            glyph: '/',
            fg: ColorRgb { r: 80, g: 80, b: 80 },
            bg: ColorRgb { r: 0, g: 0, b: 0 },
            render_order: 2,
        },
    )
    &&& rec.name is Some && rec.name->Some_0.0@ == "Sword"@
}

/// The record of a shield, equippable in the off hand.
pub open spec fn spec_shield(rec: EntityRecord) -> bool {
    &&& rec.consumable == false
    &&& rec.equippable == Some(Equippable { slot: EquipmentSlot::OffHand })
    &&& rec.renderable == Some(
        Renderable {
            glyph: '[',
            fg: ColorRgb { r: 80, g: 60, b: 20 },
            bg: ColorRgb { r: 0, g: 0, b: 0 },
            render_order: 2,
        },
    )
    &&& rec.name is Some && rec.name->Some_0.0@ == "Shield"@
}

/// What every freshly spawned item record holds: one of the three item
/// variants, lying at its position, with no sight and no stats.
pub open spec fn spec_item_record(rec: EntityRecord) -> bool {
    &&& rec.kind is ItemEntity
    &&& rec.position is Some
    &&& rec.fov is None
    &&& rec.stats is None
    &&& (spec_health_potion(rec) || spec_sword(rec) || spec_shield(rec))
}

/// The documented start policy: the first walkable interior tile in
/// row-major scan order, or (1, 1) when the interior holds no walkable
/// tile at all (the degenerate all-Wall level).
pub fn player_start_position(map: &GridMap) -> (r: Position)
    requires
        map.wf(),
    ensures
        (exists|x: int, y: int|
            spec_interior_cell(*map, x, y) && (#[trigger] map.spec_tile(
                x,
                y,
            )).spec_is_walkable()) ==> {
            &&& spec_interior_cell(*map, r.x as int, r.y as int)
            &&& map.spec_tile(r.x as int, r.y as int).spec_is_walkable()
            &&& forall|x: int, y: int|
                spec_interior_cell(*map, x, y) && spec_scan_before(x, y, r.x as int, r.y as int)
                    ==> !(#[trigger] map.spec_tile(x, y)).spec_is_walkable()
        },
        (forall|x: int, y: int|
            spec_interior_cell(*map, x, y) ==> !(#[trigger] map.spec_tile(
                x,
                y,
            )).spec_is_walkable()) ==> r == (Position { x: 1, y: 1 }),
{
    let mut y: i32 = 1;
    while y < map.height - 1
        invariant
            map.wf(),
            1 <= y,
            y <= map.height - 1 || y == 1,
            forall|xx: int, yy: int|
                spec_interior_cell(*map, xx, yy) && yy < y ==> !(#[trigger] map.spec_tile(
                    xx,
                    yy,
                )).spec_is_walkable(),
        decreases map.height - y,
    {
        let mut x: i32 = 1;
        while x < map.width - 1
            invariant
                map.wf(),
                1 <= y < map.height - 1,
                1 <= x,
                x <= map.width - 1 || x == 1,
                forall|xx: int, yy: int|
                    spec_interior_cell(*map, xx, yy) && yy < y ==> !(#[trigger] map.spec_tile(
                        xx,
                        yy,
                    )).spec_is_walkable(),
                forall|xx: int|
                    1 <= xx < x ==> !(#[trigger] map.spec_tile(xx, y as int)).spec_is_walkable(),
            decreases map.width - x,
        {
            if map.get_tile(x, y).is_walkable() {
                return Position::new(x, y);
            }
            x = x + 1;
        }
        y = y + 1;
    }
    Position::new(1, 1)
}

/// Spawn the player at the documented start tile — the first walkable
/// interior tile in row-major scan order, or (1, 1) on an all-Wall level —
/// with sight radius 8 and the standard starting stats, leaving every
/// existing entity untouched.
#[verifier::spinoff_prover]
#[verifier::rlimit(100)]
pub fn spawn_player(registry: &mut Registry, map: &GridMap) -> (id: EntityId)
    requires
        old(registry).wf(),
        old(registry).slots@.len() + 1 < usize::MAX,
        map.wf(),
    ensures
        final(registry).wf(),
        spec_occupied_count(final(registry).slots@) == spec_occupied_count(old(registry).slots@)
            + 1,
        final(registry).spec_live(id),
        !old(registry).spec_live(id),
        final(registry).spec_record(id).kind is PlayerActor,
        final(registry).spec_record(id).position is Some,
        final(registry).spec_record(id).fov is Some,
        final(registry).spec_record(id).fov->Some_0.range == 8,
        final(registry).spec_record(id).fov->Some_0.is_dirty,
        final(registry).spec_record(id).fov->Some_0.visible_tiles@.len() == 0,
        final(registry).spec_record(id).stats == Some(
            Stats { health: 30, max_health: 30, attack: 5, defense: 2, speed: 5 },
        ),
        final(registry).spec_record(id).renderable == Some(
            Renderable {
                glyph: '@',
                fg: ColorRgb { r: 100, g: 100, b: 100 },
                bg: ColorRgb { r: 0, g: 0, b: 0 },
                render_order: 0,
            },
        ),
        final(registry).spec_record(id).name is Some && final(registry).spec_record(
            id,
        ).name->Some_0.0@ == "Player"@,
        final(registry).spec_record(id).consumable == false,
        final(registry).spec_record(id).equippable is None,
        (exists|x: int, y: int|
            spec_interior_cell(*map, x, y) && (#[trigger] map.spec_tile(
                x,
                y,
            )).spec_is_walkable()) ==> {
            let pos = final(registry).spec_record(id).position->Some_0;
            &&& spec_interior_cell(*map, pos.x as int, pos.y as int)
            &&& map.spec_tile(pos.x as int, pos.y as int).spec_is_walkable()
            &&& forall|x: int, y: int|
                spec_interior_cell(*map, x, y) && spec_scan_before(
                    x,
                    y,
                    pos.x as int,
                    pos.y as int,
                ) ==> !(#[trigger] map.spec_tile(x, y)).spec_is_walkable()
        },
        (forall|x: int, y: int|
            spec_interior_cell(*map, x, y) ==> !(#[trigger] map.spec_tile(
                x,
                y,
            )).spec_is_walkable()) ==> final(registry).spec_record(id).position == Some(
            Position { x: 1, y: 1 },
        ),
        forall|other: EntityId|
            old(registry).spec_live(other) ==> #[trigger] final(registry).spec_live(other)
                && final(registry).spec_record(other) == old(registry).spec_record(other),
    {
    let start = player_start_position(map);
    let record = EntityRecord {
        kind: EntityKind::PlayerActor,
        position: Some(start),
        fov: Some(FieldOfView::new(8)),
        stats: Some(Stats::new(30, 5, 2, 5)),
        renderable: Some(
            Renderable::new('@', ColorRgb::new(100, 100, 100), ColorRgb::new(0, 0, 0), 0),
        ),
        name: Some(Name("Player".to_string())),
        consumable: false,
        equippable: None,
    };
    let id = registry.spawn(record);
    proof {
        assert(registry.spec_record(id).position == Some(start));
        assert((exists|x: int, y: int|
            spec_interior_cell(*map, x, y) && (#[trigger] map.spec_tile(
                x,
                y,
            )).spec_is_walkable()) ==> {
            let pos = registry.spec_record(id).position->Some_0;
            &&& spec_interior_cell(*map, pos.x as int, pos.y as int)
            &&& map.spec_tile(pos.x as int, pos.y as int).spec_is_walkable()
            &&& forall|x: int, y: int|
                spec_interior_cell(*map, x, y) && spec_scan_before(
                    x,
                    y,
                    pos.x as int,
                    pos.y as int,
                ) ==> !(#[trigger] map.spec_tile(x, y)).spec_is_walkable()
        });
        assert((forall|x: int, y: int|
            spec_interior_cell(*map, x, y) ==> !(#[trigger] map.spec_tile(
                x,
                y,
            )).spec_is_walkable()) ==> registry.spec_record(id).position == Some(
            Position { x: 1, y: 1 },
        ));
        assert(forall|other: EntityId|
            old(registry).spec_live(other) ==> #[trigger] registry.spec_live(other)
                && registry.spec_record(other) == old(registry).spec_record(other));
    }
    id
}

/// Spawn the initial player for a fresh session: exactly `spawn_player`'s
/// policy, record and start tile.
pub fn spawn_initial_player(registry: &mut Registry, map: &GridMap) -> (id: EntityId)
    requires
        old(registry).wf(),
        old(registry).slots@.len() + 1 < usize::MAX,
        map.wf(),
    ensures
        final(registry).wf(),
        spec_occupied_count(final(registry).slots@) == spec_occupied_count(old(registry).slots@)
            + 1,
        final(registry).spec_live(id),
        !old(registry).spec_live(id),
        final(registry).spec_record(id).kind is PlayerActor,
        final(registry).spec_record(id).fov is Some && final(registry).spec_record(
            id,
        ).fov->Some_0.range == 8 && final(registry).spec_record(id).fov->Some_0.is_dirty,
        final(registry).spec_record(id).stats == Some(
            Stats { health: 30, max_health: 30, attack: 5, defense: 2, speed: 5 },
        ),
        (exists|x: int, y: int|
            spec_interior_cell(*map, x, y) && (#[trigger] map.spec_tile(
                x,
                y,
            )).spec_is_walkable()) ==> {
            let pos = final(registry).spec_record(id).position->Some_0;
            &&& final(registry).spec_record(id).position is Some
            &&& spec_interior_cell(*map, pos.x as int, pos.y as int)
            &&& map.spec_tile(pos.x as int, pos.y as int).spec_is_walkable()
            &&& forall|x: int, y: int|
                spec_interior_cell(*map, x, y) && spec_scan_before(
                    x,
                    y,
                    pos.x as int,
                    pos.y as int,
                ) ==> !(#[trigger] map.spec_tile(x, y)).spec_is_walkable()
        },
        (forall|x: int, y: int|
            spec_interior_cell(*map, x, y) ==> !(#[trigger] map.spec_tile(
                x,
                y,
            )).spec_is_walkable()) ==> final(registry).spec_record(id).position == Some(
            Position { x: 1, y: 1 },
        ),
        forall|other: EntityId|
            old(registry).spec_live(other) ==> #[trigger] final(registry).spec_live(other)
                && final(registry).spec_record(other) == old(registry).spec_record(other),
    {
    spawn_player(registry, map)
}

/// Scatter 5 to 14 monsters — never more than 14 entities in all. Each
/// draws up to 100 candidate tiles and is placed on the first walkable one
/// whose squared Euclidean distance to the player exceeds 25; a monster
/// whose retries run out is silently skipped. Every monster placed is a
/// Goblin or an Orc standing on a walkable interior tile strictly farther
/// than squared distance 25 from the player, with stale sight, and no
/// existing entity changes.
#[verifier::loop_isolation(false)]
pub fn spawn_monsters(
    registry: &mut Registry,
    map: &GridMap,
    rng: &mut RandomNumberGenerator,
    player_pos: Position,
)
    requires
        old(registry).wf(),
        old(registry).slots@.len() + 16 < usize::MAX,
        map.wf(),
        3 <= map.width,
        3 <= map.height,
        map.spec_in_bounds(player_pos.x as int, player_pos.y as int),
    ensures
        final(registry).wf(),
        forall|other: EntityId|
            old(registry).spec_live(other) ==> #[trigger] final(registry).spec_live(other)
                && final(registry).spec_record(other) == old(registry).spec_record(other),
        spec_occupied_count(final(registry).slots@) <= spec_occupied_count(old(registry).slots@)
            + 14,
        forall|id: EntityId|
            #[trigger] final(registry).spec_live(id) && !old(registry).spec_live(id) ==> {
                let rec = final(registry).spec_record(id);
                &&& spec_monster_record(rec)
                &&& spec_interior_cell(
                    *map,
                    rec.position->Some_0.x as int,
                    rec.position->Some_0.y as int,
                )
                &&& map.spec_tile(
                    rec.position->Some_0.x as int,
                    rec.position->Some_0.y as int,
                ).spec_is_walkable()
                &&& spec_dist2(
                    player_pos.x as int,
                    player_pos.y as int,
                    rec.position->Some_0.x as int,
                    rec.position->Some_0.y as int,
                ) > 25
            },
    {
    let num_monsters = rng_range(rng, 5, 15);
    let mut m: i32 = 0;
    while m < num_monsters
        invariant
            registry.wf(),
            map.wf(),
            3 <= map.width,
            3 <= map.height,
            map.spec_in_bounds(player_pos.x as int, player_pos.y as int),
            0 <= m,
            m <= num_monsters < 15,
            registry.slots@.len() <= old(registry).slots@.len() + m,
            old(registry).slots@.len() + 16 < usize::MAX,
            forall|other: EntityId|
                old(registry).spec_live(other) ==> #[trigger] registry.spec_live(other)
                    && registry.spec_record(other) == old(registry).spec_record(other),
            spec_occupied_count(registry.slots@) <= spec_occupied_count(old(registry).slots@)
                + m,
            forall|id: EntityId|
                #[trigger] registry.spec_live(id) && !old(registry).spec_live(id) ==> {
                    let rec = registry.spec_record(id);
                    &&& spec_monster_record(rec)
                    &&& spec_interior_cell(
                        *map,
                        rec.position->Some_0.x as int,
                        rec.position->Some_0.y as int,
                    )
                    &&& map.spec_tile(
                        rec.position->Some_0.x as int,
                        rec.position->Some_0.y as int,
                    ).spec_is_walkable()
                    &&& spec_dist2(
                        player_pos.x as int,
                        player_pos.y as int,
                        rec.position->Some_0.x as int,
                        rec.position->Some_0.y as int,
                    ) > 25
                },
        decreases num_monsters - m,
    {
        let mut valid_position: Option<Position> = None;
        let mut attempts: u32 = 0;
        while valid_position.is_none() && attempts < 100
            invariant
                registry.wf(),
                map.wf(),
                3 <= map.width,
                3 <= map.height,
                map.spec_in_bounds(player_pos.x as int, player_pos.y as int),
                attempts <= 100,
                valid_position is Some ==> {
                    let p = valid_position->Some_0;
                    &&& spec_interior_cell(*map, p.x as int, p.y as int)
                    &&& map.spec_tile(p.x as int, p.y as int).spec_is_walkable()
                    &&& spec_dist2(
                        player_pos.x as int,
                        player_pos.y as int,
                        p.x as int,
                        p.y as int,
                    ) > 25
                },
            decreases 100 - attempts,
        {
            let x = rng_range(rng, 1, map.width - 1);
            let y = rng_range(rng, 1, map.height - 1);
            if map.get_tile(x, y).is_walkable() {
                let dx = x as i64 - player_pos.x as i64;
                let dy = y as i64 - player_pos.y as i64;
                proof {
                    assert(0 <= dx * dx <= 0x7FFF_FFFF * 0x7FFF_FFFF && 0 <= dy * dy
                        <= 0x7FFF_FFFF * 0x7FFF_FFFF) by (nonlinear_arith)
                        requires
                            -0x7FFF_FFFF <= dx <= 0x7FFF_FFFF,
                            -0x7FFF_FFFF <= dy <= 0x7FFF_FFFF;
                }
                let distance2 = dx * dx + dy * dy;
                if distance2 > 25 {
                    valid_position = Some(Position::new(x, y));
                }
            }
            attempts = attempts + 1;
        }

        if let Some(pos) = valid_position {
            let roll = rng_range(rng, 0, 100);
            let record = if roll < 80 {
                EntityRecord {
                    kind: EntityKind::MonsterActor,
                    position: Some(pos),
                    fov: Some(FieldOfView::new(6)),
                    stats: Some(Stats::new(8, 3, 1, 3)),
                    renderable: Some(
                        Renderable::new('g', ColorRgb::new(0, 70, 0), ColorRgb::new(0, 0, 0), 1),
                    ),
                    name: Some(Name("Goblin".to_string())),
                    consumable: false,
                    equippable: None,
                }
            } else {
                EntityRecord {
                    kind: EntityKind::MonsterActor,
                    position: Some(pos),
                    fov: Some(FieldOfView::new(7)),
                    stats: Some(Stats::new(15, 4, 2, 2)),
                    renderable: Some(
                        Renderable::new('o', ColorRgb::new(70, 0, 0), ColorRgb::new(0, 0, 0), 1),
                    ),
                    name: Some(Name("Orc".to_string())),
                    consumable: false,
                    equippable: None,
                }
            };
            proof {
                assert(spec_monster_record(record));
            }
            let ghost pre = *registry;
            registry.spawn(record);
            proof {
                assert forall|other: EntityId| old(registry).spec_live(other) implies #[trigger]
                    registry.spec_live(other) && registry.spec_record(other) == old(
                    registry,
                ).spec_record(other) by {
                    assert(pre.spec_live(other));
                    assert(pre.spec_record(other) == old(registry).spec_record(other));
                }
            }
        }
        m = m + 1;
    }
}

/// Scatter 3 to 7 items — never more than 7 entities in all — onto
/// walkable tiles, each with up to 100 retries and a silent skip on
/// exhaustion: health potions most often, then swords, then shields. Every
/// item placed is one of those three, lying on a walkable interior tile,
/// and no existing entity changes.
#[verifier::loop_isolation(false)]
pub fn spawn_items(registry: &mut Registry, map: &GridMap, rng: &mut RandomNumberGenerator)
    requires
        old(registry).wf(),
        old(registry).slots@.len() + 8 < usize::MAX,
        map.wf(),
        3 <= map.width,
        3 <= map.height,
    ensures
        final(registry).wf(),
        forall|other: EntityId|
            old(registry).spec_live(other) ==> #[trigger] final(registry).spec_live(other)
                && final(registry).spec_record(other) == old(registry).spec_record(other),
        spec_occupied_count(final(registry).slots@) <= spec_occupied_count(old(registry).slots@)
            + 7,
        forall|id: EntityId|
            #[trigger] final(registry).spec_live(id) && !old(registry).spec_live(id) ==> {
                let rec = final(registry).spec_record(id);
                &&& spec_item_record(rec)
                &&& spec_interior_cell(
                    *map,
                    rec.position->Some_0.x as int,
                    rec.position->Some_0.y as int,
                )
                &&& map.spec_tile(
                    rec.position->Some_0.x as int,
                    rec.position->Some_0.y as int,
                ).spec_is_walkable()
            },
    {
    let num_items = rng_range(rng, 3, 8);
    let mut m: i32 = 0;
    while m < num_items
        invariant
            registry.wf(),
            map.wf(),
            3 <= map.width,
            3 <= map.height,
            0 <= m,
            m <= num_items < 8,
            registry.slots@.len() <= old(registry).slots@.len() + m,
            old(registry).slots@.len() + 8 < usize::MAX,
            forall|other: EntityId|
                old(registry).spec_live(other) ==> #[trigger] registry.spec_live(other)
                    && registry.spec_record(other) == old(registry).spec_record(other),
            spec_occupied_count(registry.slots@) <= spec_occupied_count(old(registry).slots@)
                + m,
            forall|id: EntityId|
                #[trigger] registry.spec_live(id) && !old(registry).spec_live(id) ==> {
                    let rec = registry.spec_record(id);
                    &&& spec_item_record(rec)
                    &&& spec_interior_cell(
                        *map,
                        rec.position->Some_0.x as int,
                        rec.position->Some_0.y as int,
                    )
                    &&& map.spec_tile(
                        rec.position->Some_0.x as int,
                        rec.position->Some_0.y as int,
                    ).spec_is_walkable()
                },
        decreases num_items - m,
    {
        let mut valid_position: Option<Position> = None;
        let mut attempts: u32 = 0;
        while valid_position.is_none() && attempts < 100
            invariant
                map.wf(),
                3 <= map.width,
                3 <= map.height,
                attempts <= 100,
                valid_position is Some ==> {
                    let p = valid_position->Some_0;
                    &&& spec_interior_cell(*map, p.x as int, p.y as int)
                    &&& map.spec_tile(p.x as int, p.y as int).spec_is_walkable()
                },
            decreases 100 - attempts,
        {
            let x = rng_range(rng, 1, map.width - 1);
            let y = rng_range(rng, 1, map.height - 1);
            if map.get_tile(x, y).is_walkable() {
                valid_position = Some(Position::new(x, y));
            }
            attempts = attempts + 1;
        }

        if let Some(pos) = valid_position {
            let item_roll = rng_range(rng, 0, 100);
            let record = if item_roll < 70 {
                EntityRecord {
                    kind: EntityKind::ItemEntity,
                    position: Some(pos),
                    fov: None,
                    stats: None,
                    renderable: Some(
                        Renderable::new('!', ColorRgb::new(80, 0, 80), ColorRgb::new(0, 0, 0), 2),
                    ),
                    name: Some(Name("Health Potion".to_string())),
                    consumable: true,
                    equippable: None,
                }
            } else if item_roll < 90 {
                EntityRecord {
                    kind: EntityKind::ItemEntity,
                    position: Some(pos),
                    fov: None,
                    stats: None,
                    renderable: Some(
                        Renderable::new('/', ColorRgb::new(80, 80, 80), ColorRgb::new(0, 0, 0), 2),
                    ),
                    name: Some(Name("Sword".to_string())),
                    consumable: false,
                    equippable: Some(Equippable { slot: EquipmentSlot::MainHand }),
                }
            } else {
                EntityRecord {
                    kind: EntityKind::ItemEntity,
                    position: Some(pos),
                    fov: None,
                    stats: None,
                    renderable: Some(
                        Renderable::new('[', ColorRgb::new(80, 60, 20), ColorRgb::new(0, 0, 0), 2),
                    ),
                    name: Some(Name("Shield".to_string())),
                    consumable: false,
                    equippable: Some(Equippable { slot: EquipmentSlot::OffHand }),
                }
            };
            proof {
                assert(spec_item_record(record));
            }
            let ghost pre = *registry;
            registry.spawn(record);
            proof {
                assert forall|other: EntityId| old(registry).spec_live(other) implies #[trigger]
                    registry.spec_live(other) && registry.spec_record(other) == old(
                    registry,
                ).spec_record(other) by {
                    assert(pre.spec_live(other));
                    assert(pre.spec_record(other) == old(registry).spec_record(other));
                }
            }
        }
        m = m + 1;
    }
}

/// Reset the map for a new game: the default open level, nothing yet
/// revealed or visible. The session layer then regenerates and respawns.
pub fn setup_game(map: &mut GridMap)
    ensures
        final(map).wf(),
        final(map).width == 80,
        final(map).height == 50,
        forall|x: int, y: int|
            final(map).spec_in_bounds(x, y) ==> final(map).spec_tile(x, y) == (if 1 <= x < 79 && 1
                <= y < 49 {
                crate::terrain::TerrainType::Floor
            } else {
                crate::terrain::TerrainType::Wall
            }),
        forall|i: int| 0 <= i < final(map).spec_size() ==> !final(map).revealed_tiles@[i],
        forall|i: int| 0 <= i < final(map).spec_size() ==> !final(map).visible_tiles@[i],
{
    *map = GridMap::default();
}

} // verus!
