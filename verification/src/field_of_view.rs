//! Per-entity visibility state: the cached set of visible tiles, the sight
//! radius, and the staleness flag that drives lazy recomputation.

use vstd::prelude::*;

use crate::fov::{compute_fov, spec_fov_contains};
use crate::grid_map::GridMap;
use crate::position::Position;
use crate::registry::{EntityId, Registry, Slot};

verus! {

/// An entity's sight: its cached visible tiles, radius, and whether the
/// cache is stale. Created dirty at spawn; marked dirty on every successful
/// move of the owning entity; cleared right after recomputation.
#[derive(Clone, Debug)]
pub struct FieldOfView {
    pub visible_tiles: Vec<Position>,
    pub range: i32,
    pub is_dirty: bool,
}

impl FieldOfView {
    /// Sight radii stay small enough that a squared radius fits an i32.
    pub open spec fn wf(self) -> bool {
        0 <= self.range <= 46340
    }

    /// The cache holds exactly the recomputation result for this origin on
    /// this map: the invariant that holds whenever `is_dirty` is false.
    pub open spec fn spec_current(self, m: GridMap, origin: Position) -> bool {
        forall|p: Position|
            self.visible_tiles@.contains(p) <==> spec_fov_contains(
                m,
                origin.x as int,
                origin.y as int,
                self.range as int,
                p.x as int,
                p.y as int,
            )
    }

    /// Fresh sight state: nothing cached yet, so it starts dirty.
    pub fn new(range: i32) -> (r: Self)
        requires
            0 <= range <= 46340,
        ensures
            r.wf(),
            r.range == range,
            r.is_dirty,
            r.visible_tiles@.len() == 0,
    {
        Self { visible_tiles: Vec::new(), range, is_dirty: true }
    }

    /// Whether the given position is in the cached visible set.
    pub fn is_visible(&self, pos: &Position) -> (r: bool)
        ensures
            r == self.visible_tiles@.contains(*pos),
    {
        let n = self.visible_tiles.len();
        let mut i: usize = 0;
        while i < n
            invariant
                i <= n,
                n == self.visible_tiles@.len(),
                forall|k: int| 0 <= k < i ==> self.visible_tiles@[k] != *pos,
            decreases n - i,
        {
            if self.visible_tiles[i].x == pos.x && self.visible_tiles[i].y == pos.y {
                return true;
            }
            i = i + 1;
        }
        false
    }

    /// Drop the cache and mark it stale.
    pub fn clear(&mut self)
        ensures
            final(self).visible_tiles@.len() == 0,
            final(self).is_dirty,
            final(self).range == old(self).range,
    {
        self.visible_tiles.clear();
        self.is_dirty = true;
    }
}

/// Recompute one entity's sight if and only if it is stale, and when this
/// entity is the vision source for the shared map state, push exactly its
/// visible set into the map's aggregate visible/revealed bitmaps. A clean
/// cache leaves everything untouched; afterwards the cache is clean and
/// matches the recomputation result for this origin, radius and map.
pub fn update_fov(map: &mut GridMap, position: &Position, fov: &mut FieldOfView, vision_source: bool)
    requires
        old(map).wf(),
        old(fov).wf(),
    ensures
        final(map).wf(),
        final(fov).wf(),
        final(map).width == old(map).width,
        final(map).height == old(map).height,
        final(map).tiles@ == old(map).tiles@,
        final(fov).range == old(fov).range,
        !final(fov).is_dirty || !old(fov).is_dirty,
        !old(fov).is_dirty ==> *final(fov) == *old(fov) && *final(map) == *old(map),
        old(fov).is_dirty ==> {
            &&& !final(fov).is_dirty
            &&& final(fov).spec_current(*old(map), *position)
        },
        !(old(fov).is_dirty && vision_source) ==> *final(map) == *old(map),
        old(fov).is_dirty && vision_source ==> {
            &&& forall|xx: int, yy: int|
                final(map).spec_in_bounds(xx, yy) ==> final(map).visible_tiles@[final(map).spec_idx(xx, yy)] == spec_fov_contains(
                    *old(map),
                    position.x as int,
                    position.y as int,
                    old(fov).range as int,
                    xx,
                    yy,
                )
            &&& forall|i: int|
                0 <= i < final(map).spec_size() ==> final(map).revealed_tiles@[i] == (old(map).revealed_tiles@[i] || final(map).visible_tiles@[i])
        },
{
    if fov.is_dirty {
        let tiles = compute_fov(*position, fov.range, map);
        fov.visible_tiles = tiles;
        if vision_source {
            let ghost m0 = *map;
            map.set_visibility(&fov.visible_tiles);
            proof {
                assert forall|xx: int, yy: int| map.spec_in_bounds(xx, yy) implies map
                    .visible_tiles@[map.spec_idx(xx, yy)] == spec_fov_contains(
                    m0,
                    position.x as int,
                    position.y as int,
                    fov.range as int,
                    xx,
                    yy,
                ) by {
                    m0.lemma_idx_in_range(xx, yy);
                    let i = m0.spec_idx(xx, yy);
                    if map.visible_tiles@[i] {
                        let k = choose|k: int|
                            0 <= k < fov.visible_tiles@.len() && m0.spec_in_bounds(
                                fov.visible_tiles@[k].x as int,
                                fov.visible_tiles@[k].y as int,
                            ) && m0.spec_idx(
                                fov.visible_tiles@[k].x as int,
                                fov.visible_tiles@[k].y as int,
                            ) == i;
                        let q = fov.visible_tiles@[k];
                        assert(fov.visible_tiles@.contains(q));
                        m0.lemma_idx_injective(q.x as int, q.y as int, xx, yy);
                    } else {
                        if spec_fov_contains(
                            m0,
                            position.x as int,
                            position.y as int,
                            fov.range as int,
                            xx,
                            yy,
                        ) {
                            let p = Position { x: xx as i32, y: yy as i32 };
                            assert(fov.visible_tiles@.contains(p));
                            let k = choose|k: int|
                                0 <= k < fov.visible_tiles@.len() && fov.visible_tiles@[k] == p;
                        }
                    }
                }
            }
        }
        fov.is_dirty = false;
    }
}


/// Refresh one registered entity's sight through the dirty-flag rule: a
/// live entity with a position and a stale visibility state gets it
/// recomputed (and, when it is the vision source, pushed into the map's
/// aggregate bitmaps); everything else, and every other entity, stays
/// exactly as it was.
pub fn refresh_entity_fov(
    registry: &mut Registry,
    id: EntityId,
    map: &mut GridMap,
    vision_source: bool,
)
    requires
        old(registry).wf(),
        old(map).wf(),
        old(registry).spec_live(id) && old(registry).spec_record(id).fov is Some ==> old(registry).spec_record(id).fov->Some_0.wf(),
    ensures
        final(registry).wf(),
        final(map).wf(),
        final(map).width == old(map).width,
        final(map).height == old(map).height,
        final(map).tiles@ == old(map).tiles@,
        final(registry).slots@.len() == old(registry).slots@.len(),
        forall|k: int|
            0 <= k < final(registry).slots@.len() && k != id.index ==> final(registry).slots@[k] == old(registry).slots@[k],
        forall|k: int|
            0 <= k < final(registry).slots@.len() ==> (#[trigger] final(registry).slots@[k]).generation == old(registry).slots@[k].generation && (final(registry).slots@[k].record is Some <==> old(registry).slots@[k].record is Some),
        forall|other: EntityId|
            old(registry).spec_live(other) && other != id ==> #[trigger] final(registry).spec_live(other) && final(registry).spec_record(other) == old(registry).spec_record(
                other,
            ),
        forall|other: EntityId|
            #[trigger] final(registry).spec_live(other) ==> old(registry).spec_live(other),
        !(old(registry).spec_live(id) && old(registry).spec_record(id).position is Some && old(registry).spec_record(id).fov is Some) ==> *final(registry) == *old(registry) && *final(map)
            == *old(map),
        old(registry).spec_live(id) && old(registry).spec_record(id).position is Some && old(registry).spec_record(id).fov is Some ==> {
            let rec = old(registry).spec_record(id);
            let frec = final(registry).spec_record(id);
            let f = rec.fov->Some_0;
            let ff = frec.fov->Some_0;
            &&& final(registry).spec_live(id)
            &&& frec.kind == rec.kind
            &&& frec.position == rec.position
            &&& frec.stats == rec.stats
            &&& frec.renderable == rec.renderable
            &&& frec.name == rec.name
            &&& frec.consumable == rec.consumable
            &&& frec.equippable == rec.equippable
            &&& frec.fov is Some
            &&& ff.range == f.range
            &&& !f.is_dirty ==> ff == f && *final(map) == *old(map)
            &&& f.is_dirty ==> !ff.is_dirty && ff.spec_current(*old(map), rec.position->Some_0)
            &&& !(f.is_dirty && vision_source) ==> *final(map) == *old(map)
            &&& (f.is_dirty && vision_source) ==> {
                &&& forall|xx: int, yy: int|
                    final(map).spec_in_bounds(xx, yy) ==> final(map).visible_tiles@[final(map).spec_idx(xx, yy)] == spec_fov_contains(
                        *old(map),
                        rec.position->Some_0.x as int,
                        rec.position->Some_0.y as int,
                        f.range as int,
                        xx,
                        yy,
                    )
                &&& forall|i: int|
                    0 <= i < final(map).spec_size() ==> final(map).revealed_tiles@[i] == (old(map).revealed_tiles@[i] || final(map).visible_tiles@[i])
            }
        },
{
    if !registry.is_live(id) {
        return ;
    }
    let pos = match registry.position_of(id) {
        Some(p) => p,
        None => {
            return ;
        },
    };
    let has_fov = match registry.record(id) {
        Some(rec) => rec.fov.is_some(),
        None => false,
    };
    if !has_fov {
        return ;
    }
    let ghost pre = *registry;
    let slot = &mut registry.slots[id.index];
    match &mut slot.record {
        Some(rec) => {
            match &mut rec.fov {
                Some(f) => {
                    update_fov(map, &pos, f, vision_source);
                },
                None => {},
            }
        },
        None => {},
    }
    proof {
        assert(registry.slots@ == pre.slots@.update(id.index as int, registry.slots@[id.index as int]));
        assert(registry.slots@[id.index as int].generation == id.generation);
        assert forall|k: int|
            0 <= k < registry.slots@.len() && (#[trigger] registry.slots@[k]).record is Some
            implies registry.slots@[k].generation < u64::MAX by {
            if k != id.index {
                assert(registry.slots@[k] == pre.slots@[k]);
            }
        }
        assert forall|other: EntityId|
            pre.spec_live(other) && other != id implies #[trigger] registry.spec_live(other)
            && registry.spec_record(other) == pre.spec_record(other) by {
            if other.index != id.index {
                assert(registry.slots@[other.index as int] == pre.slots@[other.index as int]);
            }
        }
    }
}


/// How one slot looks after a registry-wide sight refresh against map `m`:
/// dead slots and entities without a position or sight state are untouched;
/// a stale sight state is recomputed for the entity's own position and left
/// clean; a clean one is untouched. Nothing else of the record changes.
pub open spec fn spec_refreshed(olds: Slot, news: Slot, m: GridMap) -> bool {
    &&& news.generation == olds.generation
    &&& (olds.record is Some <==> news.record is Some)
    &&& olds.record is Some ==> {
        let orec = olds.record->Some_0;
        let nrec = news.record->Some_0;
        &&& nrec.kind == orec.kind
        &&& nrec.position == orec.position
        &&& nrec.stats == orec.stats
        &&& nrec.renderable == orec.renderable
        &&& nrec.name == orec.name
        &&& nrec.consumable == orec.consumable
        &&& nrec.equippable == orec.equippable
        &&& (!(orec.position is Some && orec.fov is Some) ==> nrec == orec)
        &&& (orec.position is Some && orec.fov is Some ==> {
            let f = orec.fov->Some_0;
            let nf = nrec.fov->Some_0;
            &&& nrec.fov is Some
            &&& nf.range == f.range
            &&& (!f.is_dirty ==> nf == f)
            &&& (f.is_dirty ==> !nf.is_dirty && nf.spec_current(m, orec.position->Some_0))
        })
    }
}

/// Whether the designated vision source will feed the shared map state on
/// this pass: live, with a position and a stale sight state.
pub open spec fn spec_source_feeds(slots: Seq<Slot>, source: EntityId) -> bool {
    &&& crate::registry::spec_live_slots(slots, source)
    &&& crate::registry::spec_record_slots(slots, source).position is Some
    &&& crate::registry::spec_record_slots(slots, source).fov is Some
    &&& crate::registry::spec_record_slots(slots, source).fov->Some_0.is_dirty
}

/// One visibility pass over the whole registry, in slot order: every stale
/// sight state is recomputed for its owner's position against the map, and
/// exactly the designated source's set (when it was stale) is pushed into
/// the map's aggregate visible/revealed bitmaps. Other entities' sight only
/// gates themselves and never touches the shared map state.
#[verifier::loop_isolation(false)]
pub fn update_all_fov(registry: &mut Registry, map: &mut GridMap, source: EntityId)
    requires
        old(registry).wf(),
        old(map).wf(),
        forall|k: int|
            0 <= k < old(registry).slots@.len() && (#[trigger] old(registry).slots@[k]).record
                is Some && old(registry).slots@[k].record->Some_0.fov is Some ==> old(
                registry,
            ).slots@[k].record->Some_0.fov->Some_0.wf(),
    ensures
        final(registry).wf(),
        final(map).wf(),
        final(map).width == old(map).width,
        final(map).height == old(map).height,
        final(map).tiles@ == old(map).tiles@,
        final(registry).slots@.len() == old(registry).slots@.len(),
        forall|k: int|
            0 <= k < final(registry).slots@.len() ==> spec_refreshed(
                old(registry).slots@[k],
                #[trigger] final(registry).slots@[k],
                *old(map),
            ),
        !spec_source_feeds(old(registry).slots@, source) ==> *final(map) == *old(map),
        spec_source_feeds(old(registry).slots@, source) ==> {
            let rec = crate::registry::spec_record_slots(old(registry).slots@, source);
            &&& forall|xx: int, yy: int|
                final(map).spec_in_bounds(xx, yy) ==> final(map).visible_tiles@[final(map).spec_idx(
                    xx,
                    yy,
                )] == spec_fov_contains(
                    *old(map),
                    rec.position->Some_0.x as int,
                    rec.position->Some_0.y as int,
                    rec.fov->Some_0.range as int,
                    xx,
                    yy,
                )
            &&& forall|i: int|
                0 <= i < final(map).spec_size() ==> final(map).revealed_tiles@[i] == (old(
                    map,
                ).revealed_tiles@[i] || final(map).visible_tiles@[i])
        },
{
    let n = registry.slot_count();
    let mut i: usize = 0;
    while i < n
        invariant
            registry.wf(),
            map.wf(),
            map.width == old(map).width,
            map.height == old(map).height,
            map.tiles@ == old(map).tiles@,
            i <= n,
            registry.slots@.len() == n,
            forall|k: int|
                i <= k < n ==> #[trigger] registry.slots@[k] == old(registry).slots@[k],
            forall|k: int|
                0 <= k < i ==> spec_refreshed(
                    old(registry).slots@[k],
                    #[trigger] registry.slots@[k],
                    *old(map),
                ),
            (!spec_source_feeds(old(registry).slots@, source) || source.index >= i) ==> *map
                == *old(map),
            spec_source_feeds(old(registry).slots@, source) && source.index < i ==> {
                let rec = crate::registry::spec_record_slots(old(registry).slots@, source);
                &&& forall|xx: int, yy: int|
                    map.spec_in_bounds(xx, yy) ==> map.visible_tiles@[map.spec_idx(xx, yy)]
                        == spec_fov_contains(
                        *old(map),
                        rec.position->Some_0.x as int,
                        rec.position->Some_0.y as int,
                        rec.fov->Some_0.range as int,
                        xx,
                        yy,
                    )
                &&& forall|j: int|
                    0 <= j < map.spec_size() ==> map.revealed_tiles@[j] == (old(
                        map,
                    ).revealed_tiles@[j] || map.visible_tiles@[j])
            },
        decreases n - i,
    {
        let generation = registry.slots[i].generation;
        let id = EntityId { index: i, generation };
        let ghost pre_reg = *registry;
        let ghost pre_map = *map;
        let is_source = id == source;
        refresh_entity_fov(registry, id, map, is_source);
        proof {
            assert forall|k: int| 0 <= k < i + 1 implies spec_refreshed(
                old(registry).slots@[k],
                #[trigger] registry.slots@[k],
                *old(map),
            ) by {
                if k < i {
                    assert(registry.slots@[k] == pre_reg.slots@[k]);
                } else {
                    assert(pre_reg.slots@[k] == old(registry).slots@[k]);
                    if pre_reg.spec_live(id) && pre_reg.spec_record(id).position is Some
                        && pre_reg.spec_record(id).fov is Some {
                        assert(registry.spec_live(id));
                        assert(registry.slots@[i as int].record == Some(
                            registry.spec_record(id),
                        ));
                        let orec = pre_reg.spec_record(id);
                        let pos0 = orec.position->Some_0;
                        let f = orec.fov->Some_0;
                        if f.is_dirty {
                            let nf = registry.spec_record(id).fov->Some_0;
                            assert(nf.spec_current(pre_map, pos0));
                            crate::fov::lemma_fov_contains_insensitive(pre_map, *old(map));
                            assert forall|p: Position|
                                nf.visible_tiles@.contains(p) <==> spec_fov_contains(
                                    *old(map),
                                    pos0.x as int,
                                    pos0.y as int,
                                    nf.range as int,
                                    p.x as int,
                                    p.y as int,
                                ) by {
                                assert(nf.visible_tiles@.contains(p) <==> spec_fov_contains(
                                    pre_map,
                                    pos0.x as int,
                                    pos0.y as int,
                                    nf.range as int,
                                    p.x as int,
                                    p.y as int,
                                ));
                            }
                            assert(nf.spec_current(*old(map), pos0));
                        }
                    } else {
                        assert(*registry == pre_reg);
                    }
                }
            }
            if spec_source_feeds(old(registry).slots@, source) && source.index < i + 1 {
                if source.index < i {
                    assert(*map == pre_map);
                } else {
                    assert(source.index == i);
                    assert(pre_reg.slots@[i as int] == old(registry).slots@[i as int]);
                    assert(pre_reg.spec_live(source));
                    assert(is_source);
                    assert(pre_map == *old(map));
                }
            }
        }
        i = i + 1;
    }
}

} // verus!
