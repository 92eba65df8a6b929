//! Walkable paths over a map: the notion of connectivity that the dungeon
//! generator's corridors establish between room centers, and the lemmas that
//! carry it through further carving.

use vstd::prelude::*;

use crate::grid_map::GridMap;

verus! {

/// Two cells share an edge (four-directional adjacency).
pub open spec fn spec_adjacent(a: (int, int), b: (int, int)) -> bool {
    ||| (a.0 == b.0 && (a.1 == b.1 + 1 || a.1 == b.1 - 1))
    ||| (a.1 == b.1 && (a.0 == b.0 + 1 || a.0 == b.0 - 1))
}

/// A nonempty chain of in-bounds walkable cells, each step moving to an
/// edge-adjacent cell.
pub open spec fn spec_is_walkable_path(m: GridMap, path: Seq<(int, int)>) -> bool {
    &&& path.len() >= 1
    &&& forall|k: int|
        0 <= k < path.len() ==> m.spec_in_bounds(#[trigger] path[k].0, path[k].1)
            && m.spec_tile(path[k].0, path[k].1).spec_is_walkable()
    &&& forall|k: int| 0 <= k < path.len() - 1 ==> spec_adjacent(#[trigger] path[k], path[k + 1])
}

/// A walkable path joins the two cells.
pub open spec fn spec_connected(m: GridMap, a: (int, int), b: (int, int)) -> bool {
    exists|path: Seq<(int, int)>|
        spec_is_walkable_path(m, path) && path.first() == a && path.last() == b
}

/// Carving never severs a path: a map with the same dimensions that keeps
/// every walkable cell walkable keeps every walkable path intact.
pub proof fn lemma_path_still_walkable(m1: GridMap, m2: GridMap, path: Seq<(int, int)>)
    requires
        spec_is_walkable_path(m1, path),
        m1.width == m2.width,
        m1.height == m2.height,
        forall|x: int, y: int|
            m1.spec_in_bounds(x, y) && m1.spec_tile(x, y).spec_is_walkable()
                ==> #[trigger] m2.spec_tile(x, y).spec_is_walkable(),
    ensures
        spec_is_walkable_path(m2, path),
{
    assert forall|k: int| 0 <= k < path.len() implies m2.spec_in_bounds(
        #[trigger] path[k].0,
        path[k].1,
    ) && m2.spec_tile(path[k].0, path[k].1).spec_is_walkable() by {
        assert(m1.spec_in_bounds(path[k].0, path[k].1));
        assert(m1.spec_tile(path[k].0, path[k].1).spec_is_walkable());
    }
}

/// Connectivity survives any carving that keeps walkable cells walkable.
pub proof fn lemma_connected_still_connected(
    m1: GridMap,
    m2: GridMap,
    a: (int, int),
    b: (int, int),
)
    requires
        spec_connected(m1, a, b),
        m1.width == m2.width,
        m1.height == m2.height,
        forall|x: int, y: int|
            m1.spec_in_bounds(x, y) && m1.spec_tile(x, y).spec_is_walkable()
                ==> #[trigger] m2.spec_tile(x, y).spec_is_walkable(),
    ensures
        spec_connected(m2, a, b),
{
    let path = choose|path: Seq<(int, int)>|
        spec_is_walkable_path(m1, path) && path.first() == a && path.last() == b;
    lemma_path_still_walkable(m1, m2, path);
    assert(spec_is_walkable_path(m2, path) && path.first() == a && path.last() == b);
}

/// Connectivity is transitive: chaining the two paths at their shared end
/// yields a path for the whole journey.
pub proof fn lemma_connected_trans(m: GridMap, a: (int, int), b: (int, int), c: (int, int))
    requires
        spec_connected(m, a, b),
        spec_connected(m, b, c),
    ensures
        spec_connected(m, a, c),
{
    let p1 = choose|p: Seq<(int, int)>|
        spec_is_walkable_path(m, p) && p.first() == a && p.last() == b;
    let p2 = choose|p: Seq<(int, int)>|
        spec_is_walkable_path(m, p) && p.first() == b && p.last() == c;
    if p2.len() == 1 {
        assert(spec_is_walkable_path(m, p1) && p1.first() == a && p1.last() == c);
    } else {
        let joined = p1 + p2.subrange(1, p2.len() as int);
        assert(joined.len() == p1.len() + p2.len() - 1);
        assert forall|k: int| 0 <= k < joined.len() implies m.spec_in_bounds(
            #[trigger] joined[k].0,
            joined[k].1,
        ) && m.spec_tile(joined[k].0, joined[k].1).spec_is_walkable() by {
            if k < p1.len() {
                assert(joined[k] == p1[k]);
            } else {
                assert(joined[k] == p2[k - p1.len() + 1]);
            }
        }
        assert forall|k: int| 0 <= k < joined.len() - 1 implies spec_adjacent(
            #[trigger] joined[k],
            joined[k + 1],
        ) by {
            if k + 1 < p1.len() {
                assert(joined[k] == p1[k] && joined[k + 1] == p1[k + 1]);
            } else if k + 1 == p1.len() {
                assert(joined[k] == p1[k] && p1[k] == p1.last());
                assert(joined[k + 1] == p2[1]);
                assert(spec_adjacent(p2[0], p2[1]));
            } else {
                assert(joined[k] == p2[k - p1.len() + 1]);
                assert(joined[k + 1] == p2[k - p1.len() + 2]);
                assert(spec_adjacent(p2[k - p1.len() + 1], p2[k - p1.len() + 2]));
            }
        }
        assert(joined.first() == a);
        assert(joined.last() == p2[p2.len() - 1]);
        assert(spec_is_walkable_path(m, joined) && joined.first() == a && joined.last() == c);
    }
}

/// A run of walkable cells along one row joins its two ends.
pub proof fn lemma_connected_h_segment(m: GridMap, xa: int, xb: int, y: int)
    requires
        forall|x: int|
            (if xa <= xb {
                xa
            } else {
                xb
            }) <= x <= (if xa <= xb {
                xb
            } else {
                xa
            }) ==> m.spec_in_bounds(x, y) && (#[trigger] m.spec_tile(x, y)).spec_is_walkable(),
    ensures
        spec_connected(m, (xa, y), (xb, y)),
{
    if xa <= xb {
        let path = Seq::new((xb - xa + 1) as nat, |k: int| (xa + k, y));
        assert(spec_is_walkable_path(m, path));
        assert(path.first() == (xa, y) && path.last() == (xb, y));
    } else {
        let path = Seq::new((xa - xb + 1) as nat, |k: int| (xa - k, y));
        assert(spec_is_walkable_path(m, path));
        assert(path.first() == (xa, y) && path.last() == (xb, y));
    }
}

/// A run of walkable cells along one column joins its two ends.
pub proof fn lemma_connected_v_segment(m: GridMap, ya: int, yb: int, x: int)
    requires
        forall|y: int|
            (if ya <= yb {
                ya
            } else {
                yb
            }) <= y <= (if ya <= yb {
                yb
            } else {
                ya
            }) ==> m.spec_in_bounds(x, y) && (#[trigger] m.spec_tile(x, y)).spec_is_walkable(),
    ensures
        spec_connected(m, (x, ya), (x, yb)),
{
    if ya <= yb {
        let path = Seq::new((yb - ya + 1) as nat, |k: int| (x, ya + k));
        assert(spec_is_walkable_path(m, path));
        assert(path.first() == (x, ya) && path.last() == (x, yb));
    } else {
        let path = Seq::new((ya - yb + 1) as nat, |k: int| (x, ya - k));
        assert(spec_is_walkable_path(m, path));
        assert(path.first() == (x, ya) && path.last() == (x, yb));
    }
}

} // verus!
