//! The visibility engine: for an origin and an integer radius, the exact set
//! of in-bounds tiles with an unobstructed line of sight, using the map's
//! opacity as the sole blocker.
//!
//! A target is seen when no opaque tile lies strictly between it and the
//! origin on the line joining them. The line is sampled at
//! `n = max(|dx|, |dy|)` even steps; each step covers, per coordinate, every
//! integer within half a cell of the exact crossing point, so an exact
//! half-cell crossing covers both neighbouring cells. That set of cells is
//! the same read from either end of the line — sight is symmetric, with no
//! directional bias — which `lemma_sees_symmetric` proves. The origin tile
//! is always a member of its own result whenever it is in bounds, opaque or
//! not.

use vstd::prelude::*;
use vstd::arithmetic::div_mod::{
    lemma_fundamental_div_mod,
    lemma_fundamental_div_mod_converse,
};

use crate::grid_map::GridMap;
use crate::position::Position;

verus! {

/// Squared Euclidean distance between two cells.
pub open spec fn spec_dist2(ax: int, ay: int, bx: int, by: int) -> int {
    (bx - ax) * (bx - ax) + (by - ay) * (by - ay)
}

/// Number of sampling steps of the line between two cells.
pub open spec fn spec_line_steps(ox: int, oy: int, tx: int, ty: int) -> int {
    let adx = if tx >= ox { tx - ox } else { ox - tx };
    let ady = if ty >= oy { ty - oy } else { oy - ty };
    if adx >= ady { adx } else { ady }
}

/// Whether integer `k` lies within half a cell of the exact quotient
/// `p / q`: the cells a line step covers in one coordinate. An exact
/// half-cell crossing has two such integers, every other point one.
pub open spec fn spec_is_candidate(p: int, q: int, k: int) -> bool {
    -q <= 2 * (p - k * q) <= q
}

/// Whether the cell at offsets `(kx, ky)` from the origin both lies within
/// half a cell of step `i`'s exact position and blocks sight.
pub open spec fn spec_blocking_cell(
    m: GridMap,
    ox: int,
    oy: int,
    tx: int,
    ty: int,
    i: int,
    kx: int,
    ky: int,
) -> bool {
    let n = spec_line_steps(ox, oy, tx, ty);
    &&& spec_is_candidate(i * (tx - ox), n, kx)
    &&& spec_is_candidate(i * (ty - oy), n, ky)
    &&& m.spec_opaque(ox + kx, oy + ky)
}

/// Whether step `i` of the line from origin to target crosses an opaque
/// cell: some cell within half a cell of the step's exact position, in both
/// coordinates, blocks sight.
pub open spec fn spec_step_blocked(
    m: GridMap,
    ox: int,
    oy: int,
    tx: int,
    ty: int,
    i: int,
) -> bool {
    exists|kx: int, ky: int| spec_blocking_cell(m, ox, oy, tx, ty, i, kx, ky)
}

/// Unobstructed sight from origin to target: no step strictly between them
/// crosses an opaque cell. A cell next to the origin, and the origin
/// itself, are always seen; the target's own terrain never blocks it.
pub open spec fn spec_sees(m: GridMap, ox: int, oy: int, tx: int, ty: int) -> bool {
    forall|i: int|
        0 < i < spec_line_steps(ox, oy, tx, ty) ==> !spec_step_blocked(m, ox, oy, tx, ty, i)
}

/// Membership in the field of view: in bounds, within the radius by squared
/// Euclidean distance, and seen.
pub open spec fn spec_fov_contains(
    m: GridMap,
    ox: int,
    oy: int,
    range: int,
    tx: int,
    ty: int,
) -> bool {
    &&& m.spec_in_bounds(tx, ty)
    &&& spec_dist2(ox, oy, tx, ty) <= range * range
    &&& spec_sees(m, ox, oy, tx, ty)
}

/// Scan order of the row-major sweep that builds the result.
pub open spec fn spec_scan_idx(m: GridMap, xx: int, yy: int) -> int {
    yy * m.width + xx
}

/// The candidates of `p / q` are exactly the integers from
/// `-((q - 2p) / (2q))` through `(2p + q) / (2q)`, and that bracket holds
/// one or two integers.
proof fn lemma_candidate_bracket(p: int, q: int)
    requires
        0 < q,
    ensures
        forall|k: int|
            spec_is_candidate(p, q, k) <==> (-((q - 2 * p) / (2 * q)) <= k <= (2 * p + q) / (2
                * q)),
        -((q - 2 * p) / (2 * q)) <= (2 * p + q) / (2 * q) <= -((q - 2 * p) / (2 * q)) + 1,
{
    let khi = (2 * p + q) / (2 * q);
    let f = (q - 2 * p) / (2 * q);
    lemma_fundamental_div_mod(2 * p + q, 2 * q);
    lemma_fundamental_div_mod(q - 2 * p, 2 * q);
    let r1 = (2 * p + q) % (2 * q);
    let r2 = (q - 2 * p) % (2 * q);
    assert forall|k: int|
        spec_is_candidate(p, q, k) <==> (-f <= k <= khi) by {
        assert((spec_is_candidate(p, q, k) <==> (-f <= k <= khi))) by (nonlinear_arith)
            requires
                0 < q,
                2 * p + q == 2 * q * khi + r1,
                0 <= r1 < 2 * q,
                q - 2 * p == 2 * q * f + r2,
                0 <= r2 < 2 * q,
                spec_is_candidate(p, q, k) == (-q <= 2 * (p - k * q) <= q);
    }
    assert(-f <= khi <= -f + 1) by (nonlinear_arith)
        requires
            0 < q,
            2 * p + q == 2 * q * khi + r1,
            0 <= r1 < 2 * q,
            q - 2 * p == 2 * q * f + r2,
            0 <= r2 < 2 * q;
}

/// A candidate of a step that stays between the endpoints stays between
/// the endpoint offsets.
proof fn lemma_candidate_within(p: int, q: int, d: int)
    requires
        0 < q,
        d >= 0 ==> 0 <= p <= q * d,
        d < 0 ==> q * d <= p <= 0,
    ensures
        forall|k: int|
            spec_is_candidate(p, q, k) ==> (if d >= 0 {
                0 <= k <= d
            } else {
                d <= k <= 0
            }),
{
    assert forall|k: int|
        spec_is_candidate(p, q, k) implies (if d >= 0 {
        0 <= k <= d
    } else {
        d <= k <= 0
    }) by {
        assert((if d >= 0 { 0 <= k <= d } else { d <= k <= 0 })) by (nonlinear_arith)
            requires
                0 < q,
                d >= 0 ==> 0 <= p <= q * d,
                d < 0 ==> q * d <= p <= 0,
                -q <= 2 * (p - k * q) <= q;
    }
}

/// Sight has no directional bias: the cells a line's steps cover are the
/// same read from either end, so two tiles always see each other or hide
/// from each other together.
pub proof fn lemma_sees_symmetric(m: GridMap, ox: int, oy: int, tx: int, ty: int)
    ensures
        spec_sees(m, ox, oy, tx, ty) == spec_sees(m, tx, ty, ox, oy),
{
    let n = spec_line_steps(ox, oy, tx, ty);
    assert(spec_line_steps(tx, ty, ox, oy) == n);
    let dx = tx - ox;
    let dy = ty - oy;
    assert forall|i: int|
        0 < i < n implies (spec_step_blocked(m, ox, oy, tx, ty, i) == spec_step_blocked(
        m,
        tx,
        ty,
        ox,
        oy,
        n - i,
    )) by {
        if spec_step_blocked(m, ox, oy, tx, ty, i) {
            let (kx, ky) = choose|kx: int, ky: int|
                spec_blocking_cell(m, ox, oy, tx, ty, i, kx, ky);
            assert(spec_is_candidate((n - i) * (ox - tx), n, kx - dx)) by (nonlinear_arith)
                requires
                    -n <= 2 * (i * dx - kx * n) <= n,
                    dx == tx - ox;
            assert(spec_is_candidate((n - i) * (oy - ty), n, ky - dy)) by (nonlinear_arith)
                requires
                    -n <= 2 * (i * dy - ky * n) <= n,
                    dy == ty - oy;
            assert(m.spec_opaque(tx + (kx - dx), ty + (ky - dy)));
            assert(spec_blocking_cell(m, tx, ty, ox, oy, n - i, kx - dx, ky - dy));
            assert(spec_step_blocked(m, tx, ty, ox, oy, n - i));
        }
        if spec_step_blocked(m, tx, ty, ox, oy, n - i) {
            let j = n - i;
            let (kx, ky) = choose|kx: int, ky: int|
                spec_blocking_cell(m, tx, ty, ox, oy, j, kx, ky);
            assert(spec_blocking_cell(m, tx, ty, ox, oy, n - i, kx, ky));
            assert(spec_is_candidate(i * dx, n, kx + dx)) by (nonlinear_arith)
                requires
                    -n <= 2 * ((n - i) * (ox - tx) - kx * n) <= n,
                    dx == tx - ox;
            assert(spec_is_candidate(i * dy, n, ky + dy)) by (nonlinear_arith)
                requires
                    -n <= 2 * ((n - i) * (oy - ty) - ky * n) <= n,
                    dy == ty - oy;
            assert(m.spec_opaque(ox + (kx + dx), oy + (ky + dy)));
            assert(spec_blocking_cell(m, ox, oy, tx, ty, i, kx + dx, ky + dy));
            assert(spec_step_blocked(m, ox, oy, tx, ty, i));
        }
    }
    if spec_sees(m, ox, oy, tx, ty) {
        assert forall|j: int| 0 < j < n implies !spec_step_blocked(m, tx, ty, ox, oy, j) by {
            assert(!spec_step_blocked(m, ox, oy, tx, ty, n - j));
        }
    }
    if spec_sees(m, tx, ty, ox, oy) {
        assert forall|j: int| 0 < j < n implies !spec_step_blocked(m, ox, oy, tx, ty, j) by {
            assert(!spec_step_blocked(m, tx, ty, ox, oy, n - j));
        }
    }
}

/// Mutual visibility of two in-bounds tiles within range is symmetric.
pub proof fn lemma_fov_symmetric(m: GridMap, ox: int, oy: int, range: int, tx: int, ty: int)
    requires
        m.spec_in_bounds(ox, oy),
        m.spec_in_bounds(tx, ty),
    ensures
        spec_fov_contains(m, ox, oy, range, tx, ty) == spec_fov_contains(
            m,
            tx,
            ty,
            range,
            ox,
            oy,
        ),
{
    lemma_sees_symmetric(m, ox, oy, tx, ty);
    assert(spec_dist2(ox, oy, tx, ty) == spec_dist2(tx, ty, ox, oy)) by (nonlinear_arith);
}

/// Floor division by a positive divisor.
fn div_floor_i64(a: i64, b: i64) -> (r: i64)
    requires
        0 < b <= 0x4000_0000_0000,
        -0x4000_0000_0000 <= a <= 0x4000_0000_0000,
    ensures
        r == a as int / b as int,
{
    if a >= 0 {
        let q = (a as u64) / (b as u64);
        q as i64
    } else {
        let m = (((-a) as u64) + (b as u64) - 1) / (b as u64);
        proof {
            let mi = m as int;
            let s = (-a + b - 1) - mi * b;
            assert(-a + b - 1 == mi * b + s && 0 <= s < b) by {
                lemma_fundamental_div_mod(-a as int + b as int - 1, b as int);
            }
            assert(a as int == (-mi) * (b as int) + (b - 1 - s)) by (nonlinear_arith)
                requires
                    -a + b - 1 == mi * b + s;
            lemma_fundamental_div_mod_converse(a as int, b as int, -mi, b - 1 - s);
        }
        -(m as i64)
    }
}

/// Whether no opaque cell blocks any step strictly between origin and
/// target on the sampled line. Out-of-bounds cells count as opaque.
fn line_clear(map: &GridMap, ox: i32, oy: i32, tx: i32, ty: i32) -> (r: bool)
    requires
        map.wf(),
        -46340 <= tx as int - ox as int <= 46340,
        -46340 <= ty as int - oy as int <= 46340,
    ensures
        r == spec_sees(*map, ox as int, oy as int, tx as int, ty as int),
{
    let dx: i64 = tx as i64 - ox as i64;
    let dy: i64 = ty as i64 - oy as i64;
    let adx: i64 = if dx < 0 {
        -dx
    } else {
        dx
    };
    let ady: i64 = if dy < 0 {
        -dy
    } else {
        dy
    };
    let n: i64 = if adx >= ady {
        adx
    } else {
        ady
    };
    assert(n == spec_line_steps(ox as int, oy as int, tx as int, ty as int));
    let mut i: i64 = 1;
    while i < n
        invariant
            map.wf(),
            1 <= i,
            n <= 46340,
            n == spec_line_steps(ox as int, oy as int, tx as int, ty as int),
            dx == tx as int - ox as int,
            dy == ty as int - oy as int,
            -46340 <= dx <= 46340,
            -46340 <= dy <= 46340,
            i <= n || n < 1,
            forall|j: int|
                0 < j < i ==> !spec_step_blocked(
                    *map,
                    ox as int,
                    oy as int,
                    tx as int,
                    ty as int,
                    j,
                ),
        decreases n - i,
    {
        proof {
            assert(-2147488281 <= i * dx <= 2147488281 && (dx >= 0 ==> 0 <= i * dx <= n * dx) && (
            dx < 0 ==> n * dx <= i * dx <= 0)) by (nonlinear_arith)
                requires
                    1 <= i <= n <= 46340,
                    -46340 <= dx <= 46340;
            assert(-2147488281 <= i * dy <= 2147488281 && (dy >= 0 ==> 0 <= i * dy <= n * dy) && (
            dy < 0 ==> n * dy <= i * dy <= 0)) by (nonlinear_arith)
                requires
                    1 <= i <= n <= 46340,
                    -46340 <= dy <= 46340;
        }
        let px: i64 = i * dx;
        let py: i64 = i * dy;
        proof {
            lemma_candidate_bracket(px as int, n as int);
            lemma_candidate_bracket(py as int, n as int);
            lemma_candidate_within(px as int, n as int, dx as int);
            lemma_candidate_within(py as int, n as int, dy as int);
        }
        let khix = div_floor_i64(2 * px + n, 2 * n);
        let klox = -div_floor_i64(n - 2 * px, 2 * n);
        let khiy = div_floor_i64(2 * py + n, 2 * n);
        let kloy = -div_floor_i64(n - 2 * py, 2 * n);
        assert(spec_is_candidate(px as int, n as int, klox as int));
        assert(spec_is_candidate(px as int, n as int, khix as int));
        assert(spec_is_candidate(py as int, n as int, kloy as int));
        assert(spec_is_candidate(py as int, n as int, khiy as int));
        let blocked = map.is_opaque_at((ox as i64 + klox) as i32, (oy as i64 + kloy) as i32)
            || map.is_opaque_at((ox as i64 + klox) as i32, (oy as i64 + khiy) as i32)
            || map.is_opaque_at((ox as i64 + khix) as i32, (oy as i64 + kloy) as i32)
            || map.is_opaque_at((ox as i64 + khix) as i32, (oy as i64 + khiy) as i32);
        proof {
            if spec_step_blocked(*map, ox as int, oy as int, tx as int, ty as int, i as int) {
                let (kx, ky) = choose|kx: int, ky: int|
                    spec_blocking_cell(
                        *map,
                        ox as int,
                        oy as int,
                        tx as int,
                        ty as int,
                        i as int,
                        kx,
                        ky,
                    );
                assert(kx == klox || kx == khix);
                assert(ky == kloy || ky == khiy);
                assert(blocked);
            }
        }
        if blocked {
            proof {
                if map.spec_opaque(ox + klox, oy + kloy) {
                    assert(spec_blocking_cell(
                        *map, ox as int, oy as int, tx as int, ty as int, i as int,
                        klox as int, kloy as int,
                    ));
                } else if map.spec_opaque(ox + klox, oy + khiy) {
                    assert(spec_blocking_cell(
                        *map, ox as int, oy as int, tx as int, ty as int, i as int,
                        klox as int, khiy as int,
                    ));
                } else if map.spec_opaque(ox + khix, oy + kloy) {
                    assert(spec_blocking_cell(
                        *map, ox as int, oy as int, tx as int, ty as int, i as int,
                        khix as int, kloy as int,
                    ));
                } else {
                    assert(spec_blocking_cell(
                        *map, ox as int, oy as int, tx as int, ty as int, i as int,
                        khix as int, khiy as int,
                    ));
                }
                assert(spec_step_blocked(*map, ox as int, oy as int, tx as int, ty as int, i as int));
            }
            return false;
        }
        i = i + 1;
    }
    true
}

/// The set of tiles visible from `origin` within `range`, as a list in
/// row-major scan order without duplicates: exactly the in-bounds tiles
/// within squared Euclidean distance `range * range` whose line from the
/// origin crosses no opaque cell. Recomputing with the same origin, range
/// and map yields the identical list.
pub fn compute_fov(origin: Position, range: i32, map: &GridMap) -> (r: Vec<Position>)
    requires
        map.wf(),
        0 <= range <= 46340,
    ensures
        forall|p: Position|
            r@.contains(p) <==> spec_fov_contains(
                *map,
                origin.x as int,
                origin.y as int,
                range as int,
                p.x as int,
                p.y as int,
            ),
        forall|k1: int, k2: int|
            0 <= k1 < k2 < r@.len() ==> spec_scan_idx(*map, r@[k1].x as int, r@[k1].y as int)
                < spec_scan_idx(*map, r@[k2].x as int, r@[k2].y as int),
        forall|k1: int, k2: int| 0 <= k1 < k2 < r@.len() ==> r@[k1] != r@[k2],
    {
    let ghost ox: int = origin.x as int;
    let ghost oy: int = origin.y as int;
    let mut result: Vec<Position> = Vec::new();
    let mut ty: i32 = 0;
    while ty < map.height
        invariant
            map.wf(),
            0 <= ty <= map.height,
            0 <= range <= 46340,
            ox == origin.x as int,
            oy == origin.y as int,
            forall|k: int|
                0 <= k < result@.len() ==> spec_fov_contains(
                    *map,
                    ox,
                    oy,
                    range as int,
                    result@[k].x as int,
                    result@[k].y as int,
                ),
            forall|k: int|
                0 <= k < result@.len() ==> spec_scan_idx(
                    *map,
                    result@[k].x as int,
                    result@[k].y as int,
                ) < ty * map.width,
            forall|k1: int, k2: int|
                0 <= k1 < k2 < result@.len() ==> spec_scan_idx(
                    *map,
                    result@[k1].x as int,
                    result@[k1].y as int,
                ) < spec_scan_idx(*map, result@[k2].x as int, result@[k2].y as int),
            forall|p: Position|
                map.spec_in_bounds(p.x as int, p.y as int) && p.y < ty && spec_fov_contains(
                    *map,
                    ox,
                    oy,
                    range as int,
                    p.x as int,
                    p.y as int,
                ) ==> result@.contains(p),
        decreases map.height - ty,
    {
        let mut tx: i32 = 0;
        while tx < map.width
            invariant
                map.wf(),
                0 <= ty < map.height,
                0 <= tx <= map.width,
                0 <= range <= 46340,
                ox == origin.x as int,
                oy == origin.y as int,
                forall|k: int|
                    0 <= k < result@.len() ==> spec_fov_contains(
                        *map,
                        ox,
                        oy,
                        range as int,
                        result@[k].x as int,
                        result@[k].y as int,
                    ),
                forall|k: int|
                    0 <= k < result@.len() ==> spec_scan_idx(
                        *map,
                        result@[k].x as int,
                        result@[k].y as int,
                    ) < ty * map.width + tx,
                forall|k1: int, k2: int|
                    0 <= k1 < k2 < result@.len() ==> spec_scan_idx(
                        *map,
                        result@[k1].x as int,
                        result@[k1].y as int,
                    ) < spec_scan_idx(*map, result@[k2].x as int, result@[k2].y as int),
                forall|p: Position|
                    map.spec_in_bounds(p.x as int, p.y as int) && (p.y < ty || (p.y == ty && p.x
                        < tx)) && spec_fov_contains(
                        *map,
                        ox,
                        oy,
                        range as int,
                        p.x as int,
                        p.y as int,
                    ) ==> result@.contains(p),
            decreases map.width - tx,
        {
            let dx: i64 = tx as i64 - origin.x as i64;
            let dy: i64 = ty as i64 - origin.y as i64;
            let adx: i64 = if dx < 0 {
                -dx
            } else {
                dx
            };
            let ady: i64 = if dy < 0 {
                -dy
            } else {
                dy
            };
            let within: bool;
            if adx <= range as i64 && ady <= range as i64 {
                proof {
                    assert(0 <= dx * dx <= 46340 * 46340 && 0 <= dy * dy <= 46340 * 46340)
                        by (nonlinear_arith)
                        requires
                            -46340 <= dx <= 46340,
                            -46340 <= dy <= 46340;
                    assert(0 <= range as int * range as int <= 46340 * 46340)
                        by (nonlinear_arith)
                        requires
                            0 <= range as int <= 46340;
                }
                within = dx * dx + dy * dy <= range as i64 * range as i64;
                assert(spec_dist2(ox, oy, tx as int, ty as int) == dx * dx + dy * dy);
            } else {
                within = false;
                proof {
                    assert(dx * dx + dy * dy > range as int * range as int) by (nonlinear_arith)
                        requires
                            adx == (if dx < 0 { -(dx as int) } else { dx as int }),
                            0 <= adx,
                            ady == (if dy < 0 { -(dy as int) } else { dy as int }),
                            0 <= ady,
                            0 <= range as int,
                            adx > range as int || ady > range as int;
                    assert(spec_dist2(ox, oy, tx as int, ty as int) == dx * dx + dy * dy);
                }
            }
            assert(within == (spec_dist2(ox, oy, tx as int, ty as int) <= range as int
                * range as int));
            if within {
                if line_clear(map, origin.x, origin.y, tx, ty) {
                    let ghost before = result@;
                    result.push(Position { x: tx, y: ty });
                    proof {
                        assert(result@ == before.push(Position { x: tx, y: ty }));
                        map.lemma_idx_in_range(tx as int, ty as int);
                        assert forall|p: Position|
                            map.spec_in_bounds(p.x as int, p.y as int) && (p.y < ty || (p.y == ty
                                && p.x < tx + 1)) && spec_fov_contains(
                                *map,
                                ox,
                                oy,
                                range as int,
                                p.x as int,
                                p.y as int,
                            ) implies result@.contains(p) by {
                            if p.x == tx && p.y == ty {
                                assert(result@[result@.len() - 1] == p);
                            } else {
                                assert(before.contains(p));
                                let k = choose|k: int| 0 <= k < before.len() && before[k] == p;
                                assert(result@[k] == p);
                            }
                        }
                    }
                } else {
                    proof {
                        assert forall|p: Position|
                            map.spec_in_bounds(p.x as int, p.y as int) && (p.y < ty || (p.y == ty
                                && p.x < tx + 1)) && spec_fov_contains(
                                *map,
                                ox,
                                oy,
                                range as int,
                                p.x as int,
                                p.y as int,
                            ) implies result@.contains(p) by {
                            assert(!(p.x == tx && p.y == ty));
                        }
                    }
                }
            }
            tx = tx + 1;
        }
        proof {
            assert(ty * map.width + map.width == (ty + 1) * map.width) by (nonlinear_arith);
            assert forall|p: Position|
                map.spec_in_bounds(p.x as int, p.y as int) && p.y < ty + 1 && spec_fov_contains(
                    *map,
                    ox,
                    oy,
                    range as int,
                    p.x as int,
                    p.y as int,
                ) implies result@.contains(p) by {}
        }
        ty = ty + 1;
    }
    proof {
        assert forall|p: Position|
            result@.contains(p) implies spec_fov_contains(
            *map,
            ox,
            oy,
            range as int,
            p.x as int,
            p.y as int,
        ) by {
            let k = choose|k: int| 0 <= k < result@.len() && result@[k] == p;
        }
        assert forall|k1: int, k2: int| 0 <= k1 < k2 < result@.len() implies result@[k1]
            != result@[k2] by {}
    }
    result
}


/// Visibility depends only on the grid's dimensions and terrain: two maps
/// that agree on those agree on every field-of-view membership, whatever
/// their revealed/visible bitmaps hold.
pub proof fn lemma_fov_contains_insensitive(m1: GridMap, m2: GridMap)
    requires
        m1.width == m2.width,
        m1.height == m2.height,
        m1.tiles@ == m2.tiles@,
    ensures
        forall|ox: int, oy: int, range: int, tx: int, ty: int|
            #[trigger] spec_fov_contains(m2, ox, oy, range, tx, ty) == spec_fov_contains(
                m1,
                ox,
                oy,
                range,
                tx,
                ty,
            ),
{
    assert forall|x: int, y: int| m1.spec_opaque(x, y) == m2.spec_opaque(x, y) by {}
    assert forall|ox: int, oy: int, range: int, tx: int, ty: int|
        #[trigger] spec_fov_contains(m2, ox, oy, range, tx, ty) == spec_fov_contains(
        m1,
        ox,
        oy,
        range,
        tx,
        ty,
    ) by {
        assert forall|i: int|
            0 < i < spec_line_steps(ox, oy, tx, ty) implies (spec_step_blocked(
            m1,
            ox,
            oy,
            tx,
            ty,
            i,
        ) == spec_step_blocked(m2, ox, oy, tx, ty, i)) by {
            if spec_step_blocked(m1, ox, oy, tx, ty, i) {
                let (kx, ky) = choose|kx: int, ky: int|
                    spec_blocking_cell(m1, ox, oy, tx, ty, i, kx, ky);
                assert(spec_blocking_cell(m2, ox, oy, tx, ty, i, kx, ky));
            }
            if spec_step_blocked(m2, ox, oy, tx, ty, i) {
                let (kx, ky) = choose|kx: int, ky: int|
                    spec_blocking_cell(m2, ox, oy, tx, ty, i, kx, ky);
                assert(spec_blocking_cell(m1, ox, oy, tx, ty, i, kx, ky));
            }
        }
        assert(spec_sees(m1, ox, oy, tx, ty) == spec_sees(m2, ox, oy, tx, ty));
    }
}

/// The origin tile is always in its own field of view when it lies in
/// bounds and the radius is not negative, whatever its terrain.
pub proof fn lemma_fov_contains_origin(m: GridMap, ox: int, oy: int, range: int)
    requires
        m.wf(),
        m.spec_in_bounds(ox, oy),
        0 <= range,
    ensures
        spec_fov_contains(m, ox, oy, range, ox, oy),
{
    assert(spec_dist2(ox, oy, ox, oy) == 0);
    assert(0 <= range * range) by (nonlinear_arith)
        requires 0 <= range;
    assert(spec_line_steps(ox, oy, ox, oy) == 0);
}

/// The field of view is a function of origin, range and map alone: any two
/// lists whose membership matches the visibility predicate hold the same
/// set of positions.
pub proof fn lemma_fov_deterministic(
    m: GridMap,
    ox: int,
    oy: int,
    range: int,
    r1: Seq<Position>,
    r2: Seq<Position>,
)
    requires
        forall|p: Position|
            r1.contains(p) <==> spec_fov_contains(m, ox, oy, range, p.x as int, p.y as int),
        forall|p: Position|
            r2.contains(p) <==> spec_fov_contains(m, ox, oy, range, p.x as int, p.y as int),
    ensures
        r1.to_set() == r2.to_set(),
{
    assert forall|p: Position| r1.to_set().contains(p) implies r2.to_set().contains(p) by {
        assert(r1.contains(p));
        assert(r2.contains(p));
    }
    assert forall|p: Position| r2.to_set().contains(p) implies r1.to_set().contains(p) by {
        assert(r2.contains(p));
        assert(r1.contains(p));
    }
    assert(r1.to_set() =~= r2.to_set());
}

} // verus!
