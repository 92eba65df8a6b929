//! The tile grid: terrain per cell plus the map-wide revealed/visible
//! bitmaps, with bounds checks and the walkability/opacity predicates the
//! rest of the core builds on.

use vstd::prelude::*;
use vstd::arithmetic::div_mod::lemma_fundamental_div_mod_converse;

use crate::position::Position;
use crate::terrain::TerrainType;

verus! {

/// A rectangular grid of terrain, row-major (index = y * width + x).
///
/// `revealed_tiles` marks cells ever seen (it only grows within a level);
/// `visible_tiles` marks cells seen in the current snapshot and is fully
/// recomputed each time it changes.
pub struct GridMap {
    pub width: i32,
    pub height: i32,
    pub tiles: Vec<TerrainType>,
    pub revealed_tiles: Vec<bool>,
    pub visible_tiles: Vec<bool>,
}

impl GridMap {
    /// Number of cells.
    pub open spec fn spec_size(self) -> int {
        self.width as int * self.height as int
    }

    /// Well-formedness: positive dimensions, all three per-cell arrays of
    /// the right length, and every visible cell already revealed.
    pub open spec fn wf(self) -> bool {
        &&& 0 < self.width
        &&& 0 < self.height
        &&& self.spec_size() <= i32::MAX as int
        &&& self.tiles@.len() == self.spec_size()
        &&& self.revealed_tiles@.len() == self.spec_size()
        &&& self.visible_tiles@.len() == self.spec_size()
        &&& forall|i: int|
            0 <= i < self.spec_size() && self.visible_tiles@[i] ==> self.revealed_tiles@[i]
    }

    pub open spec fn spec_in_bounds(self, x: int, y: int) -> bool {
        0 <= x < self.width && 0 <= y < self.height
    }

    /// Row-major index of an in-bounds cell.
    pub open spec fn spec_idx(self, x: int, y: int) -> int {
        y * self.width + x
    }

    /// Terrain of an in-bounds cell.
    pub open spec fn spec_tile(self, x: int, y: int) -> TerrainType
        recommends
            self.wf(),
            self.spec_in_bounds(x, y),
    {
        self.tiles@[self.spec_idx(x, y)]
    }

    /// A cell outside the grid counts as blocked, never as an error.
    pub open spec fn spec_blocked(self, x: int, y: int) -> bool {
        !self.spec_in_bounds(x, y) || !self.spec_tile(x, y).spec_is_walkable()
    }

    /// A cell outside the grid counts as opaque.
    pub open spec fn spec_opaque(self, x: int, y: int) -> bool {
        !self.spec_in_bounds(x, y) || self.spec_tile(x, y).spec_is_opaque()
    }

    /// All cells Wall, nothing revealed or visible.
    pub fn new(width: i32, height: i32) -> (r: Self)
        requires
            0 < width,
            0 < height,
            width as int * height as int <= i32::MAX as int,
        ensures
            r.wf(),
            r.width == width,
            r.height == height,
            forall|i: int| 0 <= i < r.spec_size() ==> r.tiles@[i] is Wall,
            forall|i: int| 0 <= i < r.spec_size() ==> !r.revealed_tiles@[i],
            forall|i: int| 0 <= i < r.spec_size() ==> !r.visible_tiles@[i],
    {
        proof {
            assert(0 < width as int * height as int) by (nonlinear_arith)
                requires 0 < width, 0 < height;
        }
        let size = (width * height) as usize;
        let mut tiles: Vec<TerrainType> = Vec::new();
        let mut revealed_tiles: Vec<bool> = Vec::new();
        let mut visible_tiles: Vec<bool> = Vec::new();
        let mut i: usize = 0;
        while i < size
            invariant
                i <= size,
                size == width as int * height as int,
                tiles@.len() == i,
                revealed_tiles@.len() == i,
                visible_tiles@.len() == i,
                forall|j: int| 0 <= j < i ==> tiles@[j] is Wall,
                forall|j: int| 0 <= j < i ==> !revealed_tiles@[j],
                forall|j: int| 0 <= j < i ==> !visible_tiles@[j],
            decreases size - i,
        {
            tiles.push(TerrainType::Wall);
            revealed_tiles.push(false);
            visible_tiles.push(false);
            i = i + 1;
        }
        Self { width, height, tiles, revealed_tiles, visible_tiles }
    }

    pub fn in_bounds(&self, x: i32, y: i32) -> (r: bool)
        ensures
            r == self.spec_in_bounds(x as int, y as int),
    {
        x >= 0 && x < self.width && y >= 0 && y < self.height
    }

    /// Row-major index of an in-bounds cell; always below `width * height`.
    pub fn xy_idx(&self, x: i32, y: i32) -> (r: usize)
        requires
            self.wf(),
            self.spec_in_bounds(x as int, y as int),
        ensures
            r == self.spec_idx(x as int, y as int),
            r < self.spec_size(),
    {
        proof {
            self.lemma_idx_in_range(x as int, y as int);
        }
        (y * self.width + x) as usize
    }

    /// Coordinates of a cell index.
    pub fn idx_xy(&self, idx: usize) -> (r: (i32, i32))
        requires
            self.wf(),
            idx < self.spec_size(),
        ensures
            r.0 == idx as int % self.width as int,
            r.1 == idx as int / self.width as int,
            self.spec_in_bounds(r.0 as int, r.1 as int),
            self.spec_idx(r.0 as int, r.1 as int) == idx,
    {
        let x = (idx as i32) % self.width;
        let y = (idx as i32) / self.width;
        proof {
            assert((idx as int) / (self.width as int) < (self.height as int)) by (nonlinear_arith)
                requires
                    0 < self.width,
                    0 < self.height,
                    (idx as int) < (self.width as int) * (self.height as int);
            assert(self.spec_idx(x as int, y as int) == idx) by {
                vstd::arithmetic::div_mod::lemma_fundamental_div_mod(
                    idx as int,
                    self.width as int,
                );
            }
        }
        (x, y)
    }

    /// Terrain at an in-bounds cell. Callers must bounds-check first.
    pub fn get_tile(&self, x: i32, y: i32) -> (r: TerrainType)
        requires
            self.wf(),
            self.spec_in_bounds(x as int, y as int),
        ensures
            r == self.spec_tile(x as int, y as int),
    {
        let idx = self.xy_idx(x, y);
        self.tiles[idx]
    }

    /// True when the cell is outside the grid or its terrain is not
    /// walkable. Out-of-bounds is blocked, never an error.
    pub fn is_blocked(&self, x: i32, y: i32) -> (r: bool)
        requires
            self.wf(),
        ensures
            r == self.spec_blocked(x as int, y as int),
    {
        if !self.in_bounds(x, y) {
            return true;
        }
        let idx = self.xy_idx(x, y);
        !self.tiles[idx].is_walkable()
    }

    /// True when the cell is outside the grid or its terrain blocks sight.
    /// Out-of-bounds counts as opaque.
    pub fn is_opaque_at(&self, x: i32, y: i32) -> (r: bool)
        requires
            self.wf(),
        ensures
            r == self.spec_opaque(x as int, y as int),
    {
        if !self.in_bounds(x, y) {
            return true;
        }
        let idx = self.xy_idx(x, y);
        self.tiles[idx].is_opaque()
    }

    /// The cell indices of the walkable four-directional neighbors of a
    /// cell, in north, east, south, west order: exactly the exits available
    /// for one step of movement or pathing.
    pub fn get_available_exits(&self, idx: usize) -> (r: Vec<usize>)
        requires
            self.wf(),
            idx < self.spec_size(),
        ensures
            forall|j: int|
                0 <= j < r@.len() ==> #[trigger] r@[j] < self.spec_size(),
            forall|j: int|
                0 <= j < r@.len() ==> {
                    let nx = (#[trigger] r@[j]) as int % self.width as int;
                    let ny = r@[j] as int / self.width as int;
                    &&& self.spec_in_bounds(nx, ny)
                    &&& self.spec_tile(nx, ny).spec_is_walkable()
                    &&& crate::connectivity::spec_adjacent(
                        (nx, ny),
                        (idx as int % self.width as int, idx as int / self.width as int),
                    )
                },
            forall|xx: int, yy: int|
                self.spec_in_bounds(xx, yy) && (#[trigger] self.spec_tile(
                    xx,
                    yy,
                )).spec_is_walkable() && crate::connectivity::spec_adjacent(
                    (xx, yy),
                    (idx as int % self.width as int, idx as int / self.width as int),
                ) ==> r@.contains(self.spec_idx(xx, yy) as usize),
            forall|j1: int, j2: int| 0 <= j1 < j2 < r@.len() ==> r@[j1] != r@[j2],
    {
        let mut exits: Vec<usize> = Vec::new();
        let (x, y) = self.idx_xy(idx);
        let ghost cx = idx as int % self.width as int;
        let ghost cy = idx as int / self.width as int;
        let dirs: [(i32, i32); 4] = [(0, -1), (1, 0), (0, 1), (-1, 0)];
        let mut d: usize = 0;
        while d < 4
            invariant
                self.wf(),
                idx < self.spec_size(),
                d <= 4,
                x == cx,
                y == cy,
                self.spec_in_bounds(cx, cy),
                dirs@ =~= seq![(0i32, -1i32), (1i32, 0i32), (0i32, 1i32), (-1i32, 0i32)],
                forall|j: int|
                    0 <= j < exits@.len() ==> #[trigger] exits@[j] < self.spec_size(),
                forall|j: int|
                    0 <= j < exits@.len() ==> {
                        let nx = (#[trigger] exits@[j]) as int % self.width as int;
                        let ny = exits@[j] as int / self.width as int;
                        &&& self.spec_in_bounds(nx, ny)
                        &&& self.spec_tile(nx, ny).spec_is_walkable()
                        &&& crate::connectivity::spec_adjacent((nx, ny), (cx, cy))
                    },
                forall|xx: int, yy: int|
                    self.spec_in_bounds(xx, yy) && (#[trigger] self.spec_tile(
                        xx,
                        yy,
                    )).spec_is_walkable() && (exists|j: int|
                        0 <= j < d && xx == cx + dirs@[j].0 && yy == cy + dirs@[j].1) ==> exits@
                        .contains(self.spec_idx(xx, yy) as usize),
                forall|j1: int, j2: int| 0 <= j1 < j2 < exits@.len() ==> exits@[j1] != exits@[j2],
                forall|j: int|
                    0 <= j < exits@.len() ==> exists|k: int|
                        0 <= k < d && self.spec_in_bounds(cx + dirs@[k].0, cy + dirs@[k].1) && (
                        #[trigger] exits@[j]) as int == (cy + dirs@[k].1) * self.width + (cx
                            + dirs@[k].0),
            decreases 4 - d,
        {
            let (dx, dy) = dirs[d];
            let nx = x + dx;
            let ny = y + dy;
            let ghost pre_exits = exits@;
            if self.in_bounds(nx, ny) {
                let nidx = self.xy_idx(nx, ny);
                if self.tiles[nidx].is_walkable() {
                    proof {
                        self.lemma_idx_in_range(nx as int, ny as int);
                        assert forall|j: int| 0 <= j < pre_exits.len() implies pre_exits[j]
                            != nidx by {
                            let k = choose|k: int|
                                0 <= k < d && self.spec_in_bounds(cx + dirs@[k].0, cy + dirs@[k].1)
                                    && (#[trigger] pre_exits[j]) as int == (cy + dirs@[k].1)
                                    * self.width + (cx + dirs@[k].0);
                            if pre_exits[j] == nidx {
                                self.lemma_idx_injective(
                                    cx + dirs@[k].0,
                                    cy + dirs@[k].1,
                                    nx as int,
                                    ny as int,
                                );
                            }
                        }
                    }
                    exits.push(nidx);
                    proof {
                        assert(exits@ == pre_exits.push(nidx));
                        assert(nidx as int % self.width as int == nx as int && nidx as int
                            / self.width as int == ny as int) by {
                            lemma_fundamental_div_mod_converse(
                                nidx as int,
                                self.width as int,
                                ny as int,
                                nx as int,
                            );
                        }
                    }
                }
            }
            proof {
                assert forall|xx: int, yy: int|
                    self.spec_in_bounds(xx, yy) && (#[trigger] self.spec_tile(
                        xx,
                        yy,
                    )).spec_is_walkable() && (exists|j: int|
                        0 <= j < d + 1 && xx == cx + dirs@[j].0 && yy == cy + dirs@[j].1)
                    implies exits@.contains(self.spec_idx(xx, yy) as usize) by {
                    let j = choose|j: int|
                        0 <= j < d + 1 && xx == cx + dirs@[j].0 && yy == cy + dirs@[j].1;
                    if j == d {
                        assert(xx == nx as int && yy == ny as int);
                        assert(exits@[exits@.len() - 1] == self.spec_idx(xx, yy) as usize);
                    } else {
                        assert(pre_exits.contains(self.spec_idx(xx, yy) as usize));
                        let k = choose|k: int|
                            0 <= k < pre_exits.len() && pre_exits[k] == self.spec_idx(
                                xx,
                                yy,
                            ) as usize;
                        assert(exits@[k] == self.spec_idx(xx, yy) as usize);
                    }
                }
            }
            d = d + 1;
        }
        proof {
            assert forall|xx: int, yy: int|
                self.spec_in_bounds(xx, yy) && (#[trigger] self.spec_tile(
                    xx,
                    yy,
                )).spec_is_walkable() && crate::connectivity::spec_adjacent((xx, yy), (cx, cy))
                implies exits@.contains(self.spec_idx(xx, yy) as usize) by {
                if xx == cx && yy == cy - 1 {
                    assert((xx, yy) == (cx + dirs@[0].0, cy + dirs@[0].1));
                } else if xx == cx + 1 && yy == cy {
                    assert((xx, yy) == (cx + dirs@[1].0, cy + dirs@[1].1));
                } else if xx == cx && yy == cy + 1 {
                    assert((xx, yy) == (cx + dirs@[2].0, cy + dirs@[2].1));
                } else {
                    assert((xx, yy) == (cx + dirs@[3].0, cy + dirs@[3].1));
                }
            }
        }
        exits
    }

    /// Forget the current visibility snapshot. Revealed cells stay revealed.
    pub fn clear_visibility(&mut self)
        requires
            old(self).wf(),
        ensures
            final(self).wf(),
            final(self).width == old(self).width,
            final(self).height == old(self).height,
            final(self).tiles@ == old(self).tiles@,
            final(self).revealed_tiles@ == old(self).revealed_tiles@,
            final(self).visible_tiles@.len() == old(self).visible_tiles@.len(),
            forall|i: int| 0 <= i < final(self).spec_size() ==> !final(self).visible_tiles@[i],
    {
        let n = self.visible_tiles.len();
        let mut i: usize = 0;
        while i < n
            invariant
                i <= n,
                n == self.visible_tiles@.len(),
                self.width == old(self).width,
                self.height == old(self).height,
                self.tiles@ == old(self).tiles@,
                self.revealed_tiles@ == old(self).revealed_tiles@,
                self.visible_tiles@.len() == old(self).visible_tiles@.len(),
                forall|j: int| 0 <= j < i ==> !self.visible_tiles@[j],
            decreases n - i,
        {
            self.visible_tiles.set(i, false);
            i = i + 1;
        }
    }

    /// Replace the visibility snapshot with exactly the in-bounds positions
    /// of the input, marking each such cell revealed as well. Out-of-bounds
    /// entries are silently ignored. Afterwards every visible cell is
    /// revealed, whatever the input (the revealed set only grows).
    pub fn set_visibility(&mut self, visible_positions: &Vec<Position>)
        requires
            old(self).wf(),
        ensures
            final(self).wf(),
            final(self).width == old(self).width,
            final(self).height == old(self).height,
            final(self).tiles@ == old(self).tiles@,
            final(self).revealed_tiles@.len() == old(self).revealed_tiles@.len(),
            final(self).visible_tiles@.len() == old(self).visible_tiles@.len(),
            forall|i: int|
                0 <= i < final(self).spec_size() ==> final(self).visible_tiles@[i]
                    == exists|k: int|
                    0 <= k < visible_positions@.len() && old(self).spec_in_bounds(
                        visible_positions@[k].x as int,
                        visible_positions@[k].y as int,
                    ) && old(self).spec_idx(
                        visible_positions@[k].x as int,
                        visible_positions@[k].y as int,
                    ) == i,
            forall|i: int|
                0 <= i < final(self).spec_size() ==> final(self).revealed_tiles@[i] == (old(self).revealed_tiles@[i] || final(self).visible_tiles@[i]),
            forall|i: int|
                0 <= i < final(self).spec_size() && final(self).visible_tiles@[i] ==> final(self).revealed_tiles@[i],
    {
        self.clear_visibility();
        let n = visible_positions.len();
        let mut k: usize = 0;
        while k < n
            invariant
                k <= n,
                n == visible_positions@.len(),
                self.wf(),
                self.width == old(self).width,
                self.height == old(self).height,
                self.tiles@ == old(self).tiles@,
                self.revealed_tiles@.len() == old(self).revealed_tiles@.len(),
                self.visible_tiles@.len() == old(self).visible_tiles@.len(),
                forall|i: int|
                    0 <= i < self.spec_size() ==> self.visible_tiles@[i] == exists|j: int|
                        0 <= j < k && old(self).spec_in_bounds(
                            visible_positions@[j].x as int,
                            visible_positions@[j].y as int,
                        ) && old(self).spec_idx(
                            visible_positions@[j].x as int,
                            visible_positions@[j].y as int,
                        ) == i,
                forall|i: int|
                    0 <= i < self.spec_size() ==> self.revealed_tiles@[i] == (old(
                        self,
                    ).revealed_tiles@[i] || self.visible_tiles@[i]),
            decreases n - k,
        {
            let p = visible_positions[k];
            if self.in_bounds(p.x, p.y) {
                let idx = self.xy_idx(p.x, p.y);
                self.visible_tiles.set(idx, true);
                self.revealed_tiles.set(idx, true);
            }
            k = k + 1;
        }
    }

    /// In-bounds cells map to indices below `width * height`.
    pub proof fn lemma_idx_in_range(self, x: int, y: int)
        requires
            self.wf(),
            self.spec_in_bounds(x, y),
        ensures
            0 <= self.spec_idx(x, y) < self.spec_size(),
    {
        assert(0 <= y * self.width as int + x < self.width as int * self.height as int)
            by (nonlinear_arith)
            requires
                0 <= x < self.width as int,
                0 <= y < self.height as int,
                0 < self.width,
                0 < self.height;
    }

    /// Distinct in-bounds cells map to distinct indices.
    pub proof fn lemma_idx_injective(self, x1: int, y1: int, x2: int, y2: int)
        requires
            self.wf(),
            self.spec_in_bounds(x1, y1),
            self.spec_in_bounds(x2, y2),
            self.spec_idx(x1, y1) == self.spec_idx(x2, y2),
        ensures
            x1 == x2 && y1 == y2,
    {
        let w = self.width as int;
        let idx = self.spec_idx(x1, y1);
        lemma_fundamental_div_mod_converse(idx, w, y1, x1);
        lemma_fundamental_div_mod_converse(idx, w, y2, x2);
    }
}

impl Default for GridMap {
    /// An 80 by 50 grid whose whole interior is one open Floor expanse,
    /// leaving a one-cell Wall border; nothing revealed or visible.
    fn default() -> (r: Self)
        ensures
            r.wf(),
            r.width == 80,
            r.height == 50,
            forall|x: int, y: int|
                r.spec_in_bounds(x, y) ==> r.spec_tile(x, y) == (if 1 <= x < 79 && 1 <= y < 49 {
                    TerrainType::Floor
                } else {
                    TerrainType::Wall
                }),
            forall|i: int| 0 <= i < r.spec_size() ==> !r.revealed_tiles@[i],
            forall|i: int| 0 <= i < r.spec_size() ==> !r.visible_tiles@[i],
    {
        let mut map = GridMap::new(80, 50);
        let mut y: i32 = 1;
        while y < 49
            invariant
                1 <= y <= 49,
                map.wf(),
                map.width == 80,
                map.height == 50,
                map.revealed_tiles@ =~= Seq::new(map.spec_size() as nat, |i: int| false),
                map.visible_tiles@ =~= Seq::new(map.spec_size() as nat, |i: int| false),
                forall|xx: int, yy: int|
                    map.spec_in_bounds(xx, yy) ==> map.spec_tile(xx, yy) == (if 1 <= xx < 79 && 1
                        <= yy < 49 && yy < y {
                        TerrainType::Floor
                    } else {
                        TerrainType::Wall
                    }),
            decreases 49 - y,
        {
            let mut x: i32 = 1;
            while x < 79
                invariant
                    1 <= x <= 79,
                    1 <= y < 49,
                    map.wf(),
                    map.width == 80,
                    map.height == 50,
                    map.revealed_tiles@ =~= Seq::new(map.spec_size() as nat, |i: int| false),
                    map.visible_tiles@ =~= Seq::new(map.spec_size() as nat, |i: int| false),
                    forall|xx: int, yy: int|
                        map.spec_in_bounds(xx, yy) ==> map.spec_tile(xx, yy) == (if 1 <= xx < 79
                            && 1 <= yy < 49 && (yy < y || (yy == y && xx < x)) {
                            TerrainType::Floor
                        } else {
                            TerrainType::Wall
                        }),
                decreases 79 - x,
            {
                let idx = map.xy_idx(x, y);
                let ghost pre = map;
                map.tiles.set(idx, TerrainType::Floor);
                proof {
                    assert(map.tiles@ == pre.tiles@.update(idx as int, TerrainType::Floor));
                    assert forall|xx: int, yy: int| map.spec_in_bounds(xx, yy) implies map
                        .spec_tile(xx, yy) == (if 1 <= xx < 79 && 1 <= yy < 49 && (yy < y || (yy
                        == y && xx < x + 1)) {
                        TerrainType::Floor
                    } else {
                        TerrainType::Wall
                    }) by {
                        pre.lemma_idx_in_range(xx, yy);
                        assert(pre.spec_in_bounds(xx, yy));
                        assert(map.spec_idx(xx, yy) == pre.spec_idx(xx, yy));
                        if pre.spec_idx(xx, yy) == idx {
                            pre.lemma_idx_injective(xx, yy, x as int, y as int);
                            assert(map.spec_tile(xx, yy) == TerrainType::Floor);
                        } else {
                            assert(map.spec_tile(xx, yy) == pre.spec_tile(xx, yy));
                        }
                    }
                }
                x = x + 1;
            }
            y = y + 1;
        }
        map
    }
}

} // verus!
