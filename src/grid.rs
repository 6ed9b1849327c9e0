use vstd::prelude::*;

verus! {

/// One coordinate of a tile: `x` when `vertical_axis` is false, `y` otherwise.
pub open spec fn coord(c: (i32, i32), vertical_axis: bool) -> int {
    if vertical_axis {
        c.1 as int
    } else {
        c.0 as int
    }
}

/// The least coordinate along an axis over a list of tiles (`i32::MAX` for none).
pub open spec fn lowest(cells: Seq<(i32, i32)>, vertical_axis: bool) -> int
    decreases cells.len(),
{
    if cells.len() == 0 {
        i32::MAX as int
    } else {
        let rest = lowest(cells.drop_last(), vertical_axis);
        let c = coord(cells.last(), vertical_axis);
        if c < rest {
            c
        } else {
            rest
        }
    }
}

/// The greatest coordinate along an axis over a list of tiles (`i32::MIN` for none).
pub open spec fn highest(cells: Seq<(i32, i32)>, vertical_axis: bool) -> int
    decreases cells.len(),
{
    if cells.len() == 0 {
        i32::MIN as int
    } else {
        let rest = highest(cells.drop_last(), vertical_axis);
        let c = coord(cells.last(), vertical_axis);
        if c > rest {
            c
        } else {
            rest
        }
    }
}

/// The number of tiles that the bounding box of `cells` spans along an axis.
pub open spec fn extent(cells: Seq<(i32, i32)>, vertical_axis: bool) -> int {
    highest(cells, vertical_axis) - lowest(cells, vertical_axis) + 1
}

/// The bounding box of `cells` is non-empty, keeps a spare coordinate on each side within
/// `i32`, and its tile count fits in `usize`.
pub open spec fn window_fits(cells: Seq<(i32, i32)>) -> bool {
    &&& cells.len() > 0
    &&& i32::MIN < lowest(cells, false)
    &&& i32::MIN < lowest(cells, true)
    &&& highest(cells, false) < i32::MAX - 1
    &&& highest(cells, true) < i32::MAX - 1
    &&& extent(cells, false) <= i32::MAX
    &&& extent(cells, true) <= i32::MAX
    &&& extent(cells, false) * extent(cells, true) <= usize::MAX
}

/// `cells` lists the tile `(x, y)`.
pub open spec fn lists_cell(cells: Seq<(i32, i32)>, x: int, y: int) -> bool {
    exists|k: int| 0 <= k < cells.len() && cells[k].0 == x && cells[k].1 == y
}

/// Every listed tile lies within the bounds of the list.
proof fn lemma_within_bounds(cells: Seq<(i32, i32)>, vertical_axis: bool, k: int)
    requires
        0 <= k < cells.len(),
    ensures
        lowest(cells, vertical_axis) <= coord(cells[k], vertical_axis) <= highest(
            cells,
            vertical_axis,
        ),
    decreases cells.len(),
{
    if k < cells.len() - 1 {
        lemma_within_bounds(cells.drop_last(), vertical_axis, k);
    }
}

/// Two window positions with the same row-major index are the same position.
proof fn lemma_index_injective(w: int, x1: int, y1: int, x2: int, y2: int)
    requires
        0 <= x1 < w,
        0 <= x2 < w,
        0 <= y1,
        0 <= y2,
        y1 * w + x1 == y2 * w + x2,
    ensures
        x1 == x2,
        y1 == y2,
{
    if y1 < y2 {
        assert(y1 * w + w <= y2 * w) by (nonlinear_arith)
            requires y1 < y2, 0 <= w;
    } else if y2 < y1 {
        assert(y2 * w + w <= y1 * w) by (nonlinear_arith)
            requires y2 < y1, 0 <= w;
    }
}

/// A dense occupancy grid of solid tiles covering a rectangular window of tile coordinates.
pub struct Collision {
    pub size: (i32, i32),
    pub offset: (i32, i32),
    pub collision_layer: Vec<bool>,
}

impl Collision {
    /// The grid's shape is consistent: non-negative extents, a window that leaves one spare
    /// coordinate on each side within `i32`, and one cell per tile of the window.
    pub open spec fn wf(&self) -> bool {
        &&& self.size.0 >= 0
        &&& self.size.1 >= 0
        &&& i32::MIN < self.offset.0
        &&& i32::MIN < self.offset.1
        &&& self.offset.0 + self.size.0 < i32::MAX
        &&& self.offset.1 + self.size.1 < i32::MAX
        &&& self.collision_layer@.len() == self.size.0 * self.size.1
    }

    /// Whether the tile at `(x, y)` is solid; tiles outside the window are empty.
    pub open spec fn solid_at(&self, x: int, y: int) -> bool {
        let lx = x - self.offset.0;
        let ly = y - self.offset.1;
        if 0 <= lx < self.size.0 && 0 <= ly < self.size.1 {
            self.collision_layer@[ly * self.size.0 + lx]
        } else {
            false
        }
    }

    /// The row-major index of the tile `(x, y)` in `collision_layer`.
    pub open spec fn index_of(&self, x: int, y: int) -> int {
        (y - self.offset.1) * self.size.0 + (x - self.offset.0)
    }

    /// Builds the grid over the bounding box of `cells` with exactly the listed tiles solid;
    /// `None` when the list is empty or its bounding box does not fit.
    pub fn from_cells(cells: &Vec<(i32, i32)>) -> (r: Option<Collision>)
        ensures
            r.is_some() <==> window_fits(cells@),
            r matches Some(g) ==> g.wf() && forall|x: int, y: int|
                #[trigger] g.solid_at(x, y) <==> lists_cell(cells@, x, y),
    {
        let mut min_xy: (i32, i32) = (i32::MAX, i32::MAX);
        let mut max_xy: (i32, i32) = (i32::MIN, i32::MIN);
        let mut i: usize = 0;
        while i < cells.len()
            invariant
                i <= cells@.len(),
                min_xy.0 == lowest(cells@.subrange(0, i as int), false),
                min_xy.1 == lowest(cells@.subrange(0, i as int), true),
                max_xy.0 == highest(cells@.subrange(0, i as int), false),
                max_xy.1 == highest(cells@.subrange(0, i as int), true),
            decreases cells@.len() - i,
        {
            let c = cells[i];
            proof {
                assert(cells@.subrange(0, i + 1).drop_last() =~= cells@.subrange(0, i as int));
            }
            if c.0 < min_xy.0 {
                min_xy.0 = c.0;
            }
            if c.1 < min_xy.1 {
                min_xy.1 = c.1;
            }
            if c.0 > max_xy.0 {
                max_xy.0 = c.0;
            }
            if c.1 > max_xy.1 {
                max_xy.1 = c.1;
            }
            i = i + 1;
        }
        proof {
            assert(cells@.subrange(0, cells@.len() as int) =~= cells@);
        }
        if cells.len() == 0 || min_xy.0 == i32::MIN || min_xy.1 == i32::MIN || max_xy.0
            >= i32::MAX - 1 || max_xy.1 >= i32::MAX - 1 {
            return None;
        }
        let w: i64 = max_xy.0 as i64 - min_xy.0 as i64 + 1;
        let h: i64 = max_xy.1 as i64 - min_xy.1 as i64 + 1;
        if w > i32::MAX as i64 || h > i32::MAX as i64 {
            return None;
        }
        proof {
            lemma_within_bounds(cells@, false, 0);
            lemma_within_bounds(cells@, true, 0);
            assert(0 <= w * h <= i32::MAX * i32::MAX) by (nonlinear_arith)
                requires 1 <= w <= i32::MAX, 1 <= h <= i32::MAX;
        }
        let area: u64 = (w as u64) * (h as u64);
        if area > usize::MAX as u64 {
            return None;
        }
        let n: usize = area as usize;
        let mut layer: Vec<bool> = Vec::new();
        let mut j: usize = 0;
        while j < n
            invariant
                j <= n,
                layer@ == Seq::new(j as nat, |_i: int| false),
            decreases n - j,
        {
            layer.push(false);
            j = j + 1;
        }
        let g0 = Collision { size: (w as i32, h as i32), offset: min_xy, collision_layer: layer };
        let mut g = g0;
        let mut k: usize = 0;
        while k < cells.len()
            invariant
                k <= cells@.len(),
                g.wf(),
                g.size == g0.size,
                g.offset == g0.offset,
                g.offset.0 == lowest(cells@, false),
                g.offset.1 == lowest(cells@, true),
                g.size.0 == extent(cells@, false),
                g.size.1 == extent(cells@, true),
                forall|idx: int|
                    0 <= idx < g.collision_layer@.len() ==> (#[trigger] g.collision_layer@[idx]
                        <==> exists|m: int|
                        0 <= m < k && g.index_of(cells@[m].0 as int, cells@[m].1 as int) == idx),
            decreases cells@.len() - k,
        {
            let c = cells[k];
            let len: usize = g.collision_layer.len();
            proof {
                lemma_within_bounds(cells@, false, k as int);
                lemma_within_bounds(cells@, true, k as int);
                assert(0 <= (c.1 - g.offset.1) * g.size.0 && (c.1 - g.offset.1) * g.size.0 + (c.0
                    - g.offset.0) < g.size.0 * g.size.1) by (nonlinear_arith)
                    requires
                        0 <= c.0 - g.offset.0 < g.size.0,
                        0 <= c.1 - g.offset.1 < g.size.1,
                ;
            }
            let idx: usize = ((c.1 as i64 - g.offset.1 as i64) as usize) * (g.size.0 as usize) + ((
            c.0 as i64 - g.offset.0 as i64) as usize);
            let ghost before = g.collision_layer@;
            g.collision_layer.set(idx, true);
            proof {
                assert forall|i2: int| 0 <= i2 < g.collision_layer@.len() implies (
                #[trigger] g.collision_layer@[i2] <==> exists|m: int|
                    0 <= m < k + 1 && g.index_of(cells@[m].0 as int, cells@[m].1 as int) == i2) by {
                    if i2 == idx {
                        assert(g.index_of(cells@[k as int].0 as int, cells@[k as int].1 as int)
                            == i2);
                    } else {
                        assert(g.collision_layer@[i2] == before[i2]);
                        if exists|m: int|
                            0 <= m < k + 1 && g.index_of(cells@[m].0 as int, cells@[m].1 as int)
                                == i2 {
                            let m = choose|m: int|
                                0 <= m < k + 1 && g.index_of(
                                    cells@[m].0 as int,
                                    cells@[m].1 as int,
                                ) == i2;
                            assert(m < k);
                        }
                    }
                }
            }
            k = k + 1;
        }
        proof {
            assert forall|x: int, y: int| #[trigger] g.solid_at(x, y) <==> lists_cell(cells@, x, y) by {
                if g.solid_at(x, y) {
                    let idx = g.index_of(x, y);
                    assert(0 <= idx < g.size.0 * g.size.1) by (nonlinear_arith)
                        requires
                            0 <= x - g.offset.0 < g.size.0,
                            0 <= y - g.offset.1 < g.size.1,
                            idx == (y - g.offset.1) * g.size.0 + (x - g.offset.0),
                    ;
                    assert(g.collision_layer@[idx]);
                    let m = choose|m: int|
                        0 <= m < cells@.len() && g.index_of(cells@[m].0 as int, cells@[m].1 as int)
                            == idx;
                    lemma_within_bounds(cells@, false, m);
                    lemma_within_bounds(cells@, true, m);
                    lemma_index_injective(
                        g.size.0 as int,
                        x - g.offset.0,
                        y - g.offset.1,
                        cells@[m].0 - g.offset.0,
                        cells@[m].1 - g.offset.1,
                    );
                }
                if lists_cell(cells@, x, y) {
                    let m = choose|m: int|
                        0 <= m < cells@.len() && cells@[m].0 == x && cells@[m].1 == y;
                    lemma_within_bounds(cells@, false, m);
                    lemma_within_bounds(cells@, true, m);
                    assert(0 <= g.index_of(x, y) < g.size.0 * g.size.1) by (nonlinear_arith)
                        requires
                            0 <= x - g.offset.0 < g.size.0,
                            0 <= y - g.offset.1 < g.size.1,
                            g.index_of(x, y) == (y - g.offset.1) * g.size.0 + (x - g.offset.0),
                    ;
                }
            }
        }
        Some(g)
    }

    pub fn check_collision(&self, x: i32, y: i32) -> (r: bool)
        requires
            self.wf(),
        ensures
            r == self.solid_at(x as int, y as int),
    {
        let lx: i64 = x as i64 - self.offset.0 as i64;
        let ly: i64 = y as i64 - self.offset.1 as i64;
        if lx < 0 || ly < 0 || lx >= self.size.0 as i64 || ly >= self.size.1 as i64 {
            return false;
        }
        let len: usize = self.collision_layer.len();
        proof {
            assert(0 <= ly * self.size.0 && ly * self.size.0 + lx < self.size.0 * self.size.1)
                by (nonlinear_arith)
                requires 0 <= lx < self.size.0, 0 <= ly < self.size.1;
        }
        let idx: usize = (ly as usize) * (self.size.0 as usize) + (lx as usize);
        self.collision_layer[idx]
    }

    /// Whether any solid tile lies in the block of tiles from `lo` (included) to `hi` (excluded).
    pub fn check_rect_collision(&self, lo: (i32, i32), hi: (i32, i32)) -> (r: bool)
        requires
            self.wf(),
        ensures
            r == exists|x: int, y: int|
                lo.0 <= x < hi.0 && lo.1 <= y < hi.1 && #[trigger] self.solid_at(x, y),
    {
        let mut x: i32 = lo.0;
        while x < hi.0
            invariant
                self.wf(),
                lo.0 <= x,
                x <= hi.0 || hi.0 <= lo.0,
                forall|x2: int, y2: int|
                    lo.0 <= x2 < x && lo.1 <= y2 < hi.1 ==> !#[trigger] self.solid_at(x2, y2),
            decreases hi.0 - x,
        {
            let mut y: i32 = lo.1;
            while y < hi.1
                invariant
                    self.wf(),
                    lo.0 <= x < hi.0,
                    lo.1 <= y,
                    y <= hi.1 || hi.1 <= lo.1,
                    forall|x2: int, y2: int|
                        lo.0 <= x2 < x && lo.1 <= y2 < hi.1 ==> !#[trigger] self.solid_at(x2, y2),
                    forall|y2: int| lo.1 <= y2 < y ==> !#[trigger] self.solid_at(x as int, y2),
                decreases hi.1 - y,
            {
                if self.check_collision(x, y) {
                    return true;
                }
                y = y + 1;
            }
            x = x + 1;
        }
        false
    }
}

} // verus!
