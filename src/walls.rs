use vstd::prelude::*;

use crate::grid::Collision;

verus! {

/// A wall segment between two grid points, in tile units.
pub type Wall = ((i32, i32), (i32, i32));

/// Whether the unit edge at position `pos` of grid line `line` separates a solid tile from an
/// empty one. Horizontal lines (`vertical == false`) are the lines `y == line`, and the edge at
/// `pos` runs from `(pos, line)` to `(pos + 1, line)`; vertical lines are the lines `x == line`,
/// and the edge runs from `(line, pos)` to `(line, pos + 1)`.
pub open spec fn is_edge(g: Collision, vertical: bool, line: int, pos: int) -> bool {
    if vertical {
        g.solid_at(line, pos) != g.solid_at(line - 1, pos)
    } else {
        g.solid_at(pos, line) != g.solid_at(pos, line - 1)
    }
}

/// The positions `start..end` of a line form a maximal run of boundary edges.
pub open spec fn is_run(g: Collision, vertical: bool, line: int, start: int, end: int) -> bool {
    &&& start < end
    &&& forall|p: int| start <= p < end ==> #[trigger] is_edge(g, vertical, line, p)
    &&& !is_edge(g, vertical, line, start - 1)
    &&& !is_edge(g, vertical, line, end)
}

/// The wall that covers positions `start..end` of a line.
pub open spec fn wall_of(vertical: bool, line: int, start: int, end: int) -> Wall {
    if vertical {
        ((line as i32, start as i32), (line as i32, end as i32))
    } else {
        ((start as i32, line as i32), (end as i32, line as i32))
    }
}

/// `w` is the wall of a maximal run on some line of the given direction.
pub open spec fn is_run_wall(g: Collision, vertical: bool, w: Wall) -> bool {
    if vertical {
        w.0.0 == w.1.0 && is_run(g, true, w.0.0 as int, w.0.1 as int, w.1.1 as int)
    } else {
        w.0.1 == w.1.1 && is_run(g, false, w.0.1 as int, w.0.0 as int, w.1.0 as int)
    }
}

/// The walls of `walls` are exactly the maximal boundary runs of the grid, in both directions,
/// each listed once.
pub open spec fn is_outline(g: Collision, walls: Seq<Wall>) -> bool {
    &&& walls.no_duplicates()
    &&& forall|k: int|
        0 <= k < walls.len() ==> is_run_wall(g, false, #[trigger] walls[k]) || is_run_wall(
            g,
            true,
            walls[k],
        )
    &&& forall|vertical: bool, line: int, start: int, end: int|
        #[trigger] is_run(g, vertical, line, start, end) ==> walls.contains(
            wall_of(vertical, line, start, end),
        )
}

/// Outside the grid's window every tile is empty, so no boundary edge lies there.
proof fn lemma_no_edge_outside(g: Collision, vertical: bool, line: int, pos: int)
    requires
        g.wf(),
        !vertical ==> (pos < g.offset.0 || pos >= g.offset.0 + g.size.0 || line < g.offset.1
            || line > g.offset.1 + g.size.1),
        vertical ==> (pos < g.offset.1 || pos >= g.offset.1 + g.size.1 || line < g.offset.0
            || line > g.offset.0 + g.size.0),
    ensures
        !is_edge(g, vertical, line, pos),
{
}

/// Every run ends inside the window, at a position that still fits in `i32`.
proof fn lemma_run_in_window(g: Collision, vertical: bool, line: int, start: int, end: int)
    requires
        g.wf(),
        is_run(g, vertical, line, start, end),
    ensures
        !vertical ==> g.offset.0 <= start && end <= g.offset.0 + g.size.0 && g.offset.1 <= line
            <= g.offset.1 + g.size.1,
        vertical ==> g.offset.1 <= start && end <= g.offset.1 + g.size.1 && g.offset.0 <= line
            <= g.offset.0 + g.size.0,
{
    assert(is_edge(g, vertical, line, start));
    assert(is_edge(g, vertical, line, end - 1));
    if !vertical {
        if start < g.offset.0 || line < g.offset.1 || line > g.offset.1 + g.size.1 {
            lemma_no_edge_outside(g, vertical, line, start);
        }
        if end > g.offset.0 + g.size.0 {
            lemma_no_edge_outside(g, vertical, line, end - 1);
        }
    } else {
        if start < g.offset.1 || line < g.offset.0 || line > g.offset.0 + g.size.0 {
            lemma_no_edge_outside(g, vertical, line, start);
        }
        if end > g.offset.1 + g.size.1 {
            lemma_no_edge_outside(g, vertical, line, end - 1);
        }
    }
}

/// Whether the unit edge at `pos` of line `line` is a boundary edge.
fn edge_at(g: &Collision, vertical: bool, line: i32, pos: i32) -> (r: bool)
    requires
        g.wf(),
        i32::MIN < line,
    ensures
        r == is_edge(*g, vertical, line as int, pos as int),
{
    if vertical {
        g.check_collision(line, pos) != g.check_collision(line - 1, pos)
    } else {
        g.check_collision(pos, line) != g.check_collision(pos, line - 1)
    }
}

/// Appends to `walls` the maximal runs of every line of one direction, line by line and, within
/// a line, from low to high positions.
fn scan_lines(g: &Collision, vertical: bool, walls: &mut Vec<Wall>)
    requires
        g.wf(),
    ensures
        final(walls)@.len() >= old(walls)@.len(),
        final(walls)@.subrange(0, old(walls)@.len() as int) == old(walls)@,
        forall|k: int|
            old(walls)@.len() <= k < final(walls)@.len() ==> is_run_wall(
                *g,
                vertical,
                #[trigger] final(walls)@[k],
            ),
        forall|k1: int, k2: int|
            old(walls)@.len() <= k1 < k2 < final(walls)@.len() ==> #[trigger] final(walls)@[k1]
                != #[trigger] final(walls)@[k2],
        forall|line: int, start: int, end: int|
            #[trigger] is_run(*g, vertical, line, start, end) ==> final(walls)@.subrange(
                old(walls)@.len() as int,
                final(walls)@.len() as int,
            ).contains(wall_of(vertical, line, start, end)),
{
    let ghost base = walls@.len() as int;
    let (line_lo, line_hi, pos_lo, pos_hi) = if vertical {
        (g.offset.0, g.offset.0 + g.size.0, g.offset.1, g.offset.1 + g.size.1)
    } else {
        (g.offset.1, g.offset.1 + g.size.1, g.offset.0, g.offset.0 + g.size.0)
    };
    let mut line: i32 = line_lo;
    proof {
        assert forall|l: int, start: int, end: int|
            l < line && #[trigger] is_run(*g, vertical, l, start, end) implies false by {
            lemma_run_in_window(*g, vertical, l, start, end);
        }
        assert(walls@.subrange(0, base) =~= old(walls)@);
    }
    while line <= line_hi
        invariant
            g.wf(),
            line_lo <= line <= line_hi + 1,
            vertical ==> line_lo == g.offset.0 && line_hi == g.offset.0 + g.size.0 && pos_lo
                == g.offset.1 && pos_hi == g.offset.1 + g.size.1,
            !vertical ==> line_lo == g.offset.1 && line_hi == g.offset.1 + g.size.1 && pos_lo
                == g.offset.0 && pos_hi == g.offset.0 + g.size.0,
            base == old(walls)@.len(),
            base <= walls@.len(),
            walls@.subrange(0, base) == old(walls)@,
            forall|k: int|
                base <= k < walls@.len() ==> is_run_wall(*g, vertical, #[trigger] walls@[k]),
            forall|k: int|
                base <= k < walls@.len() ==> #[trigger] line_of(vertical, walls@[k]) < line,
            forall|k1: int, k2: int|
                base <= k1 < k2 < walls@.len() ==> #[trigger] walls@[k1] != #[trigger] walls@[k2],
            forall|l: int, start: int, end: int|
                l < line && #[trigger] is_run(*g, vertical, l, start, end) ==> walls@.subrange(
                    base,
                    walls@.len() as int,
                ).contains(wall_of(vertical, l, start, end)),
        decreases line_hi + 1 - line,
    {
        let ghost line_base = walls@.len() as int;
        let mut run_start: Option<i32> = None;
        let mut pos: i32 = pos_lo;
        proof {
            assert forall|start: int, end: int|
                end < pos && #[trigger] is_run(*g, vertical, line as int, start, end) implies false by {
                lemma_run_in_window(*g, vertical, line as int, start, end);
            }
        }
        while pos <= pos_hi
            invariant
                g.wf(),
                line_lo <= line <= line_hi,
                pos_lo <= pos <= pos_hi + 1,
                vertical ==> line_lo == g.offset.0 && line_hi == g.offset.0 + g.size.0 && pos_lo
                    == g.offset.1 && pos_hi == g.offset.1 + g.size.1,
                !vertical ==> line_lo == g.offset.1 && line_hi == g.offset.1 + g.size.1 && pos_lo
                    == g.offset.0 && pos_hi == g.offset.0 + g.size.0,
                base == old(walls)@.len(),
                base <= line_base <= walls@.len(),
                walls@.subrange(0, base) == old(walls)@,
                forall|k: int|
                    base <= k < walls@.len() ==> is_run_wall(*g, vertical, #[trigger] walls@[k]),
                forall|k: int|
                    base <= k < line_base ==> #[trigger] line_of(vertical, walls@[k]) < line,
                forall|k: int|
                    line_base <= k < walls@.len() ==> #[trigger] line_of(vertical, walls@[k])
                        == line && end_of(vertical, walls@[k]) < pos,
                forall|k1: int, k2: int|
                    base <= k1 < k2 < walls@.len() ==> #[trigger] walls@[k1]
                        != #[trigger] walls@[k2],
                forall|l: int, start: int, end: int|
                    l < line && #[trigger] is_run(*g, vertical, l, start, end) ==> walls@.subrange(
                        base,
                        walls@.len() as int,
                    ).contains(wall_of(vertical, l, start, end)),
                forall|start: int, end: int|
                    end < pos && #[trigger] is_run(*g, vertical, line as int, start, end)
                        ==> walls@.subrange(base, walls@.len() as int).contains(
                        wall_of(vertical, line as int, start, end),
                    ),
                match run_start {
                    Some(s) => pos_lo <= s < pos && !is_edge(*g, vertical, line as int, s - 1)
                        && forall|p: int|
                        s <= p < pos ==> #[trigger] is_edge(*g, vertical, line as int, p),
                    None => pos == pos_lo || !is_edge(*g, vertical, line as int, pos - 1),
                },
            decreases pos_hi + 1 - pos,
        {
            let boundary = edge_at(g, vertical, line, pos);
            match run_start {
                None => {
                    if boundary {
                        proof {
                            if pos == pos_lo {
                                lemma_no_edge_outside(*g, vertical, line as int, pos - 1);
                            }
                        }
                        run_start = Some(pos);
                    }
                },
                Some(s) => {
                    if !boundary {
                        let w: Wall = if vertical {
                            ((line, s), (line, pos))
                        } else {
                            ((s, line), (pos, line))
                        };
                        proof {
                            assert(w == wall_of(vertical, line as int, s as int, pos as int));
                            assert(is_run(*g, vertical, line as int, s as int, pos as int));
                            assert forall|start: int, end: int|
                                end == pos && #[trigger] is_run(
                                    *g,
                                    vertical,
                                    line as int,
                                    start,
                                    end,
                                ) implies start == s by {
                                if start < s {
                                    assert(is_edge(*g, vertical, line as int, s - 1));
                                }
                                if start > s {
                                    assert(is_edge(*g, vertical, line as int, start - 1));
                                }
                            }
                        }
                        let ghost prev = walls@;
                        walls.push(w);
                        run_start = None;
                        proof {
                            let n = walls@.len() as int;
                            assert(walls@ == prev.push(w));
                            assert(walls@.subrange(0, base) =~= prev.subrange(0, base));
                            assert(walls@.subrange(base, n - 1) =~= prev.subrange(base, n - 1));
                            assert(line_of(vertical, w) == line && end_of(vertical, w) == pos);
                            assert forall|k: int| base <= k < n - 1 implies walls@[k] != w by {
                                assert(walls@[k] == prev[k]);
                                if k < line_base {
                                    assert(line_of(vertical, prev[k]) < line);
                                } else {
                                    assert(end_of(vertical, prev[k]) < pos);
                                }
                            }
                            assert forall|l: int, start: int, end: int|
                                (l < line || (l == line && end < pos + 1)) && #[trigger] is_run(
                                    *g,
                                    vertical,
                                    l,
                                    start,
                                    end,
                                ) implies walls@.subrange(base, n).contains(
                                wall_of(vertical, l, start, end),
                            ) by {
                                if l == line && end == pos {
                                    assert(walls@[n - 1] == w);
                                    assert(walls@.subrange(base, n)[n - 1 - base] == w);
                                } else {
                                    let prev = walls@.subrange(base, n - 1);
                                    let j = choose|j: int|
                                        0 <= j < prev.len() && prev[j] == wall_of(
                                            vertical,
                                            l,
                                            start,
                                            end,
                                        );
                                    assert(walls@.subrange(base, n)[j] == prev[j]);
                                }
                            }
                        }
                    }
                },
            }
            proof {
                assert forall|start: int, end: int|
                    end < pos + 1 && #[trigger] is_run(*g, vertical, line as int, start, end)
                    implies walls@.subrange(base, walls@.len() as int).contains(
                    wall_of(vertical, line as int, start, end),
                ) by {
                    lemma_run_in_window(*g, vertical, line as int, start, end);
                    if end == pos {
                        assert(is_edge(*g, vertical, line as int, end - 1));
                    }
                }
            }
            pos = pos + 1;
        }
        proof {
            assert forall|l: int, start: int, end: int|
                l < line + 1 && #[trigger] is_run(*g, vertical, l, start, end) implies walls@.subrange(
                base,
                walls@.len() as int,
            ).contains(wall_of(vertical, l, start, end)) by {
                lemma_run_in_window(*g, vertical, l, start, end);
            }
        }
        line = line + 1;
    }
    proof {
        assert forall|l: int, start: int, end: int|
            #[trigger] is_run(*g, vertical, l, start, end) implies walls@.subrange(
            base,
            walls@.len() as int,
        ).contains(wall_of(vertical, l, start, end)) by {
            lemma_run_in_window(*g, vertical, l, start, end);
        }
    }
}

/// The grid line that a wall lies on.
pub open spec fn line_of(vertical: bool, w: Wall) -> int {
    if vertical {
        w.0.0 as int
    } else {
        w.0.1 as int
    }
}

/// The position at which a wall ends along its line.
pub open spec fn end_of(vertical: bool, w: Wall) -> int {
    if vertical {
        w.1.1 as int
    } else {
        w.1.0 as int
    }
}

/// Extracts the outline of the grid's solid tiles: one wall per maximal run of boundary edges,
/// horizontal lines first, then vertical ones.
pub fn extract_walls(g: &Collision) -> (walls: Vec<Wall>)
    requires
        g.wf(),
    ensures
        is_outline(*g, walls@),
{
    let mut walls: Vec<Wall> = Vec::new();
    scan_lines(g, false, &mut walls);
    let ghost n = walls@.len() as int;
    scan_lines(g, true, &mut walls);
    proof {
        let w = walls@;
        assert forall|k1: int, k2: int| 0 <= k1 < w.len() && 0 <= k2 < w.len() && k1 != k2
            implies w[k1] != w[k2] by {
            if k1 < n && k2 < n {
                assert(w.subrange(0, n)[k1] == w[k1]);
                assert(w.subrange(0, n)[k2] == w[k2]);
            } else if k1 >= n && k2 >= n {
                if k1 < k2 {
                    assert(w[k1] != w[k2]);
                } else {
                    assert(w[k2] != w[k1]);
                }
            } else if k1 < n {
                assert(w.subrange(0, n)[k1] == w[k1]);
            } else {
                assert(w.subrange(0, n)[k2] == w[k2]);
            }
        }
        assert forall|k: int| 0 <= k < w.len() implies is_run_wall(*g, false, #[trigger] w[k])
            || is_run_wall(*g, true, w[k]) by {
            if k < n {
                assert(w.subrange(0, n)[k] == w[k]);
            }
        }
        assert forall|vertical: bool, line: int, start: int, end: int|
            #[trigger] is_run(*g, vertical, line, start, end) implies w.contains(
            wall_of(vertical, line, start, end),
        ) by {
            if vertical {
                let sub = w.subrange(n, w.len() as int);
                let j = choose|j: int|
                    0 <= j < sub.len() && sub[j] == wall_of(vertical, line, start, end);
                assert(w[n + j] == sub[j]);
            } else {
                let sub = w.subrange(0, n);
                let j = choose|j: int|
                    0 <= j < sub.len() && sub[j] == wall_of(vertical, line, start, end);
                assert(w[j] == sub[j]);
            }
        }
    }
    walls
}

/// The tiles `x0..x1` by `y0..y1` are solid and every other tile is empty.
pub open spec fn is_solid_rect(g: Collision, x0: int, y0: int, x1: int, y1: int) -> bool {
    forall|x: int, y: int| #[trigger] g.solid_at(x, y) <==> (x0 <= x < x1 && y0 <= y < y1)
}

/// The four sides of the rectangle of tiles `x0..x1` by `y0..y1`.
pub open spec fn rect_sides(x0: int, y0: int, x1: int, y1: int) -> Set<Wall> {
    set![
        wall_of(false, y0, x0, x1),
        wall_of(false, y1, x0, x1),
        wall_of(true, x0, y0, y1),
        wall_of(true, x1, y0, y1),
    ]
}

/// On a solid rectangle, the only maximal runs are its four sides.
proof fn lemma_rect_run(
    g: Collision,
    vertical: bool,
    line: int,
    start: int,
    end: int,
    x0: int,
    y0: int,
    x1: int,
    y1: int,
)
    requires
        x0 < x1,
        y0 < y1,
        is_solid_rect(g, x0, y0, x1, y1),
        is_run(g, vertical, line, start, end),
    ensures
        !vertical ==> (line == y0 || line == y1) && start == x0 && end == x1,
        vertical ==> (line == x0 || line == x1) && start == y0 && end == y1,
{
    assert(is_edge(g, vertical, line, start));
    assert(!is_edge(g, vertical, line, start - 1));
    assert(!is_edge(g, vertical, line, end));
    if !vertical {
        assert(g.solid_at(start, line) != g.solid_at(start, line - 1));
        assert(g.solid_at(start - 1, line) == g.solid_at(start - 1, line - 1));
        assert(g.solid_at(end, line) == g.solid_at(end, line - 1));
        if end > x1 {
            assert(is_edge(g, vertical, line, x1));
            assert(g.solid_at(x1, line) != g.solid_at(x1, line - 1));
        }
    } else {
        assert(g.solid_at(line, start) != g.solid_at(line - 1, start));
        assert(g.solid_at(line, start - 1) == g.solid_at(line - 1, start - 1));
        assert(g.solid_at(line, end) == g.solid_at(line - 1, end));
        if end > y1 {
            assert(is_edge(g, vertical, line, y1));
            assert(g.solid_at(line, y1) != g.solid_at(line - 1, y1));
        }
    }
}

/// A solid rectangle of tiles with no holes has exactly the four sides of the rectangle as its
/// outline: four walls, with no interior segment.
pub proof fn lemma_rect_outline(g: Collision, walls: Seq<Wall>, x0: int, y0: int, x1: int, y1: int)
    requires
        g.wf(),
        x0 < x1,
        y0 < y1,
        is_solid_rect(g, x0, y0, x1, y1),
        is_outline(g, walls),
    ensures
        walls.to_set() == rect_sides(x0, y0, x1, y1),
        walls.len() == 4,
{
    assert(g.solid_at(x0, y0));
    assert(g.solid_at(x1 - 1, y1 - 1));
    let sides = rect_sides(x0, y0, x1, y1);
    assert forall|w: Wall| walls.to_set().contains(w) implies sides.contains(w) by {
        let k = choose|k: int| 0 <= k < walls.len() && walls[k] == w;
        assert(walls.contains(w));
        if is_run_wall(g, false, w) {
            lemma_rect_run(g, false, w.0.1 as int, w.0.0 as int, w.1.0 as int, x0, y0, x1, y1);
        } else {
            assert(is_run_wall(g, true, walls[k]));
            lemma_rect_run(g, true, w.0.0 as int, w.0.1 as int, w.1.1 as int, x0, y0, x1, y1);
        }
    }
    assert forall|w: Wall| sides.contains(w) implies walls.to_set().contains(w) by {
        assert(is_edge(g, false, y0, x0 - 1) == false);
        assert(is_edge(g, false, y0, x1) == false);
        if w == wall_of(false, y0, x0, x1) {
            assert(is_run(g, false, y0, x0, x1));
        } else if w == wall_of(false, y1, x0, x1) {
            assert(is_edge(g, false, y1, x0 - 1) == false);
            assert(is_edge(g, false, y1, x1) == false);
            assert(is_run(g, false, y1, x0, x1));
        } else if w == wall_of(true, x0, y0, y1) {
            assert(is_edge(g, true, x0, y0 - 1) == false);
            assert(is_edge(g, true, x0, y1) == false);
            assert(is_run(g, true, x0, y0, y1));
        } else {
            assert(is_edge(g, true, x1, y0 - 1) == false);
            assert(is_edge(g, true, x1, y1) == false);
            assert(is_run(g, true, x1, y0, y1));
        }
    }
    assert(walls.to_set() =~= sides);
    walls.unique_seq_to_set();
    assert(sides.len() == 4) by {
        let a = wall_of(false, y0, x0, x1);
        let b = wall_of(false, y1, x0, x1);
        let c = wall_of(true, x0, y0, y1);
        let d = wall_of(true, x1, y0, y1);
        assert(a != b && a != c && a != d && b != c && b != d && c != d);
        assert(set![a, b, c].len() == 3);
    }
}

/// A rectangle of tiles `(x0, y0, x1, y1)`: the tiles `x0..x1` by `y0..y1`.
pub type TileRect = (int, int, int, int);

/// The tile `(x, y)` lies in `r`.
pub open spec fn in_rect(r: TileRect, x: int, y: int) -> bool {
    r.0 <= x < r.2 && r.1 <= y < r.3
}

/// The tiles of `a` and `b` are solid and every other tile is empty.
pub open spec fn is_two_rects(g: Collision, a: TileRect, b: TileRect) -> bool {
    forall|x: int, y: int| #[trigger] g.solid_at(x, y) <==> (in_rect(a, x, y) || in_rect(b, x, y))
}

/// At least one empty column or row separates `a` from `b`.
pub open spec fn apart(a: TileRect, b: TileRect) -> bool {
    a.2 < b.0 || b.2 < a.0 || a.3 < b.1 || b.3 < a.1
}

/// The four sides of a rectangle of tiles.
pub open spec fn sides(r: TileRect) -> Set<Wall> {
    rect_sides(r.0, r.1, r.2, r.3)
}

/// The unit edge at `pos` of line `line` borders a tile of `r`.
pub open spec fn touches(r: TileRect, vertical: bool, line: int, pos: int) -> bool {
    if vertical {
        r.1 <= pos < r.3 && (in_rect(r, line, pos) || in_rect(r, line - 1, pos))
    } else {
        r.0 <= pos < r.2 && (in_rect(r, pos, line) || in_rect(r, pos, line - 1))
    }
}

/// Along a side line of `r`, from one position before `r` to one after it, the edges are exactly
/// those that border `r`, when the other rectangle `o` stands apart.
proof fn lemma_side_edges(g: Collision, r: TileRect, o: TileRect, vertical: bool, line: int, pos: int)
    requires
        r.0 < r.2,
        r.1 < r.3,
        is_two_rects(g, r, o),
        apart(r, o),
        !vertical ==> (line == r.1 || line == r.3) && r.0 - 1 <= pos <= r.2,
        vertical ==> (line == r.0 || line == r.2) && r.1 - 1 <= pos <= r.3,
    ensures
        !vertical ==> (is_edge(g, vertical, line, pos) <==> r.0 <= pos < r.2),
        vertical ==> (is_edge(g, vertical, line, pos) <==> r.1 <= pos < r.3),
{
    if !vertical {
        assert(g.solid_at(pos, line) == (in_rect(r, pos, line) || in_rect(o, pos, line)));
        assert(g.solid_at(pos, line - 1) == (in_rect(r, pos, line - 1) || in_rect(o, pos, line - 1)));
    } else {
        assert(g.solid_at(line, pos) == (in_rect(r, line, pos) || in_rect(o, line, pos)));
        assert(g.solid_at(line - 1, pos) == (in_rect(r, line - 1, pos) || in_rect(o, line - 1, pos)));
    }
}

/// A maximal run whose first edge borders `r` is a side of `r`.
proof fn lemma_apart_run(
    g: Collision,
    r: TileRect,
    o: TileRect,
    vertical: bool,
    line: int,
    start: int,
    end: int,
)
    requires
        r.0 < r.2,
        r.1 < r.3,
        is_two_rects(g, r, o),
        apart(r, o),
        is_run(g, vertical, line, start, end),
        touches(r, vertical, line, start),
    ensures
        !vertical ==> (line == r.1 || line == r.3) && start == r.0 && end == r.2,
        vertical ==> (line == r.0 || line == r.2) && start == r.1 && end == r.3,
{
    assert(is_edge(g, vertical, line, start));
    if !vertical {
        assert(g.solid_at(start, line) == (in_rect(r, start, line) || in_rect(o, start, line)));
        assert(g.solid_at(start, line - 1) == (in_rect(r, start, line - 1) || in_rect(
            o,
            start,
            line - 1,
        )));
        assert(line == r.1 || line == r.3);
        lemma_side_edges(g, r, o, vertical, line, start - 1);
        lemma_side_edges(g, r, o, vertical, line, r.2);
        if end <= r.2 {
            lemma_side_edges(g, r, o, vertical, line, end);
        } else {
            assert(is_edge(g, vertical, line, r.2));
        }
    } else {
        assert(g.solid_at(line, start) == (in_rect(r, line, start) || in_rect(o, line, start)));
        assert(g.solid_at(line - 1, start) == (in_rect(r, line - 1, start) || in_rect(
            o,
            line - 1,
            start,
        )));
        assert(line == r.0 || line == r.2);
        lemma_side_edges(g, r, o, vertical, line, start - 1);
        lemma_side_edges(g, r, o, vertical, line, r.3);
        if end <= r.3 {
            lemma_side_edges(g, r, o, vertical, line, end);
        } else {
            assert(is_edge(g, vertical, line, r.3));
        }
    }
}

/// Each side of `r` is a maximal run when the other rectangle stands apart.
proof fn lemma_side_is_run(g: Collision, r: TileRect, o: TileRect, vertical: bool, line: int)
    requires
        r.0 < r.2,
        r.1 < r.3,
        is_two_rects(g, r, o),
        apart(r, o),
        !vertical ==> (line == r.1 || line == r.3),
        vertical ==> (line == r.0 || line == r.2),
    ensures
        !vertical ==> is_run(g, vertical, line, r.0, r.2),
        vertical ==> is_run(g, vertical, line, r.1, r.3),
{
    if !vertical {
        assert forall|p: int| r.0 <= p < r.2 implies #[trigger] is_edge(g, vertical, line, p) by {
            lemma_side_edges(g, r, o, vertical, line, p);
        }
        lemma_side_edges(g, r, o, vertical, line, r.0 - 1);
        lemma_side_edges(g, r, o, vertical, line, r.2);
    } else {
        assert forall|p: int| r.1 <= p < r.3 implies #[trigger] is_edge(g, vertical, line, p) by {
            lemma_side_edges(g, r, o, vertical, line, p);
        }
        lemma_side_edges(g, r, o, vertical, line, r.1 - 1);
        lemma_side_edges(g, r, o, vertical, line, r.3);
    }
}

/// The four sides of a rectangle within the grid are four distinct walls.
proof fn lemma_sides_len(g: Collision, r: TileRect)
    requires
        g.wf(),
        r.0 < r.2,
        r.1 < r.3,
        g.solid_at(r.0, r.1),
        g.solid_at(r.2 - 1, r.3 - 1),
    ensures
        sides(r).len() == 4,
        sides(r).finite(),
{
    let a = wall_of(false, r.1, r.0, r.2);
    let b = wall_of(false, r.3, r.0, r.2);
    let c = wall_of(true, r.0, r.1, r.3);
    let d = wall_of(true, r.2, r.1, r.3);
    assert(a != b && a != c && a != d && b != c && b != d && c != d);
    assert(set![a, b, c].len() == 3);
}

/// Two solid rectangles with an empty column or row between them have, as their outline, the
/// four sides of each: eight walls forming two separate closed outlines.
pub proof fn lemma_two_rects_outline(g: Collision, walls: Seq<Wall>, a: TileRect, b: TileRect)
    requires
        g.wf(),
        a.0 < a.2,
        a.1 < a.3,
        b.0 < b.2,
        b.1 < b.3,
        is_two_rects(g, a, b),
        apart(a, b),
        is_outline(g, walls),
    ensures
        walls.to_set() == sides(a) + sides(b),
        sides(a).disjoint(sides(b)),
        walls.len() == 8,
{
    assert(g.solid_at(a.0, a.1));
    assert(g.solid_at(a.2 - 1, a.3 - 1));
    assert(g.solid_at(b.0, b.1));
    assert(g.solid_at(b.2 - 1, b.3 - 1));
    assert(is_two_rects(g, b, a));
    assert(apart(b, a));
    let all = sides(a) + sides(b);
    assert forall|w: Wall| walls.to_set().contains(w) implies all.contains(w) by {
        assert(walls.contains(w));
        let vertical = !is_run_wall(g, false, w);
        let (line, start, end) = if vertical {
            (w.0.0 as int, w.0.1 as int, w.1.1 as int)
        } else {
            (w.0.1 as int, w.0.0 as int, w.1.0 as int)
        };
        assert(is_run(g, vertical, line, start, end));
        assert(is_edge(g, vertical, line, start));
        if vertical {
            assert(g.solid_at(line, start) == (in_rect(a, line, start) || in_rect(b, line, start)));
            assert(g.solid_at(line - 1, start) == (in_rect(a, line - 1, start) || in_rect(
                b,
                line - 1,
                start,
            )));
        } else {
            assert(g.solid_at(start, line) == (in_rect(a, start, line) || in_rect(b, start, line)));
            assert(g.solid_at(start, line - 1) == (in_rect(a, start, line - 1) || in_rect(
                b,
                start,
                line - 1,
            )));
        }
        if touches(a, vertical, line, start) {
            lemma_apart_run(g, a, b, vertical, line, start, end);
        } else {
            lemma_apart_run(g, b, a, vertical, line, start, end);
        }
    }
    assert forall|w: Wall| all.contains(w) implies walls.to_set().contains(w) by {
        lemma_side_is_run(g, a, b, false, a.1);
        lemma_side_is_run(g, a, b, false, a.3);
        lemma_side_is_run(g, a, b, true, a.0);
        lemma_side_is_run(g, a, b, true, a.2);
        lemma_side_is_run(g, b, a, false, b.1);
        lemma_side_is_run(g, b, a, false, b.3);
        lemma_side_is_run(g, b, a, true, b.0);
        lemma_side_is_run(g, b, a, true, b.2);
    }
    assert(walls.to_set() =~= all);
    lemma_sides_len(g, a);
    lemma_sides_len(g, b);
    assert(sides(a).disjoint(sides(b)));
    vstd::set_lib::lemma_set_disjoint_lens(sides(a), sides(b));
    walls.unique_seq_to_set();
}

} // verus!
