//! Flood fill: 4-connected region recoloring from a seed point, implemented
//! with an explicit worklist so the call stack stays bounded.

use vstd::prelude::*;
use crate::image::Image;
use crate::image::grid_wf;
use crate::image::in_grid;
use crate::image::spec_write;

verus! {

/// 4-connectivity: `q` is directly above, below, left or right of `p`.
pub open spec fn adjacent(p: (int, int), q: (int, int)) -> bool {
    ||| (q.0 == p.0 + 1 && q.1 == p.1)
    ||| (q.0 == p.0 - 1 && q.1 == p.1)
    ||| (q.0 == p.0 && q.1 == p.1 + 1)
    ||| (q.0 == p.0 && q.1 == p.1 - 1)
}

/// A chain of 4-adjacent in-bounds cells, all of whose colors differ from
/// `c`.
pub open spec fn is_fill_path(g: Seq<Seq<bool>>, c: bool, path: Seq<(int, int)>) -> bool {
    &&& path.len() >= 1
    &&& forall|k: int| 0 <= k < path.len()
        ==> in_grid(g, (#[trigger] path[k]).0, path[k].1) && g[path[k].1][path[k].0] != c
    &&& forall|k: int| 0 <= k < path.len() - 1 ==> adjacent(#[trigger] path[k], path[k + 1])
}

/// `p` is reachable from `s` through cells that differ from `c`.
pub open spec fn fill_reaches(g: Seq<Seq<bool>>, c: bool, s: (int, int), p: (int, int)) -> bool {
    exists|path: Seq<(int, int)>|
        #[trigger] is_fill_path(g, c, path) && path[0] == s && path.last() == p
}

/// The flood fill of `g` from seed `(x, y)` with color `c`: a no-op when the
/// seed is out of range or already has color `c`; otherwise every cell
/// 4-connected to the seed through cells differing from `c` is recolored.
pub open spec fn spec_flood(g: Seq<Seq<bool>>, x: int, y: int, c: bool) -> Seq<Seq<bool>> {
    if !in_grid(g, x, y) || g[y][x] == c {
        g
    } else {
        Seq::new(g.len(), |j: int| Seq::new(g[j].len(), |i: int|
            if fill_reaches(g, c, (x, y), (i, j)) { c } else { g[j][i] }))
    }
}

/// Number of cells in `row` whose color differs from `c`.
pub closed spec fn row_mismatches(row: Seq<bool>, c: bool) -> nat
    decreases row.len(),
{
    if row.len() == 0 {
        0
    } else {
        (if row[0] != c { 1nat } else { 0nat }) + row_mismatches(row.skip(1), c)
    }
}

/// Number of cells in `g` whose color differs from `c`.
pub closed spec fn grid_mismatches(g: Seq<Seq<bool>>, c: bool) -> nat
    decreases g.len(),
{
    if g.len() == 0 {
        0
    } else {
        row_mismatches(g[0], c) + grid_mismatches(g.skip(1), c)
    }
}

proof fn lemma_row_update(row: Seq<bool>, c: bool, x: int)
    requires
        0 <= x < row.len(),
        row[x] != c,
    ensures
        row_mismatches(row.update(x, c), c) + 1 == row_mismatches(row, c),
    decreases x,
{
    if x == 0 {
        assert(row.update(0, c).skip(1) =~= row.skip(1));
    } else {
        assert(row.update(x, c).skip(1) =~= row.skip(1).update(x - 1, c));
        lemma_row_update(row.skip(1), c, x - 1);
    }
}

proof fn lemma_grid_update(g: Seq<Seq<bool>>, c: bool, x: int, y: int)
    requires
        0 <= y < g.len(),
        0 <= x < g[y].len(),
        g[y][x] != c,
    ensures
        grid_mismatches(g.update(y, g[y].update(x, c)), c) + 1 == grid_mismatches(g, c),
    decreases y,
{
    if y == 0 {
        lemma_row_update(g[0], c, x);
        assert(g.update(0, g[0].update(x, c)).skip(1) =~= g.skip(1));
    } else {
        lemma_grid_update(g.skip(1), c, x, y - 1);
        assert(g.update(y, g[y].update(x, c)).skip(1)
            =~= g.skip(1).update(y - 1, g.skip(1)[y - 1].update(x, c)));
        assert(g.update(y, g[y].update(x, c))[0] == g[0]);
    }
}

/// Extending a fill path by one adjacent valid cell.
proof fn lemma_reaches_step(
    g: Seq<Seq<bool>>,
    c: bool,
    s: (int, int),
    p: (int, int),
    n: (int, int),
)
    requires
        fill_reaches(g, c, s, p),
        adjacent(p, n),
        in_grid(g, n.0, n.1),
        g[n.1][n.0] != c,
    ensures
        fill_reaches(g, c, s, n),
{
    let path = choose|path: Seq<(int, int)>|
        is_fill_path(g, c, path) && path[0] == s && path.last() == p;
    let path2 = path.push(n);
    assert(forall|k: int| 0 <= k < path.len() ==> path2[k] == path[k]);
    assert(path2.last() == n);
    assert(is_fill_path(g, c, path2));
    assert(path2[0] == s);
}

/// At the end of the search (empty worklist), every cell reachable from the
/// seed has been recolored: induction along the fill path.
proof fn lemma_path_colored(
    g0: Seq<Seq<bool>>,
    cur: Seq<Seq<bool>>,
    c: bool,
    s: (int, int),
    path: Seq<(int, int)>,
)
    requires
        grid_wf(g0),
        cur.len() == g0.len(),
        forall|j: int| 0 <= j < g0.len() ==> (#[trigger] cur[j]).len() == g0[j].len(),
        is_fill_path(g0, c, path),
        path[0] == s,
        cur[s.1][s.0] == c,
        forall|i: int, j: int| in_grid(g0, i, j)
            ==> #[trigger] cur[j][i] == g0[j][i] || cur[j][i] == c,
        forall|i: int, j: int, i2: int, j2: int|
            in_grid(g0, i, j) && #[trigger] cur[j][i] != g0[j][i]
                && adjacent((i, j), (i2, j2)) && in_grid(g0, i2, j2)
            ==> #[trigger] cur[j2][i2] == c,
    ensures
        cur[path.last().1][path.last().0] == c,
    decreases path.len(),
{
    if path.len() == 1 {
        assert(path.last() == s);
    } else {
        let prefix = path.drop_last();
        assert(forall|k: int| 0 <= k < prefix.len() ==> prefix[k] == path[k]);
        assert(is_fill_path(g0, c, prefix));
        lemma_path_colored(g0, cur, c, s, prefix);
        let p = path[path.len() - 2];
        let q = path.last();
        assert(prefix.last() == p);
        assert(cur[p.1][p.0] == c);
        assert(g0[p.1][p.0] != c);
        assert(cur[p.1][p.0] != g0[p.1][p.0]);
        assert(adjacent(p, q));
    }
}

/// Whether the integer point `p` occurs in the worklist.
pub open spec fn in_stack(s: Seq<(i32, i32)>, p: (int, int)) -> bool {
    exists|k: int| 0 <= k < s.len() && ((#[trigger] s[k]).0 as int, s[k].1 as int) == p
}

impl Image {
    /// Recolor the 4-connected region of the seed `(x, y)` with `color`.
    /// Negative seed coordinates are reported (result `false`) and ignored; a
    /// seed past the high edge, or one that already has the target color, is
    /// a no-op.
    #[verifier::loop_isolation(false)]
    #[verifier::rlimit(60)]
    pub fn flood_fill(&mut self, x: i32, y: i32, color: bool) -> (ok: bool)
        requires
            old(self).wf(),
        ensures
            final(self).wf(),
            final(self)@ == spec_flood(old(self)@, x as int, y as int, color),
            ok == !(x < 0 || y < 0),
    {
        if x < 0 || y < 0 {
            return false;
        }
        let w = self.get_width();
        let h = self.get_height();
        if (x as usize) >= w || (y as usize) >= h {
            return true;
        }
        if self.read_pixel(x, y) == color {
            return true;
        }
        let ghost g0 = self@;
        let ghost s = (x as int, y as int);
        let mut stack: Vec<(i32, i32)> = Vec::new();
        stack.push((x, y));
        proof {
            let path = seq![s];
            assert(is_fill_path(g0, color, path));
            assert(path[0] == s && path.last() == s);
            assert(fill_reaches(g0, color, s, s));
            assert(stack@[0].0 as int == s.0 && stack@[0].1 as int == s.1);
            assert(in_stack(stack@, s));
        }
        while stack.len() > 0
            invariant
                self.wf(),
                self@.len() == g0.len(),
                forall|j: int| 0 <= j < g0.len() ==> (#[trigger] self@[j]).len() == g0[j].len(),
                in_grid(g0, s.0, s.1),
                g0[s.1][s.0] != color,
                forall|i: int, j: int| in_grid(g0, i, j)
                    ==> #[trigger] self@[j][i] == g0[j][i] || self@[j][i] == color,
                forall|i: int, j: int| in_grid(g0, i, j) && #[trigger] self@[j][i] != g0[j][i]
                    ==> fill_reaches(g0, color, s, (i, j)),
                forall|k: int| 0 <= k < stack@.len()
                    && in_grid(g0, (#[trigger] stack@[k]).0 as int, stack@[k].1 as int)
                    && g0[stack@[k].1 as int][stack@[k].0 as int] != color
                    ==> fill_reaches(g0, color, s, (stack@[k].0 as int, stack@[k].1 as int)),
                forall|i: int, j: int, i2: int, j2: int|
                    in_grid(g0, i, j) && #[trigger] self@[j][i] != g0[j][i]
                        && adjacent((i, j), (i2, j2)) && in_grid(g0, i2, j2)
                        && #[trigger] self@[j2][i2] != color
                    ==> in_stack(stack@, (i2, j2)),
                self@[s.1][s.0] == color || in_stack(stack@, s),
            decreases 5 * grid_mismatches(self@, color) + stack@.len(),
        {
            let ghost stack0 = stack@;
            let ghost cur0 = self@;
            let popped = stack.pop();
            let (px, py) = match popped {
                Some(p) => p,
                None => { return true; },  // unreachable: the loop condition holds
            };
            if px >= 0 && py >= 0 && (px as usize) < w && (py as usize) < h {
                if self.read_pixel(px, py) != color {
                    let ghost p = (px as int, py as int);
                    proof {
                        assert(cur0[p.1][p.0] == g0[p.1][p.0]);
                        assert(fill_reaches(g0, color, s, p));
                        lemma_grid_update(cur0, color, p.0, p.1);
                    }
                    let _ = self.write_pixel(px, py, color);
                    stack.push((px + 1, py));
                    stack.push((px - 1, py));
                    stack.push((px, py + 1));
                    stack.push((px, py - 1));
                    proof {
                        let cur1 = self@;
                        let st1 = stack@;
                        assert(cur1 == spec_write(cur0, p.0, p.1, color));
                        // reachability of the four pushed neighbors when valid
                        assert forall|i2: int, j2: int|
                            adjacent(p, (i2, j2)) && in_grid(g0, i2, j2)
                                && g0[j2][i2] != color
                            implies fill_reaches(g0, color, s, (i2, j2)) by {
                            lemma_reaches_step(g0, color, s, p, (i2, j2));
                        };
                        // the frontier invariant
                        assert forall|i: int, j: int, i2: int, j2: int|
                            in_grid(g0, i, j) && #[trigger] cur1[j][i] != g0[j][i]
                                && adjacent((i, j), (i2, j2)) && in_grid(g0, i2, j2)
                                && #[trigger] cur1[j2][i2] != color
                            implies in_stack(st1, (i2, j2)) by {
                            if i == p.0 && j == p.1 {
                                assert(st1[st1.len() - 4].0 as int == p.0 + 1
                                    && st1[st1.len() - 4].1 as int == p.1);
                                assert(st1[st1.len() - 3].0 as int == p.0 - 1
                                    && st1[st1.len() - 3].1 as int == p.1);
                                assert(st1[st1.len() - 2].0 as int == p.0
                                    && st1[st1.len() - 2].1 as int == p.1 + 1);
                                assert(st1[st1.len() - 1].0 as int == p.0
                                    && st1[st1.len() - 1].1 as int == p.1 - 1);
                            } else {
                                assert(cur0[j][i] != g0[j][i]);
                                assert(cur0[j2][i2] != color);
                                assert(in_stack(stack0, (i2, j2)));
                                let k = choose|k: int| 0 <= k < stack0.len()
                                    && ((#[trigger] stack0[k]).0 as int, stack0[k].1 as int)
                                        == (i2, j2);
                                if k == stack0.len() - 1 {
                                    assert((i2, j2) == p);
                                    assert(cur1[j2][i2] == color);
                                } else {
                                    assert(st1[k] == stack0[k]);
                                }
                            }
                        };
                        // the seed stays covered
                        if cur1[s.1][s.0] != color {
                            assert(in_stack(stack0, s));
                            let k = choose|k: int| 0 <= k < stack0.len()
                                && ((#[trigger] stack0[k]).0 as int, stack0[k].1 as int) == s;
                            if k == stack0.len() - 1 {
                                assert(s == p);
                                assert(cur1[s.1][s.0] == color);
                            } else {
                                assert(st1[k] == stack0[k]);
                            }
                        }
                    }
                } else {
                    proof {
                        let st1 = stack@;
                        let ghost p = (px as int, py as int);
                        assert forall|i: int, j: int, i2: int, j2: int|
                            in_grid(g0, i, j) && #[trigger] self@[j][i] != g0[j][i]
                                && adjacent((i, j), (i2, j2)) && in_grid(g0, i2, j2)
                                && #[trigger] self@[j2][i2] != color
                            implies in_stack(st1, (i2, j2)) by {
                            assert(in_stack(stack0, (i2, j2)));
                            let k = choose|k: int| 0 <= k < stack0.len()
                                && ((#[trigger] stack0[k]).0 as int, stack0[k].1 as int)
                                    == (i2, j2);
                            if k == stack0.len() - 1 {
                                assert((i2, j2) == p);
                                assert(self@[j2][i2] == color);
                            } else {
                                assert(st1[k] == stack0[k]);
                            }
                        };
                        if self@[s.1][s.0] != color {
                            assert(in_stack(stack0, s));
                            let k = choose|k: int| 0 <= k < stack0.len()
                                && ((#[trigger] stack0[k]).0 as int, stack0[k].1 as int) == s;
                            if k == stack0.len() - 1 {
                                assert(s == p);
                            } else {
                                assert(stack@[k] == stack0[k]);
                            }
                        }
                    }
                }
            } else {
                proof {
                    let st1 = stack@;
                    assert forall|i: int, j: int, i2: int, j2: int|
                        in_grid(g0, i, j) && #[trigger] self@[j][i] != g0[j][i]
                            && adjacent((i, j), (i2, j2)) && in_grid(g0, i2, j2)
                            && #[trigger] self@[j2][i2] != color
                        implies in_stack(st1, (i2, j2)) by {
                        assert(in_stack(stack0, (i2, j2)));
                        let k = choose|k: int| 0 <= k < stack0.len()
                            && ((#[trigger] stack0[k]).0 as int, stack0[k].1 as int) == (i2, j2);
                        if k == stack0.len() - 1 {
                            assert(in_grid(g0, stack0[k].0 as int, stack0[k].1 as int));
                        } else {
                            assert(st1[k] == stack0[k]);
                        }
                    };
                    if self@[s.1][s.0] != color {
                        assert(in_stack(stack0, s));
                        let k = choose|k: int| 0 <= k < stack0.len()
                            && ((#[trigger] stack0[k]).0 as int, stack0[k].1 as int) == s;
                        if k == stack0.len() - 1 {
                            assert(in_grid(g0, stack0[k].0 as int, stack0[k].1 as int));
                        } else {
                            assert(stack@[k] == stack0[k]);
                        }
                    }
                }
            }
        }
        proof {
            let cur = self@;
            assert forall|i: int, j: int| in_grid(g0, i, j) && fill_reaches(g0, color, s, (i, j))
                implies cur[j][i] == color by {
                let path = choose|path: Seq<(int, int)>|
                    is_fill_path(g0, color, path) && path[0] == s && path.last() == (i, j);
                assert(cur[s.1][s.0] == color);
                assert forall|a: int, b: int, a2: int, b2: int|
                    in_grid(g0, a, b) && #[trigger] cur[b][a] != g0[b][a]
                        && adjacent((a, b), (a2, b2)) && in_grid(g0, a2, b2)
                    implies #[trigger] cur[b2][a2] == color by {
                    if cur[b2][a2] != color {
                        assert(in_stack(stack@, (a2, b2)));
                    }
                };
                lemma_path_colored(g0, cur, color, s, path);
            };
            assert(self@ =~~= spec_flood(g0, x as int, y as int, color));
        }
        true
    }
}

/// Flood fill is idempotent: filling a second time from the same seed with
/// the same color changes nothing.
pub proof fn lemma_flood_idempotent(g: Seq<Seq<bool>>, x: int, y: int, c: bool)
    requires
        grid_wf(g),
    ensures
        spec_flood(spec_flood(g, x, y, c), x, y, c) == spec_flood(g, x, y, c),
{
    if in_grid(g, x, y) && g[y][x] != c {
        let g1 = spec_flood(g, x, y, c);
        let path = seq![(x, y)];
        assert(is_fill_path(g, c, path));
        assert(fill_reaches(g, c, (x, y), (x, y)));
        assert(g1[y][x] == c);
        assert(g1.len() == g.len());
        assert(g1[0].len() == g[0].len());
        assert(in_grid(g1, x, y));
    }
}

} // verus!
