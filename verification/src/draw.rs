//! Geometric rasterization: lines, rectangles, circles, circle outlines and
//! quadratic curves, all expressed through the guarded pixel write.

use vstd::prelude::*;
use vstd::arithmetic::div_mod::lemma_fundamental_div_mod;
use vstd::arithmetic::div_mod::lemma_div_pos_is_pos;
use vstd::arithmetic::div_mod::lemma_div_nonincreasing;
use vstd::arithmetic::div_mod::lemma_fundamental_div_mod_converse;
use crate::image::Image;
use crate::image::in_grid;
use crate::image::spec_write;

verus! {

/// Which recoverable warning a drawing request raises.
#[derive(Clone, Copy, Debug, PartialEq, Eq, Structural)]
pub enum Warn {
    Coords,
    Dims,
    Radius,
}

pub open spec fn iabs(v: int) -> int {
    if v < 0 { -v } else { v }
}

pub open spec fn isign(v: int) -> int {
    if v < 0 { -1 } else { 1 }
}

pub open spec fn imin(a: int, b: int) -> int {
    if a <= b { a } else { b }
}

pub open spec fn imax(a: int, b: int) -> int {
    if a >= b { a } else { b }
}

/// `n / d` rounded to the nearest integer, ties rounded up (`d >= 1`).
pub open spec fn rounded_div(n: int, d: int) -> int {
    (2 * n + d) / (2 * d)
}

/// The grid `g` with color `c` painted on every cell satisfying `m`.
pub open spec fn paint(g: Seq<Seq<bool>>, c: bool, m: spec_fn(int, int) -> bool)
    -> Seq<Seq<bool>> {
    Seq::new(g.len(), |j: int| Seq::new(g[j].len(), |i: int| if m(i, j) { c } else { g[j][i] }))
}

/// Exact rounded division on machine integers.
fn rounded_div_exec(n: i128, d: i128) -> (r: i128)
    requires
        1 <= d <= 0x4_0000_0000,
        -0x2_0000_0000_0000_0000 <= n <= 0x2_0000_0000_0000_0000,
    ensures
        r as int == rounded_div(n as int, d as int),
        -0x8_0000_0000_0000_0000 <= r as int <= 0x8_0000_0000_0000_0000,
{
    let num: i128 = 2 * n + d;
    let den: i128 = 2 * d;
    if num >= 0 {
        let q: u128 = (num as u128) / (den as u128);
        proof {
            assert(q as int == num as int / den as int);
            lemma_div_pos_is_pos(num as int, den as int);
            lemma_div_nonincreasing(num as int, den as int);
        }
        q as i128
    } else {
        let m: u128 = (-num) as u128;
        let qq: u128 = (m + (den as u128) - 1) / (den as u128);
        proof {
            let mi = m as int;
            let di = den as int;
            let qi = qq as int;
            lemma_fundamental_div_mod(mi + di - 1, di);
            let rr = (mi + di - 1) % di;
            assert(mi + di - 1 == di * qi + rr);
            assert(num as int == (-qi) * di + (di - 1 - rr)) by (nonlinear_arith)
                requires
                    num as int == -mi,
                    mi + di - 1 == di * qi + rr,
            ;
            lemma_fundamental_div_mod_converse(num as int, di, -qi, di - 1 - rr);
            lemma_div_pos_is_pos(mi + di - 1, di);
            lemma_div_nonincreasing(mi + di - 1, di);
        }
        -(qq as i128)
    }
}

/// The y coordinate the line rasterizer plots at column `i`, when the
/// horizontal span dominates.
pub open spec fn line_y_at(x1: int, y1: int, x2: int, y2: int, i: int) -> int {
    y1 + rounded_div((i - x1) * (y2 - y1) * isign(x2 - x1), iabs(x2 - x1))
}

/// The x coordinate the line rasterizer plots at row `j`, when the vertical
/// span dominates.
pub open spec fn line_x_at(x1: int, y1: int, x2: int, y2: int, j: int) -> int {
    x1 + rounded_div((j - y1) * (x2 - x1) * isign(y2 - y1), iabs(y2 - y1))
}

/// Whether pixel `(i, j)` is on the digital line from `(x1, y1)` to
/// `(x2, y2)`: the dominant axis is walked in unit steps and the other
/// coordinate follows the slope, rounded to the nearest integer.
pub open spec fn line_hits(x1: int, y1: int, x2: int, y2: int, i: int, j: int) -> bool {
    if iabs(x2 - x1) > iabs(y2 - y1) {
        imin(x1, x2) <= i <= imax(x1, x2) && j == line_y_at(x1, y1, x2, y2, i)
    } else if y1 != y2 {
        imin(y1, y2) <= j <= imax(y1, y2) && i == line_x_at(x1, y1, x2, y2, j)
    } else {
        i == x1 && j == y1
    }
}

/// The grid after drawing a line.
pub open spec fn spec_line(
    g: Seq<Seq<bool>>,
    x1: int,
    y1: int,
    x2: int,
    y2: int,
    c: bool,
) -> Seq<Seq<bool>> {
    paint(g, c, |i: int, j: int| line_hits(x1, y1, x2, y2, i, j))
}

/// Whether pixel `(i, j)` is inside the filled rectangle.
pub open spec fn rect_hits(x: int, y: int, w: int, h: int, i: int, j: int) -> bool {
    x <= i < x + w && y <= j < y + h
}

/// The grid after a filled-rectangle request (invalid requests change
/// nothing).
pub open spec fn spec_rect(
    g: Seq<Seq<bool>>,
    x: int,
    y: int,
    w: int,
    h: int,
    c: bool,
) -> Seq<Seq<bool>> {
    if x < 0 || y < 0 || w < 1 || h < 1 {
        g
    } else {
        paint(g, c, |i: int, j: int| rect_hits(x, y, w, h, i, j))
    }
}

impl Image {
    /// A guarded write addressed with wide integers, for rasterizers that
    /// overscan the `i32` range itself.
    fn write_big(&mut self, x: i64, y: i64, color: bool)
        requires
            old(self).wf(),
        ensures
            final(self).wf(),
            final(self)@ == spec_write(old(self)@, x as int, y as int, color),
    {
        if 0 <= x && x <= 0x7fff_ffff && 0 <= y && y <= 0x7fff_ffff {
            let _ = self.write_pixel(x as i32, y as i32, color);
        }
    }

    /// Draw the digital line from `(x1, y1)` to `(x2, y2)`: walk the
    /// dominant axis from the lower to the higher endpoint, rounding the
    /// other coordinate to the nearest integer; every write is clipped to
    /// the canvas.
    #[verifier::loop_isolation(false)]
    #[verifier::rlimit(60)]
    pub fn draw_line(&mut self, x1: i32, y1: i32, x2: i32, y2: i32, color: bool)
        requires
            old(self).wf(),
        ensures
            final(self).wf(),
            final(self)@ == spec_line(
                old(self)@,
                x1 as int,
                y1 as int,
                x2 as int,
                y2 as int,
                color,
            ),
    {
        let ghost g0 = self@;
        let dx: i64 = x2 as i64 - x1 as i64;
        let dy: i64 = y2 as i64 - y1 as i64;
        let adx: i64 = if dx < 0 { -dx } else { dx };
        let ady: i64 = if dy < 0 { -dy } else { dy };
        if adx > ady {
            let sgn: i64 = if dx < 0 { -1 } else { 1 };
            let start: i64 = if x1 <= x2 { x1 as i64 } else { x2 as i64 };
            let end: i64 = if x1 <= x2 { x2 as i64 } else { x1 as i64 };
            let mut i: i64 = start;
            proof {
                assert(self@ =~~= paint(g0, color, (|a: int, b: int|
                    line_hits(x1 as int, y1 as int, x2 as int, y2 as int, a, b)
                        && a < start as int)));
            }
            while i <= end
                invariant
                    start <= i <= end + 1,
                    self.wf(),
                    self@ == paint(g0, color, (|a: int, b: int|
                        line_hits(x1 as int, y1 as int, x2 as int, y2 as int, a, b)
                            && a < i as int)),
                decreases end + 1 - i,
            {
                proof {
                    assert(-0x2_0000_0000_0000_0000
                        <= (i as int - x1 as int) * (dy as int) * (sgn as int)
                        <= 0x2_0000_0000_0000_0000) by (nonlinear_arith)
                        requires
                            -0x1_0000_0000 <= i as int - x1 as int <= 0x1_0000_0000,
                            -0x1_0000_0000 <= dy as int <= 0x1_0000_0000,
                            -1 <= sgn as int <= 1,
                    ;
                    assert(-0x1_0000_0000_0000_0000
                        <= (i as int - x1 as int) * (dy as int)
                        <= 0x1_0000_0000_0000_0000) by (nonlinear_arith)
                        requires
                            -0x1_0000_0000 <= i as int - x1 as int <= 0x1_0000_0000,
                            -0x1_0000_0000 <= dy as int <= 0x1_0000_0000,
                    ;
                }
                let num: i128 = (i as i128 - x1 as i128) * (dy as i128) * (sgn as i128);
                let jv: i128 = y1 as i128 + rounded_div_exec(num, adx as i128);
                let ghost prev = self@;
                if -0x8000_0000 <= jv && jv <= 0x7fff_ffff {
                    self.write_big(i, jv as i64, color);
                } else {
                    proof {
                        assert(!in_grid(prev, i as int, jv as int));
                    }
                }
                proof {
                    assert(jv as int == line_y_at(x1 as int, y1 as int, x2 as int, y2 as int,
                        i as int));
                    assert(self@ =~~= paint(g0, color, (|a: int, b: int|
                        line_hits(x1 as int, y1 as int, x2 as int, y2 as int, a, b)
                            && a < i as int + 1)));
                }
                i = i + 1;
            }
            proof {
                assert(self@ =~~= spec_line(g0, x1 as int, y1 as int, x2 as int, y2 as int,
                    color));
            }
        } else if dy != 0 {
            let sgn: i64 = if dy < 0 { -1 } else { 1 };
            let start: i64 = if y1 <= y2 { y1 as i64 } else { y2 as i64 };
            let end: i64 = if y1 <= y2 { y2 as i64 } else { y1 as i64 };
            let mut j: i64 = start;
            proof {
                assert(self@ =~~= paint(g0, color, (|a: int, b: int|
                    line_hits(x1 as int, y1 as int, x2 as int, y2 as int, a, b)
                        && b < start as int)));
            }
            while j <= end
                invariant
                    start <= j <= end + 1,
                    self.wf(),
                    self@ == paint(g0, color, (|a: int, b: int|
                        line_hits(x1 as int, y1 as int, x2 as int, y2 as int, a, b)
                            && b < j as int)),
                decreases end + 1 - j,
            {
                proof {
                    assert(-0x2_0000_0000_0000_0000
                        <= (j as int - y1 as int) * (dx as int) * (sgn as int)
                        <= 0x2_0000_0000_0000_0000) by (nonlinear_arith)
                        requires
                            -0x1_0000_0000 <= j as int - y1 as int <= 0x1_0000_0000,
                            -0x1_0000_0000 <= dx as int <= 0x1_0000_0000,
                            -1 <= sgn as int <= 1,
                    ;
                    assert(-0x1_0000_0000_0000_0000
                        <= (j as int - y1 as int) * (dx as int)
                        <= 0x1_0000_0000_0000_0000) by (nonlinear_arith)
                        requires
                            -0x1_0000_0000 <= j as int - y1 as int <= 0x1_0000_0000,
                            -0x1_0000_0000 <= dx as int <= 0x1_0000_0000,
                    ;
                }
                let num: i128 = (j as i128 - y1 as i128) * (dx as i128) * (sgn as i128);
                let iv: i128 = x1 as i128 + rounded_div_exec(num, ady as i128);
                let ghost prev = self@;
                if -0x8000_0000 <= iv && iv <= 0x7fff_ffff {
                    self.write_big(iv as i64, j, color);
                } else {
                    proof {
                        assert(!in_grid(prev, iv as int, j as int));
                    }
                }
                proof {
                    assert(iv as int == line_x_at(x1 as int, y1 as int, x2 as int, y2 as int,
                        j as int));
                    assert(self@ =~~= paint(g0, color, (|a: int, b: int|
                        line_hits(x1 as int, y1 as int, x2 as int, y2 as int, a, b)
                            && b < j as int + 1)));
                }
                j = j + 1;
            }
            proof {
                assert(self@ =~~= spec_line(g0, x1 as int, y1 as int, x2 as int, y2 as int,
                    color));
            }
        } else {
            let _ = self.write_pixel(x1, y1, color);
            proof {
                assert(self@ =~~= spec_line(g0, x1 as int, y1 as int, x2 as int, y2 as int,
                    color));
            }
        }
    }

    /// Fill the half-open box `[x, x+w) x [y, y+h)`. Negative coordinates
    /// or non-positive dimensions are reported and change nothing.
    #[verifier::loop_isolation(false)]
    #[verifier::rlimit(60)]
    pub fn draw_rectangle(&mut self, x: i32, y: i32, w: i32, h: i32, color: bool) -> (warn: Option<Warn>)
        requires
            old(self).wf(),
        ensures
            final(self).wf(),
            final(self)@ == spec_rect(old(self)@, x as int, y as int, w as int, h as int, color),
            warn == (if x < 0 || y < 0 { Some(Warn::Coords) } else if w < 1 || h < 1 {
                Some(Warn::Dims)
            } else { None::<Warn> }),
    {
        if x < 0 || y < 0 {
            return Some(Warn::Coords);
        }
        if w < 1 || h < 1 {
            return Some(Warn::Dims);
        }
        let ghost g0 = self@;
        let width = self.get_width();
        let height = self.get_height();
        let xe: i64 = if x as i64 + w as i64 <= width as i64 { x as i64 + w as i64 } else {
            width as i64
        };
        let ye: i64 = if y as i64 + h as i64 <= height as i64 { y as i64 + h as i64 } else {
            height as i64
        };
        let mut i: i64 = x as i64;
        proof {
            assert(self@ =~~= paint(g0, color, (|a: int, b: int|
                rect_hits(x as int, y as int, w as int, h as int, a, b) && a < x as int)));
        }
        while i < xe
            invariant
                x as i64 <= i <= imax(xe as int, x as int) as i64,
                self.wf(),
                self@ == paint(g0, color, (|a: int, b: int|
                    rect_hits(x as int, y as int, w as int, h as int, a, b) && a < i as int)),
            decreases xe - i,
        {
            let mut j: i64 = y as i64;
            proof {
                assert(self@ =~~= paint(g0, color, (|a: int, b: int|
                    rect_hits(x as int, y as int, w as int, h as int, a, b)
                        && (a < i as int || (a == i as int && b < y as int)))));
            }
            while j < ye
                invariant
                    y as i64 <= j <= imax(ye as int, y as int) as i64,
                    i < xe,
                    self.wf(),
                    self@ == paint(g0, color, (|a: int, b: int|
                        rect_hits(x as int, y as int, w as int, h as int, a, b)
                            && (a < i as int || (a == i as int && b < j as int)))),
                decreases ye - j,
            {
                let ghost prev = self@;
                self.write_big(i, j, color);
                proof {
                    assert(self@ =~~= paint(g0, color, (|a: int, b: int|
                        rect_hits(x as int, y as int, w as int, h as int, a, b)
                            && (a < i as int || (a == i as int && b < j as int + 1)))));
                }
                j = j + 1;
            }
            proof {
                assert(self@ =~~= paint(g0, color, (|a: int, b: int|
                    rect_hits(x as int, y as int, w as int, h as int, a, b)
                        && a < i as int + 1)));
            }
            i = i + 1;
        }
        proof {
            assert(self@ =~~= spec_rect(g0, x as int, y as int, w as int, h as int, color));
        }
        None
    }
}

/// Clamp to the `i32` range.
pub open spec fn sat32(v: int) -> int {
    if v > 0x7fff_ffff {
        0x7fff_ffff
    } else if v < -0x8000_0000 {
        -0x8000_0000
    } else {
        v
    }
}

fn sat_i32(v: i64) -> (r: i32)
    ensures
        r as int == sat32(v as int),
{
    if v > 0x7fff_ffff {
        0x7fff_ffff
    } else if v < -0x8000_0000 {
        -0x8000_0000
    } else {
        v as i32
    }
}

/// The grid after a rectangle outline: the four boundary segments of the
/// box, drawn as lines between the corners (the far corners clamped to the
/// `i32` range).
pub open spec fn spec_rect_outline(
    g: Seq<Seq<bool>>,
    x: int,
    y: int,
    w: int,
    h: int,
    c: bool,
) -> Seq<Seq<bool>> {
    let xe = sat32(x + w);
    let ye = sat32(y + h);
    spec_line(
        spec_line(spec_line(spec_line(g, x, y, xe, y, c), x, ye, xe, ye, c), x, y, x, ye, c),
        xe,
        y,
        xe,
        ye,
        c,
    )
}

/// Whether pixel `(i, j)` is in the filled disk: strictly closer to the
/// center than `r`, within the bounding square inset by one.
pub open spec fn circle_hits(xc: int, yc: int, r: int, i: int, j: int) -> bool {
    &&& xc - r + 1 <= i <= xc + r - 1
    &&& yc - r + 1 <= j <= yc + r - 1
    &&& (i - xc) * (i - xc) + (j - yc) * (j - yc) < r * r
}

/// The grid after a filled-circle request (invalid requests change
/// nothing).
pub open spec fn spec_circle(
    g: Seq<Seq<bool>>,
    xc: int,
    yc: int,
    r: int,
    c: bool,
) -> Seq<Seq<bool>> {
    if xc < 0 || yc < 0 || r < 0 {
        g
    } else {
        paint(g, c, |i: int, j: int| circle_hits(xc, yc, r, i, j))
    }
}

/// The states the midpoint circle walk passes through, starting from
/// `(x, y)` with error accumulator `t1`: each step emits the offset pair
/// `(x, y)`, then increments `y`, adds it to `t1`, and decrements `x`
/// whenever the accumulator reaches `x`.
pub open spec fn jesko_offsets(x: int, y: int, t1: int) -> Seq<(int, int)>
    decreases x - y + 2,
{
    if x < y {
        Seq::empty()
    } else {
        let y2 = y + 1;
        let t1a = t1 + y2;
        if t1a - x >= 0 {
            seq![(x, y)] + jesko_offsets(x - 1, y2, t1a - x)
        } else {
            seq![(x, y)] + jesko_offsets(x, y2, t1a)
        }
    }
}

/// The offsets plotted for a circle outline of radius `r`.
pub open spec fn outline_offsets(r: int) -> Seq<(int, int)> {
    jesko_offsets(r, 0, r / 16)
}

/// The eight symmetric reflections of offset `o` around `(xc, yc)`.
pub open spec fn refl_hits(xc: int, yc: int, o: (int, int), i: int, j: int) -> bool {
    ||| (i == xc + o.0 && j == yc + o.1)
    ||| (i == xc - o.0 && j == yc + o.1)
    ||| (i == xc + o.0 && j == yc - o.1)
    ||| (i == xc - o.0 && j == yc - o.1)
    ||| (i == xc + o.1 && j == yc + o.0)
    ||| (i == xc - o.1 && j == yc + o.0)
    ||| (i == xc + o.1 && j == yc - o.0)
    ||| (i == xc - o.1 && j == yc - o.0)
}

/// Whether pixel `(i, j)` is plotted by one of the first `n` walk steps.
pub open spec fn outline_hits_upto(xc: int, yc: int, r: int, n: int, i: int, j: int) -> bool {
    exists|k: int| 0 <= k < n && refl_hits(xc, yc, #[trigger] outline_offsets(r)[k], i, j)
}

/// Whether pixel `(i, j)` is on the circle outline.
pub open spec fn outline_hits(xc: int, yc: int, r: int, i: int, j: int) -> bool {
    outline_hits_upto(xc, yc, r, outline_offsets(r).len() as int, i, j)
}

/// The grid after a circle-outline request (invalid requests change
/// nothing).
pub open spec fn spec_circle_outline(
    g: Seq<Seq<bool>>,
    xc: int,
    yc: int,
    r: int,
    c: bool,
) -> Seq<Seq<bool>> {
    if xc < 0 || yc < 0 || r < 0 {
        g
    } else {
        paint(g, c, |i: int, j: int| outline_hits(xc, yc, r, i, j))
    }
}

/// The first `t` of the four axis reflections of `o` around `(xc, yc)`.
spec fn refl4_upto(xc: int, yc: int, o: (int, int), t: int, i: int, j: int) -> bool {
    ||| (t >= 1 && i == xc + o.0 && j == yc + o.1)
    ||| (t >= 2 && i == xc - o.0 && j == yc + o.1)
    ||| (t >= 3 && i == xc + o.0 && j == yc - o.1)
    ||| (t >= 4 && i == xc - o.0 && j == yc - o.1)
}

impl Image {
    /// Plot the four axis reflections of the offset `(ox, oy)` around the
    /// center `(xc, yc)`, each write clipped to the canvas.
    #[verifier::rlimit(100)]
    #[verifier::spinoff_prover]
    fn plot4(&mut self, xc: i32, yc: i32, ox: i64, oy: i64, color: bool)
        requires
            old(self).wf(),
            -0x8000_0000_0000 <= ox <= 0x8000_0000_0000,
            -0x8000_0000_0000 <= oy <= 0x8000_0000_0000,
        ensures
            final(self).wf(),
            final(self)@ == paint(old(self)@, color, (|a: int, b: int|
                refl4_upto(xc as int, yc as int, (ox as int, oy as int), 4, a, b))),
    {
        let ghost g0 = self@;
        let ghost cx = xc as int;
        let ghost cy = yc as int;
        let ghost o = (ox as int, oy as int);
        self.write_big(xc as i64 + ox, yc as i64 + oy, color);
        proof {
            assert(self@ =~~= paint(g0, color, (|a: int, b: int|
                refl4_upto(cx, cy, o, 1, a, b))));
        }
        self.write_big(xc as i64 - ox, yc as i64 + oy, color);
        proof {
            assert(self@ =~~= paint(g0, color, (|a: int, b: int|
                refl4_upto(cx, cy, o, 2, a, b))));
        }
        self.write_big(xc as i64 + ox, yc as i64 - oy, color);
        proof {
            assert(self@ =~~= paint(g0, color, (|a: int, b: int|
                refl4_upto(cx, cy, o, 3, a, b))));
        }
        self.write_big(xc as i64 - ox, yc as i64 - oy, color);
        proof {
            assert(self@ =~~= paint(g0, color, (|a: int, b: int|
                refl4_upto(cx, cy, o, 4, a, b))));
        }
    }

    /// Plot the eight symmetric reflections of the offset `(ox, oy)` around
    /// the center `(xc, yc)`, each write clipped to the canvas.
    #[verifier::rlimit(100)]
    #[verifier::spinoff_prover]
    fn plot8(&mut self, xc: i32, yc: i32, ox: i64, oy: i64, color: bool)
        requires
            old(self).wf(),
            -0x8000_0000_0000 <= ox <= 0x8000_0000_0000,
            -0x8000_0000_0000 <= oy <= 0x8000_0000_0000,
        ensures
            final(self).wf(),
            final(self)@ == paint(old(self)@, color, (|a: int, b: int|
                refl_hits(xc as int, yc as int, (ox as int, oy as int), a, b))),
    {
        let ghost g0 = self@;
        let ghost cx = xc as int;
        let ghost cy = yc as int;
        let ghost o = (ox as int, oy as int);
        self.plot4(xc, yc, ox, oy, color);
        self.plot4(xc, yc, oy, ox, color);
        proof {
            assert(self@ =~~= paint(g0, color, (|a: int, b: int|
                refl_hits(cx, cy, o, a, b))));
        }
    }

    /// Draw the outline of the box `[x, x+w] x [y, y+h]` by composing four
    /// lines along its edges.
    pub fn draw_rectangle_outline(&mut self, x: i32, y: i32, w: i32, h: i32, color: bool)
        requires
            old(self).wf(),
        ensures
            final(self).wf(),
            final(self)@ == spec_rect_outline(
                old(self)@,
                x as int,
                y as int,
                w as int,
                h as int,
                color,
            ),
    {
        let xe: i32 = sat_i32(x as i64 + w as i64);
        let ye: i32 = sat_i32(y as i64 + h as i64);
        self.draw_line(x, y, xe, y, color);
        self.draw_line(x, ye, xe, ye, color);
        self.draw_line(x, y, x, ye, color);
        self.draw_line(xe, y, xe, ye, color);
    }

    /// Fill the disk of the given center and radius: every pixel of the
    /// bounding square (inset by one) whose squared distance to the center
    /// is strictly below `radius` squared. Negative center coordinates or a
    /// negative radius are reported and change nothing.
    #[verifier::loop_isolation(false)]
    #[verifier::rlimit(100)]
    pub fn draw_circle(&mut self, xc: i32, yc: i32, radius: i32, color: bool) -> (warn: Option<
        Warn,
    >)
        requires
            old(self).wf(),
        ensures
            final(self).wf(),
            final(self)@ == spec_circle(old(self)@, xc as int, yc as int, radius as int, color),
            warn == (if xc < 0 || yc < 0 { Some(Warn::Coords) } else if radius < 0 {
                Some(Warn::Radius)
            } else { None::<Warn> }),
    {
        if xc < 0 || yc < 0 {
            return Some(Warn::Coords);
        }
        if radius < 0 {
            return Some(Warn::Radius);
        }
        let ghost g0 = self@;
        let width = self.get_width();
        let height = self.get_height();
        let r: i64 = radius as i64;
        let is: i64 = if xc as i64 - r + 1 >= 0 { xc as i64 - r + 1 } else { 0 };
        let ie: i64 = if xc as i64 + r - 1 <= width as i64 - 1 { xc as i64 + r - 1 } else {
            width as i64 - 1
        };
        let js: i64 = if yc as i64 - r + 1 >= 0 { yc as i64 - r + 1 } else { 0 };
        let je: i64 = if yc as i64 + r - 1 <= height as i64 - 1 { yc as i64 + r - 1 } else {
            height as i64 - 1
        };
        let mut i: i64 = is;
        proof {
            assert(self@ =~~= paint(g0, color, (|a: int, b: int|
                circle_hits(xc as int, yc as int, radius as int, a, b) && a < is as int)));
        }
        while i <= ie
            invariant
                is <= i <= ie + 1 || i == is,
                self.wf(),
                self@ == paint(g0, color, (|a: int, b: int|
                    circle_hits(xc as int, yc as int, radius as int, a, b) && a < i as int)),
            decreases ie + 1 - i,
        {
            let mut j: i64 = js;
            proof {
                assert(self@ =~~= paint(g0, color, (|a: int, b: int|
                    circle_hits(xc as int, yc as int, radius as int, a, b)
                        && (a < i as int || (a == i as int && b < js as int)))));
            }
            while j <= je
                invariant
                    js <= j <= je + 1 || j == js,
                    is <= i <= ie,
                    self.wf(),
                    self@ == paint(g0, color, (|a: int, b: int|
                        circle_hits(xc as int, yc as int, radius as int, a, b)
                            && (a < i as int || (a == i as int && b < j as int)))),
                decreases je + 1 - j,
            {
                proof {
                    assert(0 <= (i as int - xc as int) * (i as int - xc as int)
                        <= 0x3fff_ffff_ffff_ffff) by (nonlinear_arith)
                        requires
                            -0x7fff_fffe <= i as int - xc as int <= 0x7fff_fffe,
                    ;
                    assert(0 <= (j as int - yc as int) * (j as int - yc as int)
                        <= 0x3fff_ffff_ffff_ffff) by (nonlinear_arith)
                        requires
                            -0x7fff_fffe <= j as int - yc as int <= 0x7fff_fffe,
                    ;
                    assert(0 <= (radius as int) * (radius as int) <= 0x7fff_ffff_ffff_ffff)
                        by (nonlinear_arith)
                        requires
                            0 <= radius as int <= 0x7fff_ffff,
                    ;
                }
                let di: i64 = i - xc as i64;
                let dj: i64 = j - yc as i64;
                if di * di + dj * dj < r * r {
                    self.write_big(i, j, color);
                }
                proof {
                    assert(self@ =~~= paint(g0, color, (|a: int, b: int|
                        circle_hits(xc as int, yc as int, radius as int, a, b)
                            && (a < i as int || (a == i as int && b < j as int + 1)))));
                }
                j = j + 1;
            }
            proof {
                assert(self@ =~~= paint(g0, color, (|a: int, b: int|
                    circle_hits(xc as int, yc as int, radius as int, a, b)
                        && a < i as int + 1)));
            }
            i = i + 1;
        }
        proof {
            assert(self@ =~~= spec_circle(g0, xc as int, yc as int, radius as int, color));
        }
        None
    }

    /// Draw the circle outline with the integer midpoint walk: `x` starts
    /// at the radius, `y` at zero, and each step plots the eight symmetric
    /// reflections of `(x, y)` around the center. Negative center
    /// coordinates or a negative radius are reported and change nothing.
    #[verifier::loop_isolation(false)]
    #[verifier::rlimit(100)]
    pub fn draw_circle_outline(&mut self, xc: i32, yc: i32, radius: i32, color: bool)
        -> (warn: Option<Warn>)
        requires
            old(self).wf(),
        ensures
            final(self).wf(),
            final(self)@ == spec_circle_outline(
                old(self)@,
                xc as int,
                yc as int,
                radius as int,
                color,
            ),
            warn == (if xc < 0 || yc < 0 { Some(Warn::Coords) } else if radius < 0 {
                Some(Warn::Radius)
            } else { None::<Warn> }),
    {
        if xc < 0 || yc < 0 {
            return Some(Warn::Coords);
        }
        if radius < 0 {
            return Some(Warn::Radius);
        }
        let ghost g0 = self@;
        let ghost full = outline_offsets(radius as int);
        let t1_0: u32 = (radius as u32) / 16;
        let mut t1: i64 = t1_0 as i64;
        let mut xx: i64 = radius as i64;
        let mut yy: i64 = 0;
        let ghost mut n: int = 0;
        proof {
            assert(self@ =~~= paint(g0, color, (|a: int, b: int|
                outline_hits_upto(xc as int, yc as int, radius as int, 0, a, b))));
        }
        while xx >= yy
            invariant
                0 <= yy,
                yy <= xx + 2,
                xx <= radius as i64,
                0 <= t1,
                t1 as int <= t1_0 as int + yy as int * (radius as int + 1),
                jesko_offsets(xx as int, yy as int, t1 as int) == full.skip(n),
                0 <= n <= full.len(),
                self.wf(),
                self@ == paint(g0, color, (|a: int, b: int|
                    outline_hits_upto(xc as int, yc as int, radius as int, n, a, b))),
            decreases xx - yy + 2,
        {
            proof {
                assert(jesko_offsets(xx as int, yy as int, t1 as int).len() > 0);
                assert(full.skip(n)[0] == full[n]);
                assert(full[n] == (xx as int, yy as int));
            }
            self.plot8(xc, yc, xx, yy, color);
            proof {
                assert forall|a: int, b: int|
                    outline_hits_upto(xc as int, yc as int, radius as int, n + 1, a, b)
                        == (outline_hits_upto(xc as int, yc as int, radius as int, n, a, b)
                            || refl_hits(xc as int, yc as int, (xx as int, yy as int), a, b))
                    by {
                    if outline_hits_upto(xc as int, yc as int, radius as int, n, a, b) {
                        let k = choose|k: int| 0 <= k < n
                            && refl_hits(xc as int, yc as int,
                                #[trigger] outline_offsets(radius as int)[k], a, b);
                        assert(0 <= k < n + 1);
                    }
                    if refl_hits(xc as int, yc as int, (xx as int, yy as int), a, b) {
                        assert(refl_hits(xc as int, yc as int,
                            outline_offsets(radius as int)[n], a, b));
                    }
                };
                assert(self@ =~~= paint(g0, color, (|a: int, b: int|
                    outline_hits_upto(xc as int, yc as int, radius as int, n + 1, a, b))));
                assert((yy as int + 1) * (radius as int + 1)
                    == yy as int * (radius as int + 1) + (radius as int + 1))
                    by (nonlinear_arith);
                assert(0 <= (yy as int + 1) * (radius as int + 1) <= 0x7000_0000_0000_0000)
                    by (nonlinear_arith)
                    requires
                        0 <= yy as int + 1 <= 0x8000_0001,
                        0 <= radius as int + 1 <= 0x8000_0000,
                ;
            }
            let ghost skipn = full.skip(n);
            yy = yy + 1;
            t1 = t1 + yy;
            if t1 - xx >= 0 {
                t1 = t1 - xx;
                xx = xx - 1;
            }
            proof {
                n = n + 1;
                assert(jesko_offsets(xx as int, yy as int, t1 as int)
                    =~= skipn.subrange(1, skipn.len() as int));
                assert(skipn.subrange(1, skipn.len() as int) =~= full.skip(n));
            }
        }
        proof {
            assert(jesko_offsets(xx as int, yy as int, t1 as int).len() == 0);
            assert(n == full.len());
            assert(self@ =~~= spec_circle_outline(g0, xc as int, yc as int, radius as int,
                color));
        }
        None
    }
}

/// The smaller / larger of three values.
pub open spec fn imin3(a: int, b: int, c: int) -> int {
    imin(imin(a, b), c)
}

pub open spec fn imax3(a: int, b: int, c: int) -> int {
    imax(imax(a, b), c)
}

/// The coordinate of the quadratic curve through control values `p0`, `p1`,
/// `p2` at parameter `k / 100`, rounded to the nearest integer.
pub open spec fn curve_coord(p0: int, p1: int, p2: int, k: int) -> int {
    rounded_div(
        (100 - k) * (100 - k) * p0 + 2 * (100 - k) * k * p1 + k * k * p2,
        10000,
    )
}

/// Whether pixel `(i, j)` is on the rasterized curve: inside the closed
/// bounding box of the three control points, and hit by one of the 101
/// evenly spaced samples.
pub open spec fn curve_hits(
    x0: int,
    y0: int,
    x1: int,
    y1: int,
    x2: int,
    y2: int,
    i: int,
    j: int,
) -> bool {
    &&& imin3(x0, x1, x2) <= i <= imax3(x0, x1, x2)
    &&& imin3(y0, y1, y2) <= j <= imax3(y0, y1, y2)
    &&& exists|k: int| 0 <= k <= 100 && #[trigger] curve_coord(x0, x1, x2, k) == i
        && curve_coord(y0, y1, y2, k) == j
}

/// The grid after drawing a quadratic curve.
pub open spec fn spec_curve(
    g: Seq<Seq<bool>>,
    x0: int,
    y0: int,
    x1: int,
    y1: int,
    x2: int,
    y2: int,
    c: bool,
) -> Seq<Seq<bool>> {
    paint(g, c, |i: int, j: int| curve_hits(x0, y0, x1, y1, x2, y2, i, j))
}

/// Exact curve sampling on machine integers.
fn curve_coord_exec(p0: i32, p1: i32, p2: i32, k: i32) -> (r: i128)
    requires
        0 <= k <= 100,
    ensures
        r as int == curve_coord(p0 as int, p1 as int, p2 as int, k as int),
{
    let u: i128 = (100 - k) as i128;
    let kk: i128 = k as i128;
    proof {
        assert(0 <= u as int * u as int <= 10000 && 0 <= kk as int * kk as int <= 10000
            && 0 <= u as int * kk as int <= 10000) by (nonlinear_arith)
            requires
                0 <= u as int <= 100,
                0 <= kk as int <= 100,
        ;
        assert(-0x8_0000_0000_0000 <= (u as int * u as int) * p0 as int <= 0x8_0000_0000_0000)
            by (nonlinear_arith)
            requires
                0 <= u as int * u as int <= 10000,
                -0x8000_0000 <= p0 as int <= 0x8000_0000,
        ;
        assert(-0x8_0000_0000_0000 <= (u as int * kk as int) * p1 as int
            <= 0x8_0000_0000_0000) by (nonlinear_arith)
            requires
                0 <= u as int * kk as int <= 10000,
                -0x8000_0000 <= p1 as int <= 0x8000_0000,
        ;
        assert(-0x8_0000_0000_0000 <= (kk as int * kk as int) * p2 as int
            <= 0x8_0000_0000_0000) by (nonlinear_arith)
            requires
                0 <= kk as int * kk as int <= 10000,
                -0x8000_0000 <= p2 as int <= 0x8000_0000,
        ;
    }
    let num: i128 = u * u * (p0 as i128) + 2 * (u * kk * (p1 as i128)) + kk * kk * (p2 as i128);
    proof {
        assert(num as int == (100 - k as int) * (100 - k as int) * (p0 as int)
            + 2 * (100 - k as int) * (k as int) * (p1 as int)
            + (k as int) * (k as int) * (p2 as int)) by (nonlinear_arith)
            requires
                u as int == 100 - k as int,
                kk as int == k as int,
                num as int == (u as int) * (u as int) * (p0 as int)
                    + 2 * ((u as int) * (kk as int) * (p1 as int))
                    + (kk as int) * (kk as int) * (p2 as int),
        ;
    }
    rounded_div_exec(num, 10000)
}

impl Image {
    /// Rasterize the quadratic curve with the three given control points by
    /// scanning every pixel of their bounding box and sampling 101 evenly
    /// spaced parameter values; a pixel is drawn when some sample rounds to
    /// it.
    #[verifier::loop_isolation(false)]
    #[verifier::rlimit(100)]
    pub fn draw_curve(
        &mut self,
        x0: i32,
        y0: i32,
        x1: i32,
        y1: i32,
        x2: i32,
        y2: i32,
        color: bool,
    )
        requires
            old(self).wf(),
        ensures
            final(self).wf(),
            final(self)@ == spec_curve(
                old(self)@,
                x0 as int,
                y0 as int,
                x1 as int,
                y1 as int,
                x2 as int,
                y2 as int,
                color,
            ),
    {
        let ghost g0 = self@;
        let sx: i32 = if x0 <= x1 && x0 <= x2 { x0 } else if x1 <= x2 { x1 } else { x2 };
        let ex: i32 = if x0 >= x1 && x0 >= x2 { x0 } else if x1 >= x2 { x1 } else { x2 };
        let sy: i32 = if y0 <= y1 && y0 <= y2 { y0 } else if y1 <= y2 { y1 } else { y2 };
        let ey: i32 = if y0 >= y1 && y0 >= y2 { y0 } else if y1 >= y2 { y1 } else { y2 };
        let mut i: i64 = sx as i64;
        proof {
            assert(self@ =~~= paint(g0, color, (|a: int, b: int|
                curve_hits(x0 as int, y0 as int, x1 as int, y1 as int, x2 as int, y2 as int,
                    a, b) && a < sx as int)));
        }
        while i <= ex as i64
            invariant
                sx as i64 <= i,
                i <= ex as i64 + 1 || i == sx as i64,
                self.wf(),
                self@ == paint(g0, color, (|a: int, b: int|
                    curve_hits(x0 as int, y0 as int, x1 as int, y1 as int, x2 as int,
                        y2 as int, a, b) && a < i as int)),
            decreases ex as i64 + 1 - i,
        {
            let mut j: i64 = sy as i64;
            proof {
                assert(self@ =~~= paint(g0, color, (|a: int, b: int|
                    curve_hits(x0 as int, y0 as int, x1 as int, y1 as int, x2 as int,
                        y2 as int, a, b)
                        && (a < i as int || (a == i as int && b < sy as int)))));
            }
            while j <= ey as i64
                invariant
                    sy as i64 <= j,
                    j <= ey as i64 + 1 || j == sy as i64,
                    sx as i64 <= i <= ex as i64,
                    self.wf(),
                    self@ == paint(g0, color, (|a: int, b: int|
                        curve_hits(x0 as int, y0 as int, x1 as int, y1 as int, x2 as int,
                            y2 as int, a, b)
                            && (a < i as int || (a == i as int && b < j as int)))),
                decreases ey as i64 + 1 - j,
            {
                let mut found = false;
                let mut k: i32 = 0;
                while k <= 100
                    invariant
                        0 <= k <= 101,
                        found == exists|t: int| 0 <= t < k as int
                            && #[trigger] curve_coord(x0 as int, x1 as int, x2 as int, t)
                                == i as int
                            && curve_coord(y0 as int, y1 as int, y2 as int, t) == j as int,
                    decreases 101 - k,
                {
                    let cx = curve_coord_exec(x0, x1, x2, k);
                    let cy = curve_coord_exec(y0, y1, y2, k);
                    if cx == i as i128 && cy == j as i128 {
                        found = true;
                    }
                    k = k + 1;
                }
                if found {
                    self.write_big(i, j, color);
                }
                proof {
                    assert(self@ =~~= paint(g0, color, (|a: int, b: int|
                        curve_hits(x0 as int, y0 as int, x1 as int, y1 as int, x2 as int,
                            y2 as int, a, b)
                            && (a < i as int || (a == i as int && b < j as int + 1)))));
                }
                j = j + 1;
            }
            proof {
                assert(self@ =~~= paint(g0, color, (|a: int, b: int|
                    curve_hits(x0 as int, y0 as int, x1 as int, y1 as int, x2 as int,
                        y2 as int, a, b) && a < i as int + 1)));
            }
            i = i + 1;
        }
        proof {
            assert(self@ =~~= spec_curve(g0, x0 as int, y0 as int, x1 as int, y1 as int,
                x2 as int, y2 as int, color));
        }
    }
}

} // verus!
