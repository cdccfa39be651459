//! The pixel grid: storage, bounds handling, and the whole-grid operations
//! (clear, invert, resize, flood fill).

use vstd::prelude::*;

verus! {

/// A rectangular grid of boolean pixels, addressed as `grid[y][x]`.
/// `true` is the foreground ("on") color, `false` the background.
pub struct Image {
    grid: Vec<Vec<bool>>,
}

/// The grid invariant: at least one row, at least one column, and every row
/// has the same length. Dimensions stay below `i32::MAX` so that coordinates
/// expressed as `i32` can address every cell.
pub open spec fn grid_wf(g: Seq<Seq<bool>>) -> bool {
    &&& 1 <= g.len() <= 0x7fff_ffff
    &&& 1 <= g[0].len() <= 0x7fff_ffff
    &&& forall|y: int| 0 <= y < g.len() ==> (#[trigger] g[y]).len() == g[0].len()
}

/// Whether `(x, y)` addresses a cell of `g`.
pub open spec fn in_grid(g: Seq<Seq<bool>>, x: int, y: int) -> bool {
    0 <= y < g.len() && 0 <= x < g[0].len()
}

/// A single guarded pixel write: out-of-range coordinates (negative or past
/// the high edge) leave the grid unchanged.
pub open spec fn spec_write(g: Seq<Seq<bool>>, x: int, y: int, c: bool) -> Seq<Seq<bool>> {
    if in_grid(g, x, y) {
        g.update(y, g[y].update(x, c))
    } else {
        g
    }
}

/// A single guarded pixel flip, with the same clipping as `spec_write`.
pub open spec fn spec_flip(g: Seq<Seq<bool>>, x: int, y: int) -> Seq<Seq<bool>> {
    if in_grid(g, x, y) {
        g.update(y, g[y].update(x, !g[y][x]))
    } else {
        g
    }
}

/// Every cell set to `c`; dimensions kept.
pub open spec fn spec_clear(g: Seq<Seq<bool>>, c: bool) -> Seq<Seq<bool>> {
    Seq::new(g.len(), |y: int| Seq::new(g[y].len(), |x: int| c))
}

/// Every cell negated; dimensions kept.
pub open spec fn spec_invert(g: Seq<Seq<bool>>) -> Seq<Seq<bool>> {
    Seq::new(g.len(), |y: int| Seq::new(g[y].len(), |x: int| !g[y][x]))
}

/// The grid resized to `w` columns and `h` rows: cells that existed before
/// keep their color, cells gained on either axis are "off". Non-positive
/// dimensions are rejected and leave the grid unchanged.
pub open spec fn spec_resize(g: Seq<Seq<bool>>, w: int, h: int) -> Seq<Seq<bool>> {
    if w < 1 || h < 1 {
        g
    } else {
        Seq::new(h as nat, |y: int| Seq::new(w as nat, |x: int|
            if in_grid(g, x, y) { g[y][x] } else { false }))
    }
}

impl View for Image {
    type V = Seq<Seq<bool>>;

    closed spec fn view(&self) -> Seq<Seq<bool>> {
        Seq::new(self.grid@.len(), |y: int| self.grid@[y]@)
    }
}

impl Image {
    pub open spec fn wf(&self) -> bool {
        grid_wf(self@)
    }

    /// Build a `width` by `height` grid with every cell set to `color`.
    /// Non-positive dimensions are a construction-time invariant violation,
    /// so they are excluded outright.
    #[verifier::loop_isolation(false)]
    pub fn new(width: i32, height: i32, color: bool) -> (img: Image)
        requires
            1 <= width,
            1 <= height,
        ensures
            img.wf(),
            img@.len() == height as int,
            img@[0].len() == width as int,
            forall|x: int, y: int| in_grid(img@, x, y) ==> img@[y][x] == color,
    {
        let mut grid: Vec<Vec<bool>> = Vec::new();
        let mut y: i32 = 0;
        while y < height
            invariant
                0 <= y <= height,
                grid@.len() == y as int,
                forall|j: int| 0 <= j < y as int ==> (#[trigger] grid@[j])@.len() == width as int,
                forall|j: int, i: int| 0 <= j < y as int && 0 <= i < width as int
                    ==> #[trigger] grid@[j]@[i] == color,
            decreases height - y,
        {
            let mut row: Vec<bool> = Vec::new();
            let mut x: i32 = 0;
            while x < width
                invariant
                    0 <= x <= width,
                    row@.len() == x as int,
                    forall|i: int| 0 <= i < x as int ==> row@[i] == color,
                decreases width - x,
            {
                row.push(color);
                x = x + 1;
            }
            grid.push(row);
            y = y + 1;
        }
        let img = Image { grid };
        assert(forall|x: int, y: int| in_grid(img@, x, y) ==> img@[y][x] == color);
        img
    }

    /// Number of columns, read off row 0.
    pub fn get_width(&self) -> (w: usize)
        requires
            self.wf(),
        ensures
            w == self@[0].len(),
    {
        self.grid[0].len()
    }

    /// Number of rows.
    pub fn get_height(&self) -> (h: usize)
        requires
            self.wf(),
        ensures
            h == self@.len(),
    {
        self.grid.len()
    }

    /// Read one cell. Out-of-range coordinates are the caller's
    /// responsibility and are excluded here.
    pub fn read_pixel(&self, x: i32, y: i32) -> (c: bool)
        requires
            self.wf(),
            in_grid(self@, x as int, y as int),
        ensures
            c == self@[y as int][x as int],
    {
        proof {
            assert(self@[y as int] == self.grid@[y as int]@);
            assert(self.grid@[y as int]@.len() == self@[0].len());
        }
        self.grid[y as usize][x as usize]
    }

    /// Write one cell. Negative coordinates are reported (result `false`)
    /// and ignored; coordinates past the high edge are silently clipped, so
    /// rasterizers may overscan the canvas.
    pub fn write_pixel(&mut self, x: i32, y: i32, color: bool) -> (ok: bool)
        requires
            old(self).wf(),
        ensures
            final(self).wf(),
            final(self)@ == spec_write(old(self)@, x as int, y as int, color),
            ok == !(x < 0 || y < 0),
    {
        if x < 0 || y < 0 {
            return false;
        }
        if (x as usize) >= self.grid[0].len() || (y as usize) >= self.grid.len() {
            return true;
        }
        proof {
            assert(self@[y as int] == self.grid@[y as int]@);
            assert(self.grid@[y as int]@.len() == self@[0].len());
        }
        self.grid[y as usize][x as usize] = color;
        assert(self@ =~~= spec_write(old(self)@, x as int, y as int, color));
        true
    }

    /// Flip one cell, with the same guards as `write_pixel`.
    pub fn flip_pixel(&mut self, x: i32, y: i32) -> (ok: bool)
        requires
            old(self).wf(),
        ensures
            final(self).wf(),
            final(self)@ == spec_flip(old(self)@, x as int, y as int),
            ok == !(x < 0 || y < 0),
    {
        if x < 0 || y < 0 {
            return false;
        }
        if (x as usize) >= self.grid[0].len() || (y as usize) >= self.grid.len() {
            return true;
        }
        proof {
            assert(self@[y as int] == self.grid@[y as int]@);
            assert(self.grid@[y as int]@.len() == self@[0].len());
        }
        let a: bool = self.grid[y as usize][x as usize];
        self.grid[y as usize][x as usize] = !a;
        assert(self@ =~~= spec_flip(old(self)@, x as int, y as int));
        true
    }

    /// Set every cell to `color`.
    #[verifier::loop_isolation(false)]
    pub fn clear(&mut self, color: bool)
        requires
            old(self).wf(),
        ensures
            final(self).wf(),
            final(self)@ == spec_clear(old(self)@, color),
    {
        let height = self.grid.len();
        let width = self.grid[0].len();
        let mut grid: Vec<Vec<bool>> = Vec::new();
        let mut y: usize = 0;
        while y < height
            invariant
                0 <= y <= height,
                grid@.len() == y as int,
                forall|j: int| 0 <= j < y as int ==> (#[trigger] grid@[j])@.len() == width as int,
                forall|j: int, i: int| 0 <= j < y as int && 0 <= i < width as int
                    ==> #[trigger] grid@[j]@[i] == color,
            decreases height - y,
        {
            let mut row: Vec<bool> = Vec::new();
            let mut x: usize = 0;
            while x < width
                invariant
                    0 <= x <= width,
                    row@.len() == x as int,
                    forall|i: int| 0 <= i < x as int ==> row@[i] == color,
                decreases width - x,
            {
                row.push(color);
                x = x + 1;
            }
            grid.push(row);
            y = y + 1;
        }
        self.grid = grid;
        assert(self@ =~~= spec_clear(old(self)@, color));
    }

    /// Change the canvas to `w` columns and `h` rows. Kept cells keep their
    /// color; new cells on either axis are "off", never the image's current
    /// fill. Non-positive dimensions are reported (result `false`) and leave
    /// the image unchanged.
    #[verifier::loop_isolation(false)]
    pub fn resize(&mut self, w: i32, h: i32) -> (ok: bool)
        requires
            old(self).wf(),
        ensures
            final(self).wf(),
            final(self)@ == spec_resize(old(self)@, w as int, h as int),
            ok == (w >= 1 && h >= 1),
    {
        if w < 1 || h < 1 {
            return false;
        }
        let old_h = self.grid.len();
        let old_w = self.grid[0].len();
        let mut grid: Vec<Vec<bool>> = Vec::new();
        let mut y: usize = 0;
        while y < h as usize
            invariant
                0 <= y <= h as int,
                grid@.len() == y as int,
                forall|j: int| 0 <= j < y as int ==> (#[trigger] grid@[j])@.len() == w as int,
                forall|j: int, i: int| 0 <= j < y as int && 0 <= i < w as int
                    ==> #[trigger] grid@[j]@[i]
                        == (if in_grid(self@, i, j) { self@[j][i] } else { false }),
            decreases h as int - y as int,
        {
            let mut row: Vec<bool> = Vec::new();
            let mut x: usize = 0;
            while x < w as usize
                invariant
                    0 <= x <= w as int,
                    y < h as usize,
                    row@.len() == x as int,
                    forall|i: int| 0 <= i < x as int
                        ==> #[trigger] row@[i]
                            == (if in_grid(self@, i, y as int) { self@[y as int][i] } else {
                                false
                            }),
                decreases w as int - x as int,
            {
                let cell: bool = if x < old_w && y < old_h {
                    proof {
                        assert(self@[y as int] == self.grid@[y as int]@);
                        assert(self.grid@[y as int]@.len() == self@[0].len());
                    }
                    self.grid[y][x]
                } else {
                    false
                };
                row.push(cell);
                x = x + 1;
            }
            grid.push(row);
            y = y + 1;
        }
        self.grid = grid;
        assert(self@ =~~= spec_resize(old(self)@, w as int, h as int));
        true
    }

    /// Negate every cell.
    #[verifier::loop_isolation(false)]
    pub fn invert(&mut self)
        requires
            old(self).wf(),
        ensures
            final(self).wf(),
            final(self)@ == spec_invert(old(self)@),
    {
        let height = self.grid.len();
        let width = self.grid[0].len();
        let mut grid: Vec<Vec<bool>> = Vec::new();
        let mut y: usize = 0;
        while y < height
            invariant
                0 <= y <= height,
                grid@.len() == y as int,
                forall|j: int| 0 <= j < y as int ==> (#[trigger] grid@[j])@.len() == width as int,
                forall|j: int, i: int| 0 <= j < y as int && 0 <= i < width as int
                    ==> #[trigger] grid@[j]@[i] == !self@[j][i],
            decreases height - y,
        {
            let mut row: Vec<bool> = Vec::new();
            let mut x: usize = 0;
            while x < width
                invariant
                    0 <= x <= width,
                    y < height,
                    row@.len() == x as int,
                    forall|i: int| 0 <= i < x as int ==> #[trigger] row@[i] == !self@[y as int][i],
                decreases width - x,
            {
                proof {
                    assert(self@[y as int] == self.grid@[y as int]@);
                    assert(self.grid@[y as int]@.len() == self@[0].len());
                }
                row.push(!self.grid[y][x]);
                x = x + 1;
            }
            grid.push(row);
            y = y + 1;
        }
        self.grid = grid;
        assert(self@ =~~= spec_invert(old(self)@));
    }

    /// Every cell coordinate in row-major order: entry `y * width + x` is
    /// `(x, y)`.
    #[verifier::loop_isolation(false)]
    pub fn get_pixel_coordinates(&self) -> (r: Vec<(i32, i32)>)
        requires
            self.wf(),
            self@.len() * self@[0].len() <= usize::MAX,
        ensures
            r@.len() == self@.len() * self@[0].len(),
            forall|x: int, y: int| in_grid(self@, x, y)
                ==> r@[y * self@[0].len() + x] == (x as i32, y as i32),
    {
        let height = self.grid.len();
        let width = self.grid[0].len();
        let mut r: Vec<(i32, i32)> = Vec::new();
        let mut y: usize = 0;
        while y < height
            invariant
                0 <= y <= height,
                r@.len() == y as int * width as int,
                y as int * width as int <= height as int * width as int,
                forall|i: int, j: int| 0 <= j < y as int && 0 <= i < width as int
                    ==> #[trigger] r@[j * width as int + i] == (i as i32, j as i32),
            decreases height - y,
        {
            let mut x: usize = 0;
            proof {
                assert((y as int + 1) * width as int == y as int * width as int + width as int)
                    by (nonlinear_arith);
                assert((y as int + 1) * width as int <= height as int * width as int)
                    by (nonlinear_arith)
                    requires
                        y as int + 1 <= height as int,
                        width as int >= 0,
                ;
            }
            while x < width
                invariant
                    0 <= x <= width,
                    y < height,
                    r@.len() == y as int * width as int + x as int,
                    forall|i: int, j: int| 0 <= j < y as int && 0 <= i < width as int
                        ==> #[trigger] r@[j * width as int + i] == (i as i32, j as i32),
                    forall|i: int| 0 <= i < x as int
                        ==> #[trigger] r@[y as int * width as int + i] == (i as i32, y as i32),
                decreases width - x,
            {
                proof {
                    assert forall|i: int, j: int| 0 <= j < y as int && 0 <= i < width as int
                        implies #[trigger] (j * width as int + i) < y as int * width as int by {
                        assert(j * width as int + i < y as int * width as int)
                            by (nonlinear_arith)
                            requires
                                0 <= j,
                                j < y as int,
                                0 <= i,
                                i < width as int,
                        ;
                    };
                }
                r.push((x as i32, y as i32));
                x = x + 1;
            }
            y = y + 1;
        }
        r
    }
}

impl Image {
    /// A structural copy of the grid, for change detection snapshots.
    #[verifier::loop_isolation(false)]
    pub fn duplicate(&self) -> (r: Image)
        requires
            self.wf(),
        ensures
            r.wf(),
            r@ == self@,
    {
        let height = self.grid.len();
        let width = self.grid[0].len();
        let mut grid: Vec<Vec<bool>> = Vec::new();
        let mut y: usize = 0;
        while y < height
            invariant
                0 <= y <= height,
                grid@.len() == y as int,
                forall|j: int| 0 <= j < y as int ==> (#[trigger] grid@[j])@.len() == width as int,
                forall|j: int, i: int| 0 <= j < y as int && 0 <= i < width as int
                    ==> #[trigger] grid@[j]@[i] == self@[j][i],
            decreases height - y,
        {
            let mut row: Vec<bool> = Vec::new();
            let mut x: usize = 0;
            while x < width
                invariant
                    0 <= x <= width,
                    y < height,
                    row@.len() == x as int,
                    forall|i: int| 0 <= i < x as int ==> #[trigger] row@[i] == self@[y as int][i],
                decreases width - x,
            {
                proof {
                    assert(self@[y as int] == self.grid@[y as int]@);
                    assert(self.grid@[y as int]@.len() == self@[0].len());
                }
                row.push(self.grid[y][x]);
                x = x + 1;
            }
            grid.push(row);
            y = y + 1;
        }
        let r = Image { grid };
        assert(r@ =~~= self@);
        r
    }

    /// Whether two images hold exactly the same grid.
    #[verifier::loop_isolation(false)]
    pub fn same_grid(&self, other: &Image) -> (r: bool)
        requires
            self.wf(),
            other.wf(),
        ensures
            r == (self@ == other@),
    {
        let height = self.grid.len();
        let width = self.grid[0].len();
        if height != other.grid.len() || width != other.grid[0].len() {
            return false;
        }
        let mut y: usize = 0;
        while y < height
            invariant
                0 <= y <= height,
                height == self@.len() == other@.len(),
                width == self@[0].len() == other@[0].len(),
                forall|j: int, i: int| 0 <= j < y as int && 0 <= i < width as int
                    ==> #[trigger] self@[j][i] == other@[j][i],
            decreases height - y,
        {
            let mut x: usize = 0;
            while x < width
                invariant
                    0 <= x <= width,
                    y < height,
                    forall|i: int| 0 <= i < x as int
                        ==> #[trigger] self@[y as int][i] == other@[y as int][i],
                decreases width - x,
            {
                if self.read_pixel(x as i32, y as i32) != other.read_pixel(x as i32, y as i32) {
                    return false;
                }
                x = x + 1;
            }
            y = y + 1;
        }
        proof {
            assert(self@ =~~= other@);
        }
        true
    }
}

/// Inverting an image twice restores it exactly.
pub proof fn lemma_invert_involutive(g: Seq<Seq<bool>>)
    ensures
        spec_invert(spec_invert(g)) == g,
{
    assert(spec_invert(spec_invert(g)) =~~= g);
}

/// A guarded write followed by a read at the same in-bounds coordinate
/// returns the written value; an out-of-bounds write changes neither the
/// dimensions nor any cell.
pub proof fn lemma_write_then_read(g: Seq<Seq<bool>>, x: int, y: int, c: bool)
    requires
        grid_wf(g),
    ensures
        grid_wf(spec_write(g, x, y, c)),
        in_grid(g, x, y) ==> spec_write(g, x, y, c)[y][x] == c,
        !in_grid(g, x, y) ==> spec_write(g, x, y, c) == g,
        spec_write(g, x, y, c).len() == g.len(),
        forall|j: int| 0 <= j < g.len() ==> (#[trigger] spec_write(g, x, y, c)[j]).len()
            == g[j].len(),
        forall|i: int, j: int| in_grid(g, i, j) && (i != x || j != y)
            ==> #[trigger] spec_write(g, x, y, c)[j][i] == g[j][i],
{
}

/// Resizing and then resizing back to the original dimensions restores the
/// dimensions (the content of regrown cells is "off", not restored).
pub proof fn lemma_resize_restores_dims(g: Seq<Seq<bool>>, w: int, h: int)
    requires
        grid_wf(g),
    ensures
        spec_resize(spec_resize(g, w, h), g[0].len() as int, g.len() as int).len() == g.len(),
        spec_resize(spec_resize(g, w, h), g[0].len() as int, g.len() as int)[0].len()
            == g[0].len(),
{
}

} // verus!
