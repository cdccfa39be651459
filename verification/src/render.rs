//! Rendering the grid as a framed, human-readable block of text.

use vstd::prelude::*;
use crate::image::Image;

verus! {

/// The glyphs of one row: each cell replaced by the fill or background
/// glyph.
pub open spec fn spec_row_glyphs(row: Seq<bool>, fg: Seq<char>, bg: Seq<char>) -> Seq<char>
    decreases row.len(),
{
    if row.len() == 0 {
        Seq::empty()
    } else {
        (if row[0] { fg } else { bg }) + spec_row_glyphs(row.skip(1), fg, bg)
    }
}

/// All rows rendered in order, each wrapped in the vertical rule and ended
/// with a newline.
pub open spec fn spec_rows(
    g: Seq<Seq<bool>>,
    fg: Seq<char>,
    bg: Seq<char>,
    vert: Seq<char>,
) -> Seq<char>
    decreases g.len(),
{
    if g.len() == 0 {
        Seq::empty()
    } else {
        vert + spec_row_glyphs(g[0], fg, bg) + vert + seq!['\n'] + spec_rows(g.skip(1), fg, bg,
            vert)
    }
}

/// The horizontal rule of a framed rendering: a `+`, `2 * width` dashes,
/// and a `+`.
pub open spec fn spec_horiz(width: int) -> Seq<char> {
    seq!['+'] + Seq::new((2 * width) as nat, |t: int| '-') + seq!['+']
}

/// The full rendering: the (possibly empty) horizontal rule, a newline, the
/// rows, and the rule again.
pub open spec fn spec_render(g: Seq<Seq<bool>>, fg: Seq<char>, bg: Seq<char>, frame: bool)
    -> Seq<char> {
    let vert = if frame { seq!['|'] } else { Seq::<char>::empty() };
    let horiz = if frame { spec_horiz(g[0].len() as int) } else { Seq::<char>::empty() };
    horiz + seq!['\n'] + spec_rows(g, fg, bg, vert) + horiz
}

impl Image {
    /// Render the grid: one line per row, each cell replaced by
    /// `fill_color` or `background_color`; when `frame` is set the block is
    /// wrapped in a one-character rule sized to twice the width.
    #[verifier::loop_isolation(false)]
    #[verifier::rlimit(60)]
    pub fn get_human_readable(&self, fill_color: &str, background_color: &str, frame: bool)
        -> (r: String)
        requires
            self.wf(),
        ensures
            r@ == spec_render(self@, fill_color@, background_color@, frame),
    {
        let width = self.get_width();
        let height = self.get_height();
        let ghost fg = fill_color@;
        let ghost bg = background_color@;
        proof {
            reveal_strlit("|");
            reveal_strlit("+");
            reveal_strlit("-");
            reveal_strlit("\n");
            reveal_strlit("");
        }
        let vert: &str = if frame { "|" } else { "" };
        let ghost vs = vert@;
        let mut horiz = String::new();
        if frame {
            horiz.append("+");
            let mut k: u64 = 0;
            while k < 2 * (width as u64)
                invariant
                    0 <= k <= 2 * (width as u64),
                    horiz@ =~= seq!['+'] + Seq::new(k as nat, |t: int| '-'),
                decreases 2 * (width as u64) - k,
            {
                horiz.append("-");
                proof {
                    assert(horiz@ =~= seq!['+'] + Seq::new((k + 1) as nat, |t: int| '-'));
                }
                k = k + 1;
            }
            horiz.append("+");
            proof {
                assert(horiz@ =~= spec_horiz(width as int));
            }
        }
        let ghost hz = horiz@;
        let mut out = String::new();
        out.append(horiz.as_str());
        out.append("\n");
        let mut y: usize = 0;
        proof {
            assert(out@ =~= hz + seq!['\n']);
            assert(self@.skip(0) =~= self@);
        }
        while y < height
            invariant
                0 <= y <= height,
                out@ + spec_rows(self@.skip(y as int), fg, bg, vs)
                    =~= hz + seq!['\n'] + spec_rows(self@, fg, bg, vs),
            decreases height - y,
        {
            out.append(vert);
            let mut x: usize = 0;
            let ghost row = self@[y as int];
            proof {
                assert(row.skip(0) =~= row);
            }
            proof {
                assert(self@.skip(y as int)[0] =~= row);
                assert(self@.skip(y as int).skip(1) =~= self@.skip(y as int + 1));
            }
            while x < width
                invariant
                    0 <= x <= width,
                    y < height,
                    out@ + spec_row_glyphs(row.skip(x as int), fg, bg) + vs + seq!['\n']
                        + spec_rows(self@.skip(y as int + 1), fg, bg, vs)
                        =~= hz + seq!['\n'] + spec_rows(self@, fg, bg, vs),
                decreases width - x,
            {
                let cell = self.read_pixel(x as i32, y as i32);
                if cell {
                    out.append(fill_color);
                } else {
                    out.append(background_color);
                }
                proof {
                    assert(row.skip(x as int).skip(1) =~= row.skip(x as int + 1));
                    assert(row.skip(x as int)[0] == row[x as int]);
                }
                x = x + 1;
            }
            out.append(vert);
            out.append("\n");
            proof {
                assert(spec_row_glyphs(row.skip(width as int), fg, bg) =~= Seq::<char>::empty());
            }
            y = y + 1;
        }
        out.append(horiz.as_str());
        proof {
            assert(spec_rows(self@.skip(height as int), fg, bg, vs) =~= Seq::<char>::empty());
            if frame {
                assert(vs =~= seq!['|']);
                assert(hz =~= spec_horiz(self@[0].len() as int));
            } else {
                assert(vs =~= Seq::<char>::empty());
                assert(hz =~= Seq::<char>::empty());
            }
            assert(out@ =~= hz + seq!['\n'] + spec_rows(self@, fg, bg, vs) + hz);
            assert(out@ =~= spec_render(self@, fg, bg, frame));
        }
        out
    }
}

} // verus!
