//! Mosaic sampling: one flat tile for every `step`-th pixel of each axis.
use vstd::prelude::*;
use crate::color::{Hsv, Hsva, add_hue_offset, add_hue_offset_spec, tile_offset, tile_offset_spec};

verus! {

/// The colors of an image, one per pixel, in row-major order.
pub struct SampleGrid {
    pub width: usize,
    pub height: usize,
    pub samples: Vec<Hsva>,
}

/// A square of one color to be drawn with its top left corner at `(x, y)`.
#[derive(Clone, Copy, Debug, PartialEq, Eq, Structural)]
pub struct Tile {
    pub x: usize,
    pub y: usize,
    pub size: usize,
    pub color: Hsv,
}

/// The number of multiples of `b` below `a`: `a / b` rounded up.
pub open spec fn ceil_div(a: int, b: int) -> int {
    a / b + if a % b == 0 {
        0int
    } else {
        1int
    }
}

/// The tile at tile row `r`, tile column `c` of a mosaic of `samples` (an image
/// `width` wide and `height` high) with tiles of `step` pixels, the image
/// scrolled up by `scroll` rows, every color shifted by `offset` and then by the
/// tile's own position-dependent hue shift.
pub open spec fn tile_spec(
    samples: Seq<Hsva>,
    width: int,
    height: int,
    step: int,
    scroll: int,
    offset: Hsv,
    r: int,
    c: int,
) -> Tile {
    let x = c * step;
    let y = r * step;
    let source = ((y + scroll) % height) * width + x;
    Tile {
        x: x as usize,
        y: y as usize,
        size: step as usize,
        color: add_hue_offset_spec(
            add_hue_offset_spec(samples[source].color, offset),
            tile_offset_spec(x, y, width, height),
        ),
    }
}

/// All tiles of the mosaic, row by row, each row from left to right.
pub open spec fn mosaic_spec(
    samples: Seq<Hsva>,
    width: int,
    height: int,
    step: int,
    scroll: int,
    offset: Hsv,
) -> Seq<Tile> {
    let cols = ceil_div(width, step);
    Seq::new(
        (ceil_div(height, step) * cols) as nat,
        |k: int| tile_spec(samples, width, height, step, scroll, offset, k / cols, k % cols),
    )
}

proof fn lemma_ceil_div_bound(a: int, s: int, i: int)
    requires
        a >= 0,
        s > 0,
        0 <= i < ceil_div(a, s),
    ensures
        0 <= i * s < a,
{
    let q = a / s;
    vstd::arithmetic::div_mod::lemma_fundamental_div_mod(a, s);
    assert(0 <= a % s < s);
    assert(q >= 0) by (nonlinear_arith)
        requires
            a >= 0,
            s > 0,
            q == a / s,
    ;
    if i < q {
        assert(i * s <= (q - 1) * s) by (nonlinear_arith)
            requires
                i <= q - 1,
                s > 0,
        ;
        assert((q - 1) * s == s * q - s) by (nonlinear_arith);
    } else {
        assert(i == q);
        assert(i * s == s * q) by (nonlinear_arith)
            requires
                i == q,
        ;
    }
    assert(0 <= i * s) by (nonlinear_arith)
        requires
            i >= 0,
            s > 0,
    ;
}

proof fn lemma_ceil_div_nonneg(a: int, s: int)
    requires
        a >= 0,
        s > 0,
    ensures
        0 <= ceil_div(a, s) <= a,
{
    let q = a / s;
    vstd::arithmetic::div_mod::lemma_fundamental_div_mod(a, s);
    assert(q <= s * q) by (nonlinear_arith)
        requires
            a >= 0,
            s > 0,
            q == a / s,
    ;
    assert(a / s >= 0) by (nonlinear_arith)
        requires
            a >= 0,
            s > 0,
    ;
}

proof fn lemma_cell_in_grid(row: int, x: int, width: int, height: int)
    requires
        0 <= row < height,
        0 <= x < width,
    ensures
        0 <= row * width,
        0 <= row * width + x < width * height,
{
    assert(0 <= row * width) by (nonlinear_arith)
        requires
            0 <= row,
            0 <= x < width,
    ;
    assert(0 <= row * width + x < width * height) by (nonlinear_arith)
        requires
            0 <= row < height,
            0 <= x < width,
    ;
}

proof fn lemma_split_index(r: int, c: int, cols: int)
    requires
        0 <= c < cols,
        r >= 0,
    ensures
        (r * cols + c) / cols == r,
        (r * cols + c) % cols == c,
{
    vstd::arithmetic::div_mod::lemma_fundamental_div_mod_converse(r * cols + c, cols, r, c);
}

impl SampleGrid {
    /// One sample for each of the `width * height` pixels.
    pub open spec fn wf(&self) -> bool {
        self.samples@.len() == self.width * self.height
    }

    /// A grid of the given size, if `samples` holds exactly one sample per pixel.
    pub fn new(width: usize, height: usize, samples: Vec<Hsva>) -> (r: Option<SampleGrid>)
        ensures
            r is Some <==> samples@.len() == width * height,
            r matches Some(g) ==> g.width == width && g.height == height && g.samples@
                == samples@ && g.wf(),
    {
        let len = samples.len();
        match width.checked_mul(height) {
            Some(n) => {
                if n == len {
                    Some(SampleGrid { width, height, samples })
                } else {
                    None
                }
            },
            None => None,
        }
    }

    /// The mosaic of this grid: for every `step`-th row `y` and every `step`-th
    /// column `x`, a `step`-sized tile at `(x, y)` colored by the sample at
    /// column `x` of row `(y + scroll_row) % height`, shifted by `offset` and by
    /// the tile's position.
    pub fn plan_mosaic(&self, step: usize, scroll_row: usize, offset: Hsv) -> (r: Vec<Tile>)
        requires
            self.wf(),
            step > 0,
        ensures
            r@ == mosaic_spec(
                self.samples@,
                self.width as int,
                self.height as int,
                step as int,
                scroll_row as int,
                offset,
            ),
    {
        let w = self.width;
        let h = self.height;
        proof {
            lemma_ceil_div_nonneg(w as int, step as int);
            lemma_ceil_div_nonneg(h as int, step as int);
        }
        let cols: usize = w / step + if w % step == 0 {
            0
        } else {
            1
        };
        let rows: usize = h / step + if h % step == 0 {
            0
        } else {
            1
        };
        let len = self.samples.len();
        let ghost gcols = cols as int;
        let mut out: Vec<Tile> = Vec::new();
        let mut r: usize = 0;
        while r < rows
            invariant
                self.wf(),
                w == self.width,
                h == self.height,
                step > 0,
                cols == ceil_div(w as int, step as int),
                rows == ceil_div(h as int, step as int),
                gcols == cols,
                len == w * h,
                r <= rows,
                out@.len() == r * cols,
                forall|k: int|
                    0 <= k < out@.len() ==> #[trigger] out@[k] == tile_spec(
                        self.samples@,
                        w as int,
                        h as int,
                        step as int,
                        scroll_row as int,
                        offset,
                        k / gcols,
                        k % gcols,
                    ),
            decreases rows - r,
        {
            proof {
                lemma_ceil_div_bound(h as int, step as int, r as int);
            }
            let y: usize = r * step;
            let source_row: usize = ((y as u128 + scroll_row as u128) % (h as u128)) as usize;
            let mut c: usize = 0;
            while c < cols
                invariant
                    self.wf(),
                    w == self.width,
                    h == self.height,
                    step > 0,
                    cols == ceil_div(w as int, step as int),
                    rows == ceil_div(h as int, step as int),
                    gcols == cols,
                    r < rows,
                    len == w * h,
                    y == r * step,
                    y < h,
                    source_row == (y + scroll_row) % (h as int),
                    c <= cols,
                    out@.len() == r * cols + c,
                    forall|k: int|
                        0 <= k < out@.len() ==> #[trigger] out@[k] == tile_spec(
                            self.samples@,
                            w as int,
                            h as int,
                            step as int,
                            scroll_row as int,
                            offset,
                            k / gcols,
                            k % gcols,
                        ),
                decreases cols - c,
            {
                proof {
                    lemma_ceil_div_bound(w as int, step as int, c as int);
                    lemma_cell_in_grid(source_row as int, (c * step) as int, w as int, h as int);
                    lemma_split_index(r as int, c as int, cols as int);
                }
                let x: usize = c * step;
                let index: usize = source_row * w + x;
                let sample = self.samples[index].color;
                let color = add_hue_offset(add_hue_offset(sample, offset), tile_offset(x, y, w, h));
                out.push(Tile { x, y, size: step, color });
                proof {
                    let k = r * cols + c;
                    assert(k / gcols == r);
                    assert(k % gcols == c);
                    let t = tile_spec(
                        self.samples@,
                        w as int,
                        h as int,
                        step as int,
                        scroll_row as int,
                        offset,
                        r as int,
                        c as int,
                    );
                    assert(((y + scroll_row) % (h as int)) * w + x == index);
                    assert(t == Tile { x, y, size: step, color });
                }
                c = c + 1;
            }
            proof {
                assert((r + 1) * cols == r * cols + cols) by (nonlinear_arith);
            }
            r = r + 1;
        }
        proof {
            assert(out@ =~= mosaic_spec(
                self.samples@,
                w as int,
                h as int,
                step as int,
                scroll_row as int,
                offset,
            ));
        }
        out
    }
}

} // verus!
