//! Filling the spans a curve rasterizer computed: each row of the span buffer names the
//! columns it covers, and each covered cell paints the pixel it falls in, at full size or
//! super-sampled two or four times in each direction.

use vstd::prelude::*;
use crate::image::{ImageSize, ImageViewMut, in_size, same_outside, lemma_same_outside_trans};

verus! {

/// How a covered cell changes its pixel: `mode` 1 paints `color`, 2 moves each channel a
/// quarter of the way to `color` (on the six high bits of each colour channel), 4 moves
/// each channel a sixteenth of the way.
pub open spec fn span_blend(mode: u8, color: u32, d: u32) -> u32 {
    if mode == 2 {
        let c = color & 0xFCFCFC;
        let dd = d & 0xFCFCFC;
        dd.wrapping_add(c.wrapping_sub(dd) >> 2u32)
    } else if mode == 4 {
        let rr = (d & 0xFF).wrapping_add((color & 0xFF).wrapping_sub(d & 0xFF) >> 4u32) & 0xFF;
        let rg = (d & 0xFF00).wrapping_add((color & 0xFF00).wrapping_sub(d & 0xFF00) >> 4u32) & 0xFF00;
        let rb = (d & 0xFF0000).wrapping_add((color & 0xFF0000).wrapping_sub(d & 0xFF0000) >> 4u32)
            & 0xFF0000;
        let ra = (d & 0xFF000000).wrapping_add((color & 0xFF000000).wrapping_sub(d & 0xFF000000) >> 4u32)
            & 0xFF000000;
        rr | rg | rb | ra
    } else {
        color
    }
}

/// The pixel `d` after `n` covered cells changed it.
pub open spec fn blend_times(mode: u8, color: u32, n: nat, d: u32) -> u32
    decreases n,
{
    if n == 0 {
        d
    } else {
        span_blend(mode, color, blend_times(mode, color, (n - 1) as nat, d))
    }
}

/// How many of the columns from `from` up to `to` fall in pixel column `x` when `k` columns
/// make a pixel.
pub open spec fn row_hits(from: int, to: int, k: int, x: int) -> nat
    decreases to - from,
{
    if to <= from {
        0
    } else {
        row_hits(from, to - 1, k, x) + if (to - 1) / k == x { 1nat } else { 0nat }
    }
}

/// How many covered cells of the rows from `first` up to `last` fall in pixel `(x, y)` when
/// `k` by `k` cells make a pixel.
pub open spec fn span_hits(spans: Seq<(usize, usize)>, first: int, last: int, k: int, x: int, y: int) -> nat
    decreases last - first,
{
    if last <= first {
        0
    } else {
        span_hits(spans, first, last - 1, k, x, y) + if (last - 1) / k == y {
            row_hits(spans[last - 1].0 as int, spans[last - 1].1 as int, k, x)
        } else {
            0nat
        }
    }
}

/// The rows between the bounds are in the buffer, and every cell they cover falls in a
/// pixel of a window of `size`, `k` by `k` cells making a pixel.
pub open spec fn spans_fit(spans: Seq<(usize, usize)>, ybounds: (usize, usize), size: ImageSize, k: int) -> bool {
    forall|y: int| ybounds.0 <= y < ybounds.1 ==> #[trigger] row_fits(spans, y, size, k)
}

/// Row `y` is in the buffer, and the cells it covers fall in pixels of a window of `size`.
pub open spec fn row_fits(spans: Seq<(usize, usize)>, y: int, size: ImageSize, k: int) -> bool {
    &&& y < spans.len()
    &&& y / k < size.1
    &&& spans[y].0 < spans[y].1 ==> (spans[y].1 - 1) / k < size.0
}

/// `after` is `before` with the covered cells of the rows between the bounds painted as
/// `mode` says, `k` by `k` cells making a pixel.
pub open spec fn spans_painted(
    before: ImageViewMut<u32>,
    after: ImageViewMut<u32>,
    spans: Seq<(usize, usize)>,
    ybounds: (usize, usize),
    k: int,
    mode: u8,
    color: u32,
) -> bool {
    &&& same_outside(&before, &after)
    &&& forall|x: int, y: int|
        #![trigger after.spec_at(x, y)]
        in_size(before.spec_size(), x, y) ==> after.spec_at(x, y) == blend_times(
            mode,
            color,
            span_hits(spans, ybounds.0 as int, ybounds.1 as int, k, x, y),
            before.spec_at(x, y),
        )
}

fn blend_pixel(mode: u8, color: u32, d: u32) -> (r: u32)
    ensures
        r == span_blend(mode, color, d),
{
    if mode == 2 {
        let c = color & 0xFCFCFC;
        let dd = d & 0xFCFCFC;
        dd.wrapping_add(c.wrapping_sub(dd) >> 2u32)
    } else if mode == 4 {
        let rr = (d & 0xFF).wrapping_add((color & 0xFF).wrapping_sub(d & 0xFF) >> 4u32) & 0xFF;
        let rg = (d & 0xFF00).wrapping_add((color & 0xFF00).wrapping_sub(d & 0xFF00) >> 4u32) & 0xFF00;
        let rb = (d & 0xFF0000).wrapping_add((color & 0xFF0000).wrapping_sub(d & 0xFF0000) >> 4u32)
            & 0xFF0000;
        let ra = (d & 0xFF000000).wrapping_add((color & 0xFF000000).wrapping_sub(d & 0xFF000000) >> 4u32)
            & 0xFF000000;
        rr | rg | rb | ra
    } else {
        color
    }
}

proof fn lemma_div_ordered(a: int, b: int, k: int)
    requires
        0 <= a <= b,
        k >= 1,
    ensures
        a / k <= b / k,
{
    vstd::arithmetic::div_mod::lemma_div_is_ordered(a, b, k);
}

fn paint_spans(
    dst: &mut ImageViewMut<u32>,
    span_buffer: &[(usize, usize)],
    ybounds: (usize, usize),
    color: u32,
    k: usize,
    mode: u8,
)
    requires
        k >= 1,
        spans_fit(span_buffer@, ybounds, old(dst).spec_size(), k as int),
    ensures
        spans_painted(*old(dst), *final(dst), span_buffer@, ybounds, k as int, mode, color),
{
    let ghost d0 = *dst;
    let ghost spans = span_buffer@;
    let mut y = ybounds.0;
    while y < ybounds.1
        invariant
            k >= 1,
            spans == span_buffer@,
            spans_fit(spans, ybounds, d0.spec_size(), k as int),
            (ybounds.0 <= y <= ybounds.1) || (ybounds.1 < ybounds.0 && y == ybounds.0),
            same_outside(&d0, dst),
            forall|px: int, py: int|
                #![trigger dst.spec_at(px, py)]
                in_size(d0.spec_size(), px, py) ==> dst.spec_at(px, py) == blend_times(
                    mode,
                    color,
                    span_hits(spans, ybounds.0 as int, y as int, k as int, px, py),
                    d0.spec_at(px, py),
                ),
        decreases ybounds.1 - y,
    {
        assert(row_fits(spans, y as int, d0.spec_size(), k as int));
        let s = span_buffer[y];
        let row = y / k;
        let mut x = s.0;
        while x < s.1
            invariant
                k >= 1,
                spans == span_buffer@,
                spans_fit(spans, ybounds, d0.spec_size(), k as int),
                ybounds.0 <= y < ybounds.1,
                y < spans.len(),
                s == spans[y as int],
                row == y / k,
                row < d0.spec_size().1,
                s.0 <= x,
                x <= s.1 || s.1 <= s.0,
                s.1 <= s.0 ==> x == s.0,
                same_outside(&d0, dst),
                forall|px: int, py: int|
                    #![trigger dst.spec_at(px, py)]
                    in_size(d0.spec_size(), px, py) ==> dst.spec_at(px, py) == blend_times(
                        mode,
                        color,
                        span_hits(spans, ybounds.0 as int, y as int, k as int, px, py) + if py == row {
                            row_hits(s.0 as int, x as int, k as int, px)
                        } else {
                            0nat
                        },
                        d0.spec_at(px, py),
                    ),
            decreases s.1 - x,
        {
            let col = x / k;
            proof {
                assert(row_fits(spans, y as int, d0.spec_size(), k as int));
                lemma_div_ordered(x as int, s.1 - 1, k as int);
            }
            let ghost before = *dst;
            let d = dst.get(col, row);
            let p = blend_pixel(mode, color, d);
            dst.set(col, row, p);
            proof {
                lemma_same_outside_trans(&d0, &before, dst);
                assert forall|px: int, py: int| in_size(d0.spec_size(), px, py) implies #[trigger] dst.spec_at(px, py)
                    == blend_times(
                    mode,
                    color,
                    span_hits(spans, ybounds.0 as int, y as int, k as int, px, py) + if py == row {
                        row_hits(s.0 as int, x + 1, k as int, px)
                    } else {
                        0nat
                    },
                    d0.spec_at(px, py),
                ) by {
                    assert(before.spec_at(px, py) == blend_times(
                        mode,
                        color,
                        span_hits(spans, ybounds.0 as int, y as int, k as int, px, py) + if py == row {
                            row_hits(s.0 as int, x as int, k as int, px)
                        } else {
                            0nat
                        },
                        d0.spec_at(px, py),
                    ));
                }
            }
            x = x + 1;
        }
        proof {
            assert forall|px: int, py: int| in_size(d0.spec_size(), px, py) implies #[trigger] dst.spec_at(px, py)
                == blend_times(
                mode,
                color,
                span_hits(spans, ybounds.0 as int, y + 1, k as int, px, py),
                d0.spec_at(px, py),
            ) by {
                if s.1 <= s.0 {
                    assert(row_hits(s.0 as int, s.1 as int, k as int, px) == 0);
                    assert(row_hits(s.0 as int, x as int, k as int, px) == 0);
                }
            }
        }
        y = y + 1;
    }
}

/// Paints `color` on the covered cells of the rows between the bounds, one cell per pixel.
pub fn use_quadrant_bounds(
    dst: &mut ImageViewMut<u32>,
    span_buffer: &[(usize, usize)],
    ybounds: (usize, usize),
    color: u32,
)
    requires
        spans_fit(span_buffer@, ybounds, old(dst).spec_size(), 1),
    ensures
        spans_painted(*old(dst), *final(dst), span_buffer@, ybounds, 1, 1, color),
{
    paint_spans(dst, span_buffer, ybounds, color, 1, 1);
}

/// Moves each pixel a quarter of the way to `color` for each of its covered cells, two by
/// two cells making a pixel.
pub fn use_quadrant_bounds_aa2(
    dst: &mut ImageViewMut<u32>,
    span_buffer: &[(usize, usize)],
    ybounds: (usize, usize),
    color: u32,
)
    requires
        spans_fit(span_buffer@, ybounds, old(dst).spec_size(), 2),
    ensures
        spans_painted(*old(dst), *final(dst), span_buffer@, ybounds, 2, 2, color),
{
    paint_spans(dst, span_buffer, ybounds, color, 2, 2);
}

/// Moves each channel of each pixel a sixteenth of the way to `color` for each of its
/// covered cells, four by four cells making a pixel.
pub fn use_quadrant_bounds_aa4(
    dst: &mut ImageViewMut<u32>,
    span_buffer: &[(usize, usize)],
    ybounds: (usize, usize),
    color: u32,
)
    requires
        spans_fit(span_buffer@, ybounds, old(dst).spec_size(), 4),
    ensures
        spans_painted(*old(dst), *final(dst), span_buffer@, ybounds, 4, 4, color),
{
    paint_spans(dst, span_buffer, ybounds, color, 4, 4);
}

} // verus!
