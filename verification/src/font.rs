//! Fonts: glyph images loaded on demand by a loader that the application supplies, cached
//! per font line, measured and drawn with layout and colour.

use vstd::prelude::*;
use crate::color::{spec_blend_gray, spec_blend_subpixel, blend_gray, blend_subpixel};
use crate::image::{Image, ImageSize, ImageViewMut, Position, PixelOp, same_outside, lemma_same_outside_trans, in_size};

verus! {

/// How glyphs are rendered: black and white, gray anti-aliasing, or sub-pixel.
#[derive(PartialEq, Eq, Structural, Hash, Copy, Clone)]
pub enum FontAntiAliasingMode {
    NoAA,
    AA,
    TT,
}

impl Default for FontAntiAliasingMode {
    fn default() -> (r: Self)
        ensures
            r == FontAntiAliasingMode::NoAA,
    {
        FontAntiAliasingMode::NoAA
    }
}

/// The images of one character: a mask, or coverage images for dark and for light text.
pub enum Glyph {
    NoAA(Image<bool>),
    AA(Image<u8>, Image<u8>),
    TT(Image<u32>, Image<u32>),
}

/// The size of a glyph: that of its (first) image.
pub open spec fn glyph_size(g: Glyph) -> ImageSize {
    match g {
        Glyph::NoAA(img) => img.spec_size(),
        Glyph::AA(img, _) => img.spec_size(),
        Glyph::TT(img, _) => img.spec_size(),
    }
}

impl Glyph {
    /// The size of the glyph.
    pub fn get_size(&self) -> (r: ImageSize)
        ensures
            r == glyph_size(*self),
    {
        match self {
            Glyph::NoAA(img) => img.get_size(),
            Glyph::AA(img, _) => img.get_size(),
            Glyph::TT(img, _) => img.get_size(),
        }
    }
}

/// The width of the glyph of `c`, zero if there is none.
pub open spec fn glyph_width(glyphs: Map<char, Glyph>, c: char) -> usize {
    if glyphs.dom().contains(c) {
        glyph_size(glyphs[c]).0
    } else {
        0
    }
}

/// Whether some entry of `chars` is for `c`.
pub open spec fn has_char(chars: Seq<(char, Glyph)>, c: char) -> bool {
    exists|i: int| 0 <= i < chars.len() && #[trigger] chars[i].0 == c
}

/// No two entries are for the same character.
pub open spec fn unique_chars(chars: Seq<(char, Glyph)>) -> bool {
    forall|i: int, j: int|
        0 <= i < chars.len() && 0 <= j < chars.len() && #[trigger] chars[i].0 == #[trigger] chars[j].0
            ==> i == j
}

/// The glyph cached for each character.
pub open spec fn glyph_map(chars: Seq<(char, Glyph)>) -> Map<char, Glyph> {
    Map::new(
        |c: char| has_char(chars, c),
        |c: char| chars[choose|i: int| 0 <= i < chars.len() && #[trigger] chars[i].0 == c].1,
    )
}

/// One font at one size in one rendering mode, with the glyphs loaded so far.
pub struct FontLine {
    name: String,
    size: i32,
    anti_aliasing_mode: FontAntiAliasingMode,
    chars: Vec<(char, Glyph)>,
}

impl FontLine {
    /// The font's name.
    pub closed spec fn spec_name(&self) -> Seq<char> {
        self.name@
    }

    /// The font's size.
    pub closed spec fn spec_size(&self) -> i32 {
        self.size
    }

    /// The rendering mode.
    pub closed spec fn spec_mode(&self) -> FontAntiAliasingMode {
        self.anti_aliasing_mode
    }

    /// The glyphs loaded so far, by character.
    pub closed spec fn glyphs(&self) -> Map<char, Glyph> {
        glyph_map(self.chars@)
    }

    /// The cache holds at most one glyph for each character.
    pub closed spec fn wf(&self) -> bool {
        unique_chars(self.chars@)
    }

    /// A font line with no glyph loaded yet.
    pub fn new(name: String, size: i32, anti_aliasing_mode: FontAntiAliasingMode) -> (r: Self)
        ensures
            r.spec_name() == name@,
            r.spec_size() == size,
            r.spec_mode() == anti_aliasing_mode,
            r.glyphs() == Map::<char, Glyph>::empty(),
            r.wf(),
    {
        let r = Self { name, size, anti_aliasing_mode, chars: Vec::new() };
        assert(r.glyphs() =~= Map::<char, Glyph>::empty());
        r
    }

    /// The font's name.
    pub fn get_name(&self) -> (r: &str)
        ensures
            r@ == self.spec_name(),
    {
        self.name.as_str()
    }

    /// The font's size.
    pub fn get_size(&self) -> (r: i32)
        ensures
            r == self.spec_size(),
    {
        self.size
    }

    /// Whether a glyph for `c` is loaded.
    pub fn contains(&self, c: char) -> (r: bool)
        ensures
            r == self.glyphs().dom().contains(c),
    {
        let mut i: usize = 0;
        while i < self.chars.len()
            invariant
                i <= self.chars.len(),
                forall|j: int| 0 <= j < i ==> self.chars@[j].0 != c,
            decreases self.chars.len() - i,
        {
            if self.chars[i].0 == c {
                return true;
            }
            i += 1;
        }
        false
    }

    /// The glyph loaded for `c`, if any.
    pub fn glyph(&self, c: char) -> (r: Option<&Glyph>)
        requires
            self.wf(),
        ensures
            r matches Some(g) ==> self.glyphs().dom().contains(c) && *g == self.glyphs()[c],
            r is None ==> !self.glyphs().dom().contains(c),
    {
        let mut i: usize = 0;
        while i < self.chars.len()
            invariant
                i <= self.chars.len(),
                unique_chars(self.chars@),
                forall|j: int| 0 <= j < i ==> self.chars@[j].0 != c,
            decreases self.chars.len() - i,
        {
            if self.chars[i].0 == c {
                proof {
                    let k = choose|k: int| 0 <= k < self.chars@.len() && #[trigger] self.chars@[k].0 == c;
                    assert(self.chars@[k].0 == self.chars@[i as int].0);
                }
                return Some(&self.chars[i].1);
            }
            i += 1;
        }
        None
    }

    /// Caches `glyph` for `c`, replacing the glyph cached for `c` before, if any.
    fn insert(&mut self, c: char, glyph: Glyph)
        requires
            old(self).wf(),
        ensures
            final(self).wf(),
            final(self).glyphs() == old(self).glyphs().insert(c, glyph),
            final(self).spec_name() == old(self).spec_name(),
            final(self).spec_size() == old(self).spec_size(),
            final(self).spec_mode() == old(self).spec_mode(),
    {
        let ghost old_chars = self.chars@;
        let mut i: usize = 0;
        while i < self.chars.len()
            invariant
                i <= self.chars.len(),
                self.chars@ == old_chars,
                unique_chars(old_chars),
                old_chars == old(self).chars@,
                self.name == old(self).name,
                self.size == old(self).size,
                self.anti_aliasing_mode == old(self).anti_aliasing_mode,
                forall|j: int| 0 <= j < i ==> self.chars@[j].0 != c,
            decreases self.chars.len() - i,
        {
            if self.chars[i].0 == c {
                self.chars.set(i, (c, glyph));
                proof {
                    let new_chars = self.chars@;
                    assert forall|a: int, b: int|
                        0 <= a < new_chars.len() && 0 <= b < new_chars.len() && #[trigger] new_chars[a].0
                            == #[trigger] new_chars[b].0 implies a == b by {
                        if a != i && b != i {
                            assert(old_chars[a].0 == old_chars[b].0);
                        } else if a == i && b != i {
                            assert(old_chars[b].0 == old_chars[i as int].0);
                        } else if a != i && b == i {
                            assert(old_chars[a].0 == old_chars[i as int].0);
                        }
                    }
                    assert forall|d: char| #[trigger] has_char(new_chars, d) == has_char(old_chars, d) || d == c by {
                        if has_char(old_chars, d) {
                            let k = choose|k: int| 0 <= k < old_chars.len() && #[trigger] old_chars[k].0 == d;
                            if k != i {
                                assert(new_chars[k].0 == d);
                            }
                        }
                        if has_char(new_chars, d) {
                            let k = choose|k: int| 0 <= k < new_chars.len() && #[trigger] new_chars[k].0 == d;
                            if k != i {
                                assert(old_chars[k].0 == d);
                            }
                        }
                    }
                    assert(new_chars[i as int].0 == c);
                    assert(has_char(new_chars, c));
                    assert forall|d: char| d != c && #[trigger] has_char(new_chars, d) implies glyph_map(
                        new_chars,
                    )[d] == glyph_map(old_chars)[d] by {
                        let k = choose|k: int| 0 <= k < new_chars.len() && #[trigger] new_chars[k].0 == d;
                        let k2 = choose|k: int| 0 <= k < old_chars.len() && #[trigger] old_chars[k].0 == d;
                        assert(k != i);
                        assert(old_chars[k].0 == d);
                        assert(k == k2);
                    }
                    let k = choose|k: int| 0 <= k < new_chars.len() && #[trigger] new_chars[k].0 == c;
                    assert(k == i);
                    assert(glyph_map(new_chars) =~= glyph_map(old_chars).insert(c, glyph));
                }
                return ;
            }
            i += 1;
        }
        self.chars.push((c, glyph));
        proof {
            let new_chars = self.chars@;
            assert(new_chars == old_chars.push((c, glyph)));
            assert forall|a: int, b: int|
                0 <= a < new_chars.len() && 0 <= b < new_chars.len() && #[trigger] new_chars[a].0
                    == #[trigger] new_chars[b].0 implies a == b by {
                if a < old_chars.len() && b < old_chars.len() {
                    assert(old_chars[a].0 == old_chars[b].0);
                }
            }
            assert forall|d: char| d != c implies #[trigger] has_char(new_chars, d) == has_char(old_chars, d) by {
                if has_char(old_chars, d) {
                    let k = choose|k: int| 0 <= k < old_chars.len() && #[trigger] old_chars[k].0 == d;
                    assert(new_chars[k].0 == d);
                }
                if has_char(new_chars, d) {
                    let k = choose|k: int| 0 <= k < new_chars.len() && #[trigger] new_chars[k].0 == d;
                    assert(k < old_chars.len());
                    assert(old_chars[k].0 == d);
                }
            }
            assert(new_chars[old_chars.len() as int].0 == c);
            assert(has_char(new_chars, c));
            assert forall|d: char| d != c && #[trigger] has_char(new_chars, d) implies glyph_map(
                new_chars,
            )[d] == glyph_map(old_chars)[d] by {
                let k = choose|k: int| 0 <= k < new_chars.len() && #[trigger] new_chars[k].0 == d;
                let k2 = choose|k: int| 0 <= k < old_chars.len() && #[trigger] old_chars[k].0 == d;
                assert(k < old_chars.len());
                assert(old_chars[k].0 == d);
                assert(new_chars[k2].0 == d);
            }
            let k = choose|k: int| 0 <= k < new_chars.len() && #[trigger] new_chars[k].0 == c;
            assert(k == old_chars.len());
            assert(glyph_map(new_chars) =~= glyph_map(old_chars).insert(c, glyph));
        }
    }
}

/// Loads the glyphs of a font; the application supplies it (from the operating system's
/// font rasteriser, for instance).
pub trait FontLoader {
    /// The glyphs of the characters with codes from `code_from` (included) to `code_to`
    /// (excluded) of the font `font_name` at size `font_size`, rendered in the given mode. A
    /// character the font lacks may be missing from the result.
    fn load_glyphs(
        &mut self,
        font_name: &str,
        font_size: i32,
        code_from: u32,
        code_to: u32,
        anti_aliasing_mode: FontAntiAliasingMode,
    ) -> Vec<(char, Glyph)>;
}

/// Where text goes relative to its position, up and down.
#[derive(PartialEq, Eq, Structural, Copy, Clone)]
pub enum TextLayoutVertical {
    TOP,
    MIDDLE,
    BOTTOM,
}

/// Where text goes relative to its position, left and right.
#[derive(PartialEq, Eq, Structural, Copy, Clone)]
pub enum TextLayoutHorizontal {
    LEFT,
    MIDDLE,
    RIGHT,
}

/// A font line of a factory, with the colour and layout in which to draw text.
#[derive(PartialEq, Eq, Structural, Copy, Clone)]
pub struct Font {
    pub color: u32,
    pub light: bool,
    pub layout_horizontal: TextLayoutHorizontal,
    pub layout_vertical: TextLayoutVertical,
    pub line: usize,
}

/// Whether a colour is light: its red, green and blue add up to at least `0x180`.
pub open spec fn spec_color_is_light(color: u32) -> bool {
    (color & 0xFF) + ((color >> 8u32) & 0xFF) + ((color >> 16u32) & 0xFF) >= 0x180
}

/// The width and height of text whose characters have, in order, the given glyphs (no glyph
/// counts as empty): the widths add up, saturating at `usize::MAX`, and the height is the
/// largest one.
pub open spec fn text_size(glyphs: Map<char, Glyph>, text: Seq<char>) -> ImageSize
    decreases text.len(),
{
    if text.len() == 0 {
        (0usize, 0usize)
    } else {
        let before = text_size(glyphs, text.drop_last());
        let g = if glyphs.dom().contains(text.last()) {
            glyph_size(glyphs[text.last()])
        } else {
            (0usize, 0usize)
        };
        (
            if before.0 + g.0 > usize::MAX { usize::MAX } else { (before.0 + g.0) as usize },
            if before.1 >= g.1 { before.1 } else { g.1 },
        )
    }
}

/// The size of two texts one after the other: the widths add up (saturating) and the
/// height is the larger.
pub proof fn law_text_size_concat(glyphs: Map<char, Glyph>, a: Seq<char>, b: Seq<char>)
    ensures
        text_size(glyphs, a + b) == (
            if text_size(glyphs, a).0 + text_size(glyphs, b).0 > usize::MAX {
                usize::MAX
            } else {
                (text_size(glyphs, a).0 + text_size(glyphs, b).0) as usize
            },
            if text_size(glyphs, a).1 >= text_size(glyphs, b).1 {
                text_size(glyphs, a).1
            } else {
                text_size(glyphs, b).1
            },
        ),
    decreases b.len(),
{
    if b.len() == 0 {
        assert(a + b =~= a);
    } else {
        law_text_size_concat(glyphs, a, b.drop_last());
        assert((a + b).drop_last() =~= a + b.drop_last());
        assert((a + b).last() == b.last());
    }
}

/// Half of `extent` reinterpreted as an `i32` (a value above `i32::MAX` wraps as `as` does),
/// rounded towards zero.
pub open spec fn half_extent(extent: usize) -> int {
    let e = extent as i32;
    if e >= 0 { e / 2 } else { -((-e) / 2) }
}

/// Where text of width `extent` starts along one axis, given the position and the layout:
/// at the position, centred on it, or ending at it. Computed on `i32` with wrapping.
pub open spec fn layout_start_h(layout: TextLayoutHorizontal, position: i32, extent: usize) -> i32 {
    match layout {
        TextLayoutHorizontal::LEFT => position,
        TextLayoutHorizontal::MIDDLE => (position - half_extent(extent)) as i32,
        TextLayoutHorizontal::RIGHT => (position - (extent as i32)) as i32,
    }
}

/// Where text of height `extent` starts, given the position and the layout.
pub open spec fn layout_start_v(layout: TextLayoutVertical, position: i32, extent: usize) -> i32 {
    match layout {
        TextLayoutVertical::TOP => position,
        TextLayoutVertical::MIDDLE => (position - half_extent(extent)) as i32,
        TextLayoutVertical::BOTTOM => (position - (extent as i32)) as i32,
    }
}

fn start_by_layout(position: i32, extent: usize, layout_kind: u8) -> (r: i32)
    requires
        layout_kind <= 2,
    ensures
        layout_kind == 0 ==> r == position,
        layout_kind == 1 ==> r == (position - half_extent(extent)) as i32,
        layout_kind == 2 ==> r == (position - (extent as i32)) as i32,
{
    let e: i64 = (extent as i32) as i64;
    if layout_kind == 0 {
        position
    } else if layout_kind == 1 {
        let half: i64 = if e >= 0 { e / 2 } else { -((-e) / 2) };
        (position as i64 - half) as i32
    } else {
        (position as i64 - e) as i32
    }
}

/// Draws a mask glyph pixel: the colour where the mask is set.
pub struct MaskColor(pub u32);

impl PixelOp<u32, bool> for MaskColor {
    open spec fn spec_apply(&self, dst: u32, src: bool) -> u32 {
        if src { self.0 } else { dst }
    }

    fn apply(&self, dst: u32, src: bool) -> (r: u32) {
        if src { self.0 } else { dst }
    }
}

/// Draws a gray-coverage glyph pixel in the colour.
pub struct BlendGray(pub u32);

impl PixelOp<u32, u8> for BlendGray {
    open spec fn spec_apply(&self, dst: u32, src: u8) -> u32 {
        spec_blend_gray(dst, self.0, src)
    }

    fn apply(&self, dst: u32, src: u8) -> (r: u32) {
        blend_gray(dst, self.0, src)
    }
}

/// Draws a sub-pixel glyph pixel in the colour.
pub struct BlendSubpixel(pub u32);

impl PixelOp<u32, u32> for BlendSubpixel {
    open spec fn spec_apply(&self, dst: u32, src: u32) -> u32 {
        spec_blend_subpixel(dst, self.0, src)
    }

    fn apply(&self, dst: u32, src: u32) -> (r: u32) {
        blend_subpixel(dst, self.0, src)
    }
}

/// The image of glyph `g` that text in `font` is drawn with: the mask, or the coverage
/// image for light or for dark text.
pub open spec fn drawn_image_size(g: Glyph, font: Font) -> ImageSize {
    match g {
        Glyph::NoAA(img) => img.spec_size(),
        Glyph::AA(black, white) => if font.light { white.spec_size() } else { black.spec_size() },
        Glyph::TT(black, white) => if font.light { white.spec_size() } else { black.spec_size() },
    }
}

/// The pixel `dst` after glyph `g` is drawn over it in `font`, the glyph's pixel being the
/// one at `(x, y)` of its image; `None` where `(x, y)` lies outside the image.
pub open spec fn glyph_pixel_over(g: Glyph, font: Font, dst: u32, x: int, y: int) -> Option<u32> {
    match g {
        Glyph::NoAA(img) => if in_size(img.spec_size(), x, y) {
            Some(MaskColor(font.color).spec_apply(dst, img.spec_at(x, y)))
        } else {
            None
        },
        Glyph::AA(black, white) => {
            let img = if font.light { white } else { black };
            if in_size(img.spec_size(), x, y) {
                Some(BlendGray(font.color).spec_apply(dst, img.spec_at(x, y)))
            } else {
                None
            }
        },
        Glyph::TT(black, white) => {
            let img = if font.light { white } else { black };
            if in_size(img.spec_size(), x, y) {
                Some(BlendSubpixel(font.color).spec_apply(dst, img.spec_at(x, y)))
            } else {
                None
            }
        },
    }
}

/// Where the glyph after `text` is drawn when the first one is drawn at `start`: each glyph
/// moves the pen right by the width of the image it is drawn with, wrapping as `i32` does;
/// characters without a glyph do not move it.
pub open spec fn pen_x(glyphs: Map<char, Glyph>, font: Font, text: Seq<char>, start: i32) -> i32
    decreases text.len(),
{
    if text.len() == 0 {
        start
    } else {
        let before = pen_x(glyphs, font, text.drop_last(), start);
        if glyphs.dom().contains(text.last()) {
            before.wrapping_add(drawn_image_size(glyphs[text.last()], font).0 as i32)
        } else {
            before
        }
    }
}

/// The pixel at `(x, y)` of the window `dst` after the glyphs of `text` are drawn over it
/// one after the other, the first at `start`, all at the height `start.1`.
pub open spec fn text_pixel(
    dst: ImageViewMut<u32>,
    glyphs: Map<char, Glyph>,
    font: Font,
    text: Seq<char>,
    start: (i32, i32),
    x: int,
    y: int,
) -> u32
    decreases text.len(),
{
    if text.len() == 0 {
        dst.spec_at(x, y)
    } else {
        let prev = text_pixel(dst, glyphs, font, text.drop_last(), start, x, y);
        let pen = pen_x(glyphs, font, text.drop_last(), start.0);
        if glyphs.dom().contains(text.last()) {
            match glyph_pixel_over(glyphs[text.last()], font, prev, x - pen, y - start.1) {
                Some(p) => p,
                None => prev,
            }
        } else {
            prev
        }
    }
}

/// Where text of `font` measuring `size` starts when it is drawn at `position`, by the
/// font's layout.
pub open spec fn text_start(font: Font, position: Position, size: ImageSize) -> (i32, i32) {
    (layout_start_h(font.layout_horizontal, position.0, size.0), layout_start_v(font.layout_vertical, position.1, size.1))
}

/// Glyphs that each move the pen by their own width, as the text is measured: the image that
/// `font` draws of each is as wide as the glyph.
pub open spec fn pen_moves_by_width(glyphs: Map<char, Glyph>, font: Font) -> bool {
    forall|c: char|
        #[trigger] glyphs.dom().contains(c) ==> drawn_image_size(glyphs[c], font).0 == glyph_size(
            glyphs[c],
        ).0
}

/// Without wrapping, the pen ends the text's width to the right of where it started.
proof fn lemma_pen_end(glyphs: Map<char, Glyph>, font: Font, text: Seq<char>, start: i32)
    requires
        pen_moves_by_width(glyphs, font),
        text_size(glyphs, text).0 <= i32::MAX,
        start + text_size(glyphs, text).0 <= i32::MAX,
    ensures
        pen_x(glyphs, font, text, start) == start + text_size(glyphs, text).0,
    decreases text.len(),
{
    if text.len() > 0 {
        let before = text_size(glyphs, text.drop_last());
        lemma_pen_end(glyphs, font, text.drop_last(), start);
        if glyphs.dom().contains(text.last()) {
            let g = glyph_size(glyphs[text.last()]).0;
            assert(drawn_image_size(glyphs[text.last()], font).0 == g);
            assert(text_size(glyphs, text).0 == before.0 + g);
            assert((g as i32) as int == g as int);
            let p = pen_x(glyphs, font, text.drop_last(), start);
            assert(p + g <= i32::MAX);
            assert(p.wrapping_add(g as i32) == p + g);
        } else {
            assert(text_size(glyphs, text).0 == before.0);
        }
    }
}

/// Text is placed by its layout: with `LEFT` it starts at the position, with `MIDDLE` half
/// its width (rounded down) to the left of it, and with `RIGHT` its whole width to the left,
/// so that right-aligned text ends at the position: the pen stands there after its last
/// glyph. Likewise its top is at the position with `TOP`, half its height above it with
/// `MIDDLE`, and its whole height above it with `BOTTOM`. (Where every glyph moves the pen by
/// its width, and the text's size and its start fit in an `i32`.)
pub proof fn law_text_alignment(
    glyphs: Map<char, Glyph>,
    font: Font,
    text: Seq<char>,
    position: Position,
)
    requires
        pen_moves_by_width(glyphs, font),
        text_size(glyphs, text).0 <= i32::MAX,
        position.0 - text_size(glyphs, text).0 >= i32::MIN,
        text_size(glyphs, text).1 <= i32::MAX,
        position.1 - text_size(glyphs, text).1 >= i32::MIN,
    ensures
        font.layout_horizontal == TextLayoutHorizontal::LEFT ==> text_start(
            font,
            position,
            text_size(glyphs, text),
        ).0 == position.0,
        font.layout_horizontal == TextLayoutHorizontal::MIDDLE ==> text_start(
            font,
            position,
            text_size(glyphs, text),
        ).0 == position.0 - text_size(glyphs, text).0 / 2,
        font.layout_horizontal == TextLayoutHorizontal::RIGHT ==> text_start(
            font,
            position,
            text_size(glyphs, text),
        ).0 == position.0 - text_size(glyphs, text).0,
        font.layout_horizontal == TextLayoutHorizontal::RIGHT ==> pen_x(
            glyphs,
            font,
            text,
            text_start(font, position, text_size(glyphs, text)).0,
        ) == position.0,
        font.layout_vertical == TextLayoutVertical::TOP ==> text_start(
            font,
            position,
            text_size(glyphs, text),
        ).1 == position.1,
        font.layout_vertical == TextLayoutVertical::MIDDLE ==> text_start(
            font,
            position,
            text_size(glyphs, text),
        ).1 == position.1 - text_size(glyphs, text).1 / 2,
        font.layout_vertical == TextLayoutVertical::BOTTOM ==> text_start(
            font,
            position,
            text_size(glyphs, text),
        ).1 == position.1 - text_size(glyphs, text).1,
{
    let w = text_size(glyphs, text).0;
    let h = text_size(glyphs, text).1;
    assert((w as i32) as int == w as int);
    assert((h as i32) as int == h as int);
    if font.layout_horizontal == TextLayoutHorizontal::RIGHT {
        lemma_pen_end(glyphs, font, text, text_start(font, position, text_size(glyphs, text)).0);
    }
}

/// `after` is the window `before` with `text` drawn over it in `font`, its glyphs `glyphs`,
/// laid out from `position`.
pub open spec fn text_drawn(
    before: ImageViewMut<u32>,
    after: ImageViewMut<u32>,
    glyphs: Map<char, Glyph>,
    font: Font,
    text: Seq<char>,
    position: Position,
) -> bool {
    &&& same_outside(&before, &after)
    &&& forall|x: int, y: int|
        #![trigger after.spec_at(x, y)]
        in_size(before.spec_size(), x, y) ==> after.spec_at(x, y) == text_pixel(
            before,
            glyphs,
            font,
            text,
            text_start(font, position, text_size(glyphs, text)),
            x,
            y,
        )
}

/// With no glyph loaded, drawing text leaves every pixel as it was.
proof fn lemma_text_pixel_no_glyphs(
    dst: ImageViewMut<u32>,
    glyphs: Map<char, Glyph>,
    font: Font,
    text: Seq<char>,
    start: (i32, i32),
    x: int,
    y: int,
)
    requires
        glyphs == Map::<char, Glyph>::empty(),
    ensures
        text_pixel(dst, glyphs, font, text, start, x, y) == dst.spec_at(x, y),
    decreases text.len(),
{
    if text.len() > 0 {
        lemma_text_pixel_no_glyphs(dst, glyphs, font, text.drop_last(), start, x, y);
    }
}

/// The font lines made so far, and the loader that fills them.
pub struct FontFactory<L: FontLoader> {
    library: Vec<FontLine>,
    loader: L,
}

/// The glyphs of the line `font.line` of `lines`, none if there is no such line.
pub open spec fn font_glyphs(lines: Seq<FontLine>, font: Font) -> Map<char, Glyph> {
    if font.line < lines.len() {
        lines[font.line as int].glyphs()
    } else {
        Map::empty()
    }
}

/// `after` holds the lines of `before`, with the same names, sizes and modes, in the same
/// places, each with at least the glyphs it had.
pub open spec fn lines_grow(before: Seq<FontLine>, after: Seq<FontLine>) -> bool {
    &&& after.len() >= before.len()
    &&& forall|i: int|
        #![trigger after[i]]
        0 <= i < before.len() ==> after[i].spec_name() == before[i].spec_name()
            && after[i].spec_size() == before[i].spec_size() && after[i].spec_mode()
            == before[i].spec_mode() && before[i].glyphs().dom().subset_of(
            after[i].glyphs().dom(),
        )
}

/// The key by which a line is found again: its name, size and mode.
pub open spec fn line_key(line: FontLine) -> (Seq<char>, i32, FontAntiAliasingMode) {
    (line.spec_name(), line.spec_size(), line.spec_mode())
}

impl<L: FontLoader> FontFactory<L> {
    /// The font lines made so far.
    pub closed spec fn lines(&self) -> Seq<FontLine> {
        self.library@
    }

    /// Every line caches at most one glyph per character, and no two lines share a name,
    /// size and mode.
    pub open spec fn wf(&self) -> bool {
        &&& forall|i: int| 0 <= i < self.lines().len() ==> #[trigger] self.lines()[i].wf()
        &&& forall|i: int, j: int|
            0 <= i < self.lines().len() && 0 <= j < self.lines().len() && line_key(
                #[trigger] self.lines()[i],
            ) == line_key(#[trigger] self.lines()[j]) ==> i == j
    }

    /// A factory with no font line yet.
    pub fn new(loader: L) -> (r: Self)
        ensures
            r.lines() == Seq::<FontLine>::empty(),
            r.wf(),
    {
        FontFactory { library: Vec::new(), loader }
    }

    /// A font for the line named `name` at `size` in `anti_aliasing_mode`, made if there is
    /// none yet, in black, left and top aligned.
    pub fn new_font(&mut self, name: &str, size: i32, anti_aliasing_mode: FontAntiAliasingMode) -> (r: Font)
        requires
            old(self).wf(),
        ensures
            final(self).wf(),
            r.line < final(self).lines().len(),
            line_key(final(self).lines()[r.line as int]) == (name@, size, anti_aliasing_mode),
            r.color == 0,
            r.light == false,
            r.layout_horizontal == TextLayoutHorizontal::LEFT,
            r.layout_vertical == TextLayoutVertical::TOP,
            (exists|i: int|
                0 <= i < old(self).lines().len() && line_key(#[trigger] old(self).lines()[i]) == (
                    name@,
                    size,
                    anti_aliasing_mode,
                )) ==> final(self).lines() == old(self).lines(),
            !(exists|i: int|
                0 <= i < old(self).lines().len() && line_key(#[trigger] old(self).lines()[i]) == (
                    name@,
                    size,
                    anti_aliasing_mode,
                )) ==> final(self).lines().len() == old(self).lines().len() + 1
                && final(self).lines().drop_last() == old(self).lines()
                && final(self).lines().last().glyphs() == Map::<char, Glyph>::empty(),
    {
        let name_string = name.to_owned();
        proof {
            assert(!spec_color_is_light(0)) by {
                assert((0u32 & 0xFFu32) + ((0u32 >> 8u32) & 0xFFu32) + ((0u32 >> 16u32) & 0xFFu32)
                    == 0) by (bit_vector);
            }
        }
        let mut i: usize = 0;
        while i < self.library.len()
            invariant
                i <= self.library.len(),
                name_string@ == name@,
                self.wf(),
                !spec_color_is_light(0),
                forall|j: int|
                    0 <= j < i ==> line_key(#[trigger] self.library@[j]) != (
                        name@,
                        size,
                        anti_aliasing_mode,
                    ),
            decreases self.library.len() - i,
        {
            let line = &self.library[i];
            if line.name == name_string && line.size == size && line.anti_aliasing_mode
                == anti_aliasing_mode {
                proof {
                    assert(line.name@ == name@);
                    assert(line_key(self.library@[i as int]) == (name@, size, anti_aliasing_mode));
                }
                return Font::new(
                    0x000000,
                    TextLayoutHorizontal::LEFT,
                    TextLayoutVertical::TOP,
                    i,
                );
            }
            i += 1;
        }
        let ghost before = self.library@;
        let line = FontLine::new(name_string, size, anti_aliasing_mode);
        self.library.push(line);
        proof {
            assert(self.library@.drop_last() == before);
            assert forall|a: int, b: int|
                0 <= a < self.library@.len() && 0 <= b < self.library@.len() && line_key(
                    #[trigger] self.library@[a],
                ) == line_key(#[trigger] self.library@[b]) implies a == b by {
                if a < before.len() && b < before.len() {
                    assert(before[a] == self.library@[a]);
                    assert(before[b] == self.library@[b]);
                }
            }
        }
        Font::new(0x000000, TextLayoutHorizontal::LEFT, TextLayoutVertical::TOP, i)
    }
}

impl Font {
    fn new(
        color: u32,
        layout_horizontal: TextLayoutHorizontal,
        layout_vertical: TextLayoutVertical,
        line: usize,
    ) -> (r: Self)
        ensures
            r == (Font {
                color,
                light: spec_color_is_light(color),
                layout_horizontal,
                layout_vertical,
                line,
            }),
    {
        Self { color, light: Self::color_is_light(color), layout_horizontal, layout_vertical, line }
    }

    fn color_is_light(color: u32) -> (r: bool)
        ensures
            r == spec_color_is_light(color),
    {
        let r = color & 0xFF;
        let g = (color >> 8) & 0xFF;
        let b = (color >> 16) & 0xFF;
        assert(r <= 0xFF && g <= 0xFF && b <= 0xFF) by (bit_vector)
            requires
                r == color & 0xFF,
                g == (color >> 8u32) & 0xFF,
                b == (color >> 16u32) & 0xFF,
        ;
        r + g + b >= 0x180
    }

    /// The same font in another colour.
    pub fn color(&self, color: u32) -> (r: Self)
        ensures
            r == (Font { color, light: spec_color_is_light(color), ..*self }),
    {
        let mut result = *self;
        result.color = color;
        result.light = Self::color_is_light(color);
        result
    }

    /// The same font with another vertical layout.
    pub fn layout_vertical(&self, layout: TextLayoutVertical) -> (r: Self)
        ensures
            r == (Font { layout_vertical: layout, ..*self }),
    {
        let mut result = *self;
        result.layout_vertical = layout;
        result
    }

    /// The same font with another horizontal layout.
    pub fn layout_horizontal(&self, layout: TextLayoutHorizontal) -> (r: Self)
        ensures
            r == (Font { layout_horizontal: layout, ..*self }),
    {
        let mut result = *self;
        result.layout_horizontal = layout;
        result
    }

    /// The font line the font draws with, if `factory` has it.
    pub fn get_info<'a, L: FontLoader>(&self, factory: &'a FontFactory<L>) -> (r: Option<&'a FontLine>)
        ensures
            self.line < factory.lines().len() ==> r == Some(&factory.lines()[self.line as int]),
            self.line >= factory.lines().len() ==> r is None,
    {
        if self.line < factory.library.len() {
            Some(&factory.library[self.line])
        } else {
            None
        }
    }

    /// Width and height of `text`: the widths of its glyphs add up (saturating), the height
    /// is the largest. Glyphs missing from the cache are loaded first, by blocks of 256
    /// characters.
    pub fn get_size<L: FontLoader>(&self, text: &str, factory: &mut FontFactory<L>) -> (r: ImageSize)
        requires
            old(factory).wf(),
        ensures
            final(factory).wf(),
            lines_grow(old(factory).lines(), final(factory).lines()),
            final(factory).lines().len() == old(factory).lines().len(),
            r == text_size(font_glyphs(final(factory).lines(), *self), text@),
    {
        let chars = to_chars(text);
        self.get_chars_size(&chars, factory)
    }

    /// Width and height of the text made of `chars`, as `get_size` measures it.
    pub fn get_chars_size<L: FontLoader>(&self, chars: &Vec<char>, factory: &mut FontFactory<L>) -> (r: ImageSize)
        requires
            old(factory).wf(),
        ensures
            final(factory).wf(),
            lines_grow(old(factory).lines(), final(factory).lines()),
            final(factory).lines().len() == old(factory).lines().len(),
            r == text_size(font_glyphs(final(factory).lines(), *self), chars@),
    {
        factory.load_chars(self.line, chars);
        factory.text_size(self.line, chars)
    }

    /// Width and height of `text` with the glyphs cached now; nothing is loaded.
    pub fn measure<L: FontLoader>(&self, text: &str, factory: &FontFactory<L>) -> (r: ImageSize)
        requires
            factory.wf(),
        ensures
            r == text_size(font_glyphs(factory.lines(), *self), text@),
    {
        let chars = to_chars(text);
        factory.text_size(self.line, &chars)
    }

    /// The width of each character of `chars` on its own; missing glyphs are loaded first.
    pub fn char_widths<L: FontLoader>(&self, chars: &Vec<char>, factory: &mut FontFactory<L>) -> (r: Vec<usize>)
        requires
            old(factory).wf(),
        ensures
            final(factory).wf(),
            lines_grow(old(factory).lines(), final(factory).lines()),
            final(factory).lines().len() == old(factory).lines().len(),
            r@.len() == chars@.len(),
            forall|i: int|
                0 <= i < chars@.len() ==> #[trigger] r@[i] == glyph_width(
                    font_glyphs(final(factory).lines(), *self),
                    chars@[i],
                ),
    {
        factory.load_chars(self.line, chars);
        let mut r: Vec<usize> = Vec::new();
        let mut i: usize = 0;
        while i < chars.len()
            invariant
                i <= chars.len(),
                factory.wf(),
                r@.len() == i,
                forall|j: int|
                    0 <= j < i ==> #[trigger] r@[j] == glyph_width(
                        font_glyphs(factory.lines(), *self),
                        chars@[j],
                    ),
            decreases chars.len() - i,
        {
            let w = factory.char_width(self.line, chars[i]);
            r.push(w);
            i += 1;
        }
        r
    }

    /// Draws `text` in the font's colour into the window of `dst`, placed at `position` as the
    /// layout says, each glyph after the previous one; missing glyphs are loaded first.
    /// Only the window's pixels may change.
    pub fn draw<L: FontLoader>(
        &self,
        text: &str,
        position: Position,
        dst: &mut ImageViewMut<u32>,
        factory: &mut FontFactory<L>,
    )
        requires
            old(factory).wf(),
        ensures
            final(factory).wf(),
            lines_grow(old(factory).lines(), final(factory).lines()),
            final(factory).lines().len() == old(factory).lines().len(),
            text_drawn(*old(dst), *final(dst), font_glyphs(final(factory).lines(), *self), *self, text@, position),
    {
        let chars = to_chars(text);
        self.draw_chars(&chars, position, dst, factory)
    }

    /// Draws the text made of `chars`, as `draw` does.
    pub fn draw_chars<L: FontLoader>(
        &self,
        chars: &Vec<char>,
        position: Position,
        dst: &mut ImageViewMut<u32>,
        factory: &mut FontFactory<L>,
    )
        requires
            old(factory).wf(),
        ensures
            final(factory).wf(),
            lines_grow(old(factory).lines(), final(factory).lines()),
            final(factory).lines().len() == old(factory).lines().len(),
            text_drawn(*old(dst), *final(dst), font_glyphs(final(factory).lines(), *self), *self, chars@, position),
    {
        factory.load_chars(self.line, chars);
        let size = factory.text_size(self.line, chars);
        let start_x = match self.layout_horizontal {
            TextLayoutHorizontal::LEFT => start_by_layout(position.0, size.0, 0),
            TextLayoutHorizontal::MIDDLE => start_by_layout(position.0, size.0, 1),
            TextLayoutHorizontal::RIGHT => start_by_layout(position.0, size.0, 2),
        };
        let start_y = match self.layout_vertical {
            TextLayoutVertical::TOP => start_by_layout(position.1, size.1, 0),
            TextLayoutVertical::MIDDLE => start_by_layout(position.1, size.1, 1),
            TextLayoutVertical::BOTTOM => start_by_layout(position.1, size.1, 2),
        };
        let ghost glyphs = font_glyphs(factory.lines(), *self);
        let ghost start = text_start(*self, position, text_size(glyphs, chars@));
        assert(glyphs == font_glyphs(
            factory.lines(),
            Font { color: 0, light: false, layout_horizontal: TextLayoutHorizontal::LEFT, layout_vertical: TextLayoutVertical::TOP, line: self.line },
        ));
        assert(start_x == start.0 && start_y == start.1);
        let ghost dst0 = *dst;
        if self.line >= factory.library.len() {
            assert forall|x: int, y: int| in_size(dst0.spec_size(), x, y) implies dst.spec_at(x, y) == text_pixel(dst0, glyphs, *self, chars@, start, x, y) by {
                lemma_text_pixel_no_glyphs(dst0, glyphs, *self, chars@, start, x, y);
            }
            return ;
        }
        let line = &factory.library[self.line];
        assert(line.glyphs() == glyphs);
        let mut x = start_x;
        let mut i: usize = 0;
        while i < chars.len()
            invariant
                i <= chars.len(),
                line.wf(),
                line.glyphs() == glyphs,
                same_outside(&dst0, dst),
                x == pen_x(glyphs, *self, chars@.take(i as int), start.0),
                start_y == start.1,
                forall|px: int, py: int|
                    #![trigger dst.spec_at(px, py)]
                    in_size(dst0.spec_size(), px, py) ==> dst.spec_at(px, py) == text_pixel(
                        dst0,
                        glyphs,
                        *self,
                        chars@.take(i as int),
                        start,
                        px,
                        py,
                    ),
            decreases chars.len() - i,
        {
            let ghost before = *dst;
            let ghost pen = x;
            assert(chars@.take(i + 1).drop_last() =~= chars@.take(i as int));
            assert(chars@.take(i + 1).last() == chars@[i as int]);
            match line.glyph(chars[i]) {
                Some(Glyph::NoAA(img)) => {
                    dst.draw(&img.as_view(), (x, start_y), &MaskColor(self.color));
                    x = x.wrapping_add(img.get_size().0 as i32);
                },
                Some(Glyph::AA(img_black, img_white)) => {
                    let img = if self.light { img_white } else { img_black };
                    dst.draw(&img.as_view(), (x, start_y), &BlendGray(self.color));
                    x = x.wrapping_add(img.get_size().0 as i32);
                },
                Some(Glyph::TT(img_black, img_white)) => {
                    let img = if self.light { img_white } else { img_black };
                    dst.draw(&img.as_view(), (x, start_y), &BlendSubpixel(self.color));
                    x = x.wrapping_add(img.get_size().0 as i32);
                },
                None => {},
            }
            proof {
                lemma_same_outside_trans(&dst0, &before, dst);
                assert forall|px: int, py: int| in_size(dst0.spec_size(), px, py) implies #[trigger] dst.spec_at(px, py)
                    == text_pixel(dst0, glyphs, *self, chars@.take(i + 1), start, px, py) by {
                    assert(before.spec_at(px, py) == text_pixel(dst0, glyphs, *self, chars@.take(i as int), start, px, py));
                }
            }
            i += 1;
        }
        assert(chars@.take(chars@.len() as int) =~= chars@);
    }
}

/// The characters of `text`, in order.
pub fn to_chars(text: &str) -> (r: Vec<char>)
    ensures
        r@ == text@,
{
    let mut r: Vec<char> = Vec::new();
    for c in it: text.chars()
        invariant
            r@ == it.seq().take(it.index() as int),
    {
        r.push(c);
    }
    r
}

impl<L: FontLoader> FontFactory<L> {
    fn insert_glyph(&mut self, line: usize, c: char, glyph: Glyph)
        requires
            old(self).wf(),
            line < old(self).lines().len(),
        ensures
            final(self).wf(),
            final(self).lines().len() == old(self).lines().len(),
            final(self).lines()[line as int].glyphs() == old(self).lines()[line as int].glyphs().insert(
                c,
                glyph,
            ),
            line_key(final(self).lines()[line as int]) == line_key(old(self).lines()[line as int]),
            forall|j: int|
                0 <= j < final(self).lines().len() && j != line ==> #[trigger] final(self).lines()[j]
                    == old(self).lines()[j],
    {
        let ghost before = self.library@;
        self.library[line].insert(c, glyph);
        proof {
            assert forall|a: int, b: int|
                0 <= a < self.library@.len() && 0 <= b < self.library@.len() && line_key(
                    #[trigger] self.library@[a],
                ) == line_key(#[trigger] self.library@[b]) implies a == b by {
                assert(line_key(before[a]) == line_key(self.library@[a]));
                assert(line_key(before[b]) == line_key(self.library@[b]));
            }
        }
    }

    /// Caches the glyphs `glyphs` of line `line` in order, each replacing a glyph of the same
    /// character, as `with_glyphs` says.
    fn cache_glyphs(&mut self, line: usize, glyphs: Vec<(char, Glyph)>)
        requires
            old(self).wf(),
            line < old(self).lines().len(),
        ensures
            final(self).wf(),
            final(self).lines().len() == old(self).lines().len(),
            final(self).lines()[line as int].glyphs() == with_glyphs(old(self).lines()[line as int].glyphs(), glyphs@),
            line_key(final(self).lines()[line as int]) == line_key(old(self).lines()[line as int]),
            forall|j: int|
                0 <= j < final(self).lines().len() && j != line ==> #[trigger] final(self).lines()[j]
                    == old(self).lines()[j],
    {
        let ghost all = glyphs@;
        let total = glyphs.len();
        let mut rest = glyphs;
        let mut k: usize = 0;
        while rest.len() > 0
            invariant
                k <= all.len(),
                all.len() == total,
                rest@ == all.skip(k as int),
                line < self.lines().len(),
                self.wf(),
                self.lines().len() == old(self).lines().len(),
                self.lines()[line as int].glyphs() == with_glyphs(old(self).lines()[line as int].glyphs(), all.take(k as int)),
                line_key(self.lines()[line as int]) == line_key(old(self).lines()[line as int]),
                forall|j: int|
                    0 <= j < self.lines().len() && j != line ==> #[trigger] self.lines()[j] == old(self).lines()[j],
            decreases rest@.len(),
        {
            let (gc, g) = rest.remove(0);
            self.insert_glyph(line, gc, g);
            proof {
                assert(all.take(k + 1).drop_last() =~= all.take(k as int));
                assert(all.take(k + 1).last() == all[k as int]);
                assert(rest@ =~= all.skip(k + 1));
            }
            k += 1;
        }
        proof {
            assert(all.take(k as int) =~= all);
        }
    }

    /// Makes sure the glyph of every character of `chars` has been asked of the loader: for a
    /// character not cached yet, its whole block of 256 codes (`glyph_block`) is asked of the
    /// loader, and what it gives is cached (`cache_glyphs`).
    fn load_chars(&mut self, line: usize, chars: &Vec<char>)
        requires
            old(self).wf(),
        ensures
            final(self).wf(),
            final(self).lines().len() == old(self).lines().len(),
            lines_grow(old(self).lines(), final(self).lines()),
            forall|j: int|
                0 <= j < final(self).lines().len() && j != line ==> #[trigger] final(self).lines()[j]
                    == old(self).lines()[j],
    {
        if line >= self.library.len() {
            return ;
        }
        let mut i: usize = 0;
        while i < chars.len()
            invariant
                i <= chars.len(),
                line < self.library.len(),
                self.wf(),
                self.lines().len() == old(self).lines().len(),
                lines_grow(old(self).lines(), self.lines()),
                forall|j: int|
                    0 <= j < self.lines().len() && j != line ==> #[trigger] self.lines()[j] == old(self).lines()[j],
            decreases chars.len() - i,
        {
            let c = chars[i];
            if !self.library[line].contains(c) {
                let block = glyph_block(c);
                let name = self.library[line].name.clone();
                let size = self.library[line].size;
                let mode = self.library[line].anti_aliasing_mode;
                let glyphs = self.loader.load_glyphs(name.as_str(), size, block.0, block.1, mode);
                let ghost mid = self.lines();
                self.cache_glyphs(line, glyphs);
                proof {
                    assert forall|j: int|
                        #![trigger self.lines()[j]]
                        0 <= j < old(self).lines().len() implies self.lines()[j].spec_name()
                        == old(self).lines()[j].spec_name() && self.lines()[j].spec_size()
                        == old(self).lines()[j].spec_size() && self.lines()[j].spec_mode()
                        == old(self).lines()[j].spec_mode() && old(self).lines()[j].glyphs().dom().subset_of(
                        self.lines()[j].glyphs().dom(),
                    ) by {
                        assert(mid[j] == mid[j]);
                        if j == line {
                            lemma_with_glyphs_grows(mid[j].glyphs(), glyphs@);
                        }
                    }
                }
            }
            i += 1;
        }
    }

    /// The size of `chars` drawn with line `line`, as `text_size` says.
    fn text_size(&self, line: usize, chars: &Vec<char>) -> (r: ImageSize)
        requires
            self.wf(),
        ensures
            r == text_size(
                font_glyphs(self.lines(), Font { color: 0, light: false, layout_horizontal: TextLayoutHorizontal::LEFT, layout_vertical: TextLayoutVertical::TOP, line }),
                chars@,
            ),
    {
        let ghost glyphs = font_glyphs(self.lines(), Font { color: 0, light: false, layout_horizontal: TextLayoutHorizontal::LEFT, layout_vertical: TextLayoutVertical::TOP, line });
        let mut width: usize = 0;
        let mut height: usize = 0;
        let mut i: usize = 0;
        while i < chars.len()
            invariant
                i <= chars.len(),
                self.wf(),
                glyphs == font_glyphs(self.lines(), Font { color: 0, light: false, layout_horizontal: TextLayoutHorizontal::LEFT, layout_vertical: TextLayoutVertical::TOP, line }),
                (width, height) == text_size(glyphs, chars@.take(i as int)),
            decreases chars.len() - i,
        {
            proof {
                assert(chars@.take(i + 1).drop_last() == chars@.take(i as int));
                assert(chars@.take(i + 1).last() == chars@[i as int]);
                if line < self.library.len() {
                    assert(self.lines()[line as int].wf());
                    assert(glyphs == self.lines()[line as int].glyphs());
                } else {
                    assert(glyphs == Map::<char, Glyph>::empty());
                }
            }
            let size = if line < self.library.len() {
                match self.library[line].glyph(chars[i]) {
                    Some(g) => g.get_size(),
                    None => (0, 0),
                }
            } else {
                (0, 0)
            };
            width = width.saturating_add(size.0);
            if size.1 > height {
                height = size.1;
            }
            i += 1;
        }
        proof {
            assert(chars@.take(chars@.len() as int) == chars@);
        }
        (width, height)
    }
}

impl<L: FontLoader> FontFactory<L> {
    fn char_width(&self, line: usize, c: char) -> (r: usize)
        requires
            self.wf(),
        ensures
            r == glyph_width(
                font_glyphs(self.lines(), Font { color: 0, light: false, layout_horizontal: TextLayoutHorizontal::LEFT, layout_vertical: TextLayoutVertical::TOP, line }),
                c,
            ),
    {
        if line < self.library.len() {
            proof {
                assert(self.lines()[line as int].wf());
            }
            match self.library[line].glyph(c) {
                Some(g) => g.get_size().0,
                None => 0,
            }
        } else {
            0
        }
    }
}


/// The glyph map `m` with the glyphs `v` put in, in order, each replacing a glyph of the same
/// character.
pub open spec fn with_glyphs(m: Map<char, Glyph>, v: Seq<(char, Glyph)>) -> Map<char, Glyph>
    decreases v.len(),
{
    if v.len() == 0 {
        m
    } else {
        with_glyphs(m, v.drop_last()).insert(v.last().0, v.last().1)
    }
}

/// Putting glyphs in keeps every character that had one.
proof fn lemma_with_glyphs_grows(m: Map<char, Glyph>, v: Seq<(char, Glyph)>)
    ensures
        m.dom().subset_of(with_glyphs(m, v).dom()),
    decreases v.len(),
{
    if v.len() > 0 {
        lemma_with_glyphs_grows(m, v.drop_last());
    }
}

/// The block of 256 codes that holds `c`, as the loader is asked for it: from `c`'s code with
/// its lowest 8 bits cleared (included) to 256 codes further (excluded).
pub fn glyph_block(c: char) -> (r: (u32, u32))
    ensures
        r.0 == (c as u32) & !0xFFu32,
        r.1 == r.0 + 0x100,
{
    let code = c as u32;
    assert(code <= 0x10FFFF);
    assert(code <= 0x10FFFF ==> code & !0xFFu32 <= 0x10FFFF) by (bit_vector);
    let first = code & !0xFF;
    (first, first + 0x100)
}

} // verus!
