//! The core of the GUI: sizes and rectangles, the state every control shares, colour themes,
//! the messages controls handle, and the system that routes input events to the controls of
//! a tree.

pub mod gui_components;
pub mod edit;
pub mod scroll;
pub mod tree;
pub mod system;

use vstd::prelude::*;
use crate::image::{ImageSize, ImageViewMut, Position, SetPixel, same_outside, lemma_window_same_outside, fits, in_size};
use crate::font::{Font, FontFactory, FontLoader, Glyph, lines_grow, font_glyphs, text_pixel, text_start, text_size};
use crate::keys::{Hotkey, Key};
use crate::job_system::{Job, JobSystem};

verus! {

/// Rust's `/` on integers: the quotient rounded towards zero (`b` is positive here).
pub open spec fn tdiv(a: int, b: int) -> int {
    if a >= 0 { a / b } else { -((-a) / b) }
}

/// `x` saturated to the range of `i32`.
pub open spec fn sat_i32(x: int) -> i32 {
    if x > i32::MAX { i32::MAX } else if x < i32::MIN { i32::MIN } else { x as i32 }
}

/// Divides rounding towards zero, like Rust's `/`.
pub fn div_trunc(a: i64, b: i64) -> (r: i64)
    requires
        b > 0,
        a > i64::MIN,
    ensures
        r == tdiv(a as int, b as int),
{
    if a >= 0 {
        a / b
    } else {
        -((-a) / b)
    }
}

/// Divides rounding towards zero, like Rust's `/`, on wide integers.
pub fn div_trunc_wide(a: i128, b: i128) -> (r: i128)
    requires
        b > 0,
        a > i128::MIN,
    ensures
        r == tdiv(a as int, b as int),
{
    if a >= 0 {
        a / b
    } else {
        -((-a) / b)
    }
}

/// `x` saturated to the range of `i32`.
pub fn saturate_i32(x: i64) -> (r: i32)
    ensures
        r == sat_i32(x as int),
{
    if x > i32::MAX as i64 {
        i32::MAX
    } else if x < i32::MIN as i64 {
        i32::MIN
    } else {
        x as i32
    }
}

/// How large a control wants to be along one axis: `absolute` pixels, plus a share
/// `relative` of the room left over.
#[derive(PartialEq, Eq, Structural, Copy, Clone)]
pub struct SizeConstraint {
    pub absolute: i32,
    pub relative: i32,
}

impl SizeConstraint {
    /// Exactly `absolute` pixels.
    pub fn fixed(absolute: i32) -> (r: Self)
        ensures
            r == (SizeConstraint { absolute, relative: 0 }),
    {
        Self { absolute, relative: 0 }
    }

    /// At least `absolute` pixels, growing with the room left over.
    pub fn flexible(absolute: i32) -> (r: Self)
        ensures
            r == (SizeConstraint { absolute, relative: 100 }),
    {
        Self { absolute, relative: 100 }
    }
}

/// Size constraints along the horizontal and the vertical axis.
#[derive(PartialEq, Eq, Structural, Copy, Clone)]
pub struct SizeConstraints(pub SizeConstraint, pub SizeConstraint);

/// A rectangle from `left_top` (included) to `right_bottom` (excluded).
#[derive(Copy, Clone)]
pub struct Rect {
    pub left_top: Position,
    pub right_bottom: Position,
}

/// Whether `position` lies in `rect`.
pub open spec fn rect_contains(rect: Rect, position: Position) -> bool {
    rect.left_top.0 <= position.0 && rect.left_top.1 <= position.1 && rect.right_bottom.0
        > position.0 && rect.right_bottom.1 > position.1
}

/// Whether the right-bottom corner of `rect` is not above or left of its left-top corner.
pub open spec fn rect_valid(rect: Rect) -> bool {
    rect.right_bottom.0 >= rect.left_top.0 && rect.right_bottom.1 >= rect.left_top.1
}

impl Rect {
    /// The empty rectangle at the origin.
    pub fn zero() -> (r: Self)
        ensures
            r == (Rect { left_top: (0i32, 0i32), right_bottom: (0i32, 0i32) }),
    {
        Rect { left_top: (0, 0), right_bottom: (0, 0) }
    }

    /// Whether `position` lies in the rectangle.
    pub fn contains(self, position: Position) -> (r: bool)
        ensures
            r == rect_contains(self, position),
    {
        self.left_top.0 <= position.0 && self.left_top.1 <= position.1 && self.right_bottom.0
            > position.0 && self.right_bottom.1 > position.1
    }

    /// `position` relative to the left-top corner of the rectangle.
    pub fn relative(self, position: Position) -> (r: Position)
        requires
            i32::MIN <= position.0 - self.left_top.0 <= i32::MAX,
            i32::MIN <= position.1 - self.left_top.1 <= i32::MAX,
        ensures
            r == ((position.0 - self.left_top.0) as i32, (position.1 - self.left_top.1) as i32),
    {
        (position.0 - self.left_top.0, position.1 - self.left_top.1)
    }
}

/// The state every control has: its constraints, visibility, the flags the GUI system sets,
/// and the rectangle it occupies.
#[derive(Copy, Clone)]
pub struct GuiControlBase {
    pub size_constraints: SizeConstraints,
    pub current_size_constraints: SizeConstraints,
    pub visible: bool,
    pub need_redraw: bool,
    pub focus: bool,
    pub highlight: bool,
    pub pressed: bool,
    pub rect: Rect,
}

/// A control's state as it is made: visible, with no flag set, at the empty rectangle.
pub open spec fn new_base(size_constraints: SizeConstraints) -> GuiControlBase {
    GuiControlBase {
        size_constraints,
        current_size_constraints: size_constraints,
        visible: true,
        need_redraw: false,
        focus: false,
        highlight: false,
        pressed: false,
        rect: Rect { left_top: (0i32, 0i32), right_bottom: (0i32, 0i32) },
    }
}

impl GuiControlBase {
    /// A visible control with no flag set, at the empty rectangle.
    pub fn new(size_constraints: SizeConstraints) -> (r: Self)
        ensures
            r == new_base(size_constraints),
    {
        Self {
            size_constraints,
            current_size_constraints: size_constraints,
            visible: true,
            need_redraw: false,
            focus: false,
            highlight: false,
            pressed: false,
            rect: Rect::zero(),
        }
    }

    /// Whether the control is to be drawn now: it is visible, and it asked for a redraw or the
    /// redraw is forced. The request is cleared either way.
    pub fn can_draw(&mut self, force: bool) -> (r: bool)
        ensures
            r == (old(self).visible && (old(self).need_redraw || force)),
            *final(self) == (GuiControlBase { need_redraw: false, ..*old(self) }),
    {
        let result = self.visible && (self.need_redraw || force);
        self.need_redraw = false;
        result
    }

    /// Paints the whole window of `buffer` in the theme's background colour.
    pub fn erase_background(buffer: &mut ImageViewMut<u32>, theme: &GuiColorTheme)
        ensures
            same_outside(old(buffer), final(buffer)),
            forall|x: int, y: int|
                #![trigger final(buffer).spec_at(x, y)]
                0 <= x < old(buffer).spec_size().0 && 0 <= y < old(buffer).spec_size().1
                    ==> final(buffer).spec_at(x, y) == theme.background,
    {
        buffer.fill(&SetPixel(theme.background));
    }
}

/// The colours the controls are drawn in.
#[derive(PartialEq, Eq, Structural, Copy, Clone)]
pub struct GuiColorTheme {
    pub background: u32,
    pub font: u32,
    pub hotkey: u32,
    pub splitter: u32,
    pub highlight: u32,
    pub pressed: u32,
    pub selected: u32,
    pub inactive: u32,
    pub edit_highlight: u32,
    pub edit_focused: u32,
}

/// The colours of the dark theme.
pub open spec fn dark_theme_spec() -> GuiColorTheme {
    GuiColorTheme {
        background: 0x000000,
        font: 0xCCCCCC,
        hotkey: 0xAACCAA,
        splitter: 0xAACCAA,
        highlight: 0xAAAAAA,
        pressed: 0xFFFFFF,
        selected: 0x66CC66,
        inactive: 0x444444,
        edit_highlight: 0x666666,
        edit_focused: 0x888888,
    }
}

/// The colours of the light theme.
pub open spec fn light_theme_spec() -> GuiColorTheme {
    GuiColorTheme {
        background: 0xFFFFFF,
        font: 0x000000,
        hotkey: 0x664422,
        splitter: 0x664422,
        highlight: 0x666666,
        pressed: 0x222222,
        selected: 0xCC8844,
        inactive: 0xAAAAAA,
        edit_highlight: 0xCCCCCC,
        edit_focused: 0xEEEEEE,
    }
}

/// Light text on black.
pub fn dark_theme() -> (r: GuiColorTheme)
    ensures
        r == dark_theme_spec(),
{
    GuiColorTheme {
        background: 0x000000,
        font: 0xCCCCCC,
        hotkey: 0xAACCAA,
        splitter: 0xAACCAA,
        highlight: 0xAAAAAA,
        pressed: 0xFFFFFF,
        selected: 0x66CC66,
        inactive: 0x444444,
        edit_highlight: 0x666666,
        edit_focused: 0x888888,
    }
}

/// Black text on white.
pub fn light_theme() -> (r: GuiColorTheme)
    ensures
        r == light_theme_spec(),
{
    GuiColorTheme {
        background: 0xFFFFFF,
        font: 0x000000,
        hotkey: 0x664422,
        splitter: 0x664422,
        highlight: 0x666666,
        pressed: 0x222222,
        selected: 0xCC8844,
        inactive: 0xAAAAAA,
        edit_highlight: 0xCCCCCC,
        edit_focused: 0xEEEEEE,
    }
}

/// The callback that a hot-key runs.
pub struct HotkeyCallback(pub Job);

/// A message that a control handles; drawing and finding the control under a position are
/// methods of their own.
pub enum GuiMessage {
    /// Compute the size constraints, which go to `MessageOutput::size_constraints`.
    UpdateSizeConstraints,
    /// The control's rectangle changed: lay out its children.
    RectUpdated,
    /// The control lost the focus.
    FocusLose,
    MouseDown(Position),
    MouseMove(Position),
    MouseUp(Position),
    MouseWheel(Position, i32),
    Char(char),
    /// A key went down; a control may set `MessageOutput::unfocus`.
    KeyDown(Key),
    KeyUp(Key),
    /// A hot-key was pressed; a control may set `MessageOutput::use_default_keydown`.
    Hotkey(Hotkey),
    /// Collect the hot-keys into `MessageOutput::hotkeys`; whether the control is active.
    GetHotkeys(bool),
    Show,
    Hide,
    Create,
    Destroy,
}

/// What handling a message produced besides its result.
pub struct MessageOutput {
    /// The callbacks asked for.
    pub jobs: JobSystem,
    /// The focused control gives the focus up.
    pub unfocus: bool,
    /// The hot-key is to be handled as an ordinary key.
    pub use_default_keydown: bool,
    /// The hot-keys collected, later ones taking precedence.
    pub hotkeys: Vec<(Hotkey, HotkeyCallback)>,
    /// The size constraints computed.
    pub size_constraints: SizeConstraints,
    /// A button was clicked.
    pub clicked: bool,
}

impl MessageOutput {
    /// An output with no job, no hot-key and no flag set.
    pub fn new() -> (r: Self)
        ensures
            r.jobs@ == Seq::<Job>::empty(),
            !r.unfocus,
            !r.use_default_keydown,
            r.hotkeys@ == Seq::<(Hotkey, HotkeyCallback)>::empty(),
            r.size_constraints == SizeConstraints(
                SizeConstraint { absolute: 0, relative: 0 },
                SizeConstraint { absolute: 0, relative: 0 },
            ),
            !r.clicked,
    {
        MessageOutput {
            jobs: JobSystem::new(),
            unfocus: false,
            use_default_keydown: false,
            hotkeys: Vec::new(),
            size_constraints: SizeConstraints(SizeConstraint::fixed(0), SizeConstraint::fixed(0)),
            clicked: false,
        }
    }
}

/// The pixel `(x, y)` of `before`'s window after `text` is drawn with `font` and `glyphs` at
/// `position` in the window's part from `left_top` to `right_bottom`: inside that part, the
/// pixel of the text drawn over the part; outside it, the pixel as it was.
pub open spec fn text_in_pixel(
    before: ImageViewMut<u32>,
    left_top: ImageSize,
    right_bottom: ImageSize,
    glyphs: Map<char, Glyph>,
    font: Font,
    text: Seq<char>,
    position: Position,
    x: int,
    y: int,
) -> u32 {
    if left_top.0 <= x < right_bottom.0 && left_top.1 <= y < right_bottom.1 {
        text_pixel(
            before.spec_window(left_top, right_bottom),
            glyphs,
            font,
            text,
            text_start(font, position, text_size(glyphs, text)),
            x - left_top.0,
            y - left_top.1,
        )
    } else {
        before.spec_at(x, y)
    }
}

/// `after` is `before` with `text` drawn with `font` and `glyphs` at `position` in the
/// window's part from `left_top` to `right_bottom`, as `draw_text_in` draws it: when the part
/// lies in the window each pixel is `text_in_pixel`; otherwise nothing changes.
pub open spec fn text_drawn_in(
    before: ImageViewMut<u32>,
    after: ImageViewMut<u32>,
    left_top: ImageSize,
    right_bottom: ImageSize,
    glyphs: Map<char, Glyph>,
    font: Font,
    text: Seq<char>,
    position: Position,
) -> bool {
    &&& same_outside(&before, &after)
    &&& if fits(&before, left_top, right_bottom) {
        forall|x: int, y: int|
            #![trigger after.spec_at(x, y)]
            in_size(before.spec_size(), x, y) ==> after.spec_at(x, y) == text_in_pixel(
                before,
                left_top,
                right_bottom,
                glyphs,
                font,
                text,
                position,
                x,
                y,
            )
    } else {
        after == before
    }
}

/// `after` is `before` with the window's part from `left_top` to `right_bottom`, when it lies
/// in the window, set to `color`, as `fill_part` with `SetPixel` does.
pub open spec fn set_part(
    before: ImageViewMut<u32>,
    after: ImageViewMut<u32>,
    left_top: ImageSize,
    right_bottom: ImageSize,
    color: u32,
) -> bool {
    &&& same_outside(&before, &after)
    &&& if fits(&before, left_top, right_bottom) {
        forall|x: int, y: int|
            #![trigger after.spec_at(x, y)]
            in_size(before.spec_size(), x, y) ==> after.spec_at(x, y) == if left_top.0 <= x < right_bottom.0
                && left_top.1 <= y < right_bottom.1 {
                color
            } else {
                before.spec_at(x, y)
            }
    } else {
        after == before
    }
}

/// `after` is `before` with every pixel of its window set to `color`.
pub open spec fn filled_with(before: ImageViewMut<u32>, after: ImageViewMut<u32>, color: u32) -> bool {
    &&& same_outside(&before, &after)
    &&& forall|x: int, y: int|
        #![trigger after.spec_at(x, y)]
        in_size(before.spec_size(), x, y) ==> after.spec_at(x, y) == color
}

/// Draws `text` with `font` at `position` in the part of `buf`'s window from `left_top` to
/// `right_bottom`, if that part lies in the window; nothing changes outside the window.
pub fn draw_text_in<L: FontLoader>(
    buf: &mut ImageViewMut<u32>,
    left_top: ImageSize,
    right_bottom: ImageSize,
    font: &Font,
    text: &str,
    position: Position,
    fonts: &mut FontFactory<L>,
)
    requires
        old(fonts).wf(),
    ensures
        final(fonts).wf(),
        lines_grow(old(fonts).lines(), final(fonts).lines()),
        final(fonts).lines().len() == old(fonts).lines().len(),
        same_outside(old(buf), final(buf)),
        text_drawn_in(
            *old(buf),
            *final(buf),
            left_top,
            right_bottom,
            font_glyphs(final(fonts).lines(), *font),
            *font,
            text@,
            position,
        ),
{
    if buf.fits(left_top, right_bottom) {
        let _ = buf.get_size();
        let ghost before = *buf;
        let prev = buf.window_mut(left_top, right_bottom);
        let ghost narrowed = *buf;
        font.draw(text, position, buf, fonts);
        let ghost drawn = *buf;
        buf.restore_window(prev);
        proof {
            lemma_window_same_outside(&before, &narrowed, &drawn, buf);
            assert forall|x: int, y: int| in_size(before.spec_size(), x, y) implies buf.spec_at(x, y)
                == text_in_pixel(
                before,
                left_top,
                right_bottom,
                font_glyphs(fonts.lines(), *font),
                *font,
                text@,
                position,
                x,
                y,
            ) by {
                if left_top.0 <= x < right_bottom.0 && left_top.1 <= y < right_bottom.1 {
                    assert(drawn.spec_at(x - left_top.0, y - left_top.1) == buf.spec_at(x, y));
                } else {
                    let ax = before.spec_left_top().0 + x;
                    let ay = before.spec_left_top().1 + y;
                    assert(drawn.spec_image().spec_at(ax, ay) == narrowed.spec_image().spec_at(ax, ay));
                }
            }
        }
    }
}

/// Draws the text made of `chars` as `draw_text_in` draws text.
pub fn draw_chars_in<L: FontLoader>(
    buf: &mut ImageViewMut<u32>,
    left_top: ImageSize,
    right_bottom: ImageSize,
    font: &Font,
    chars: &Vec<char>,
    position: Position,
    fonts: &mut FontFactory<L>,
)
    requires
        old(fonts).wf(),
    ensures
        final(fonts).wf(),
        lines_grow(old(fonts).lines(), final(fonts).lines()),
        final(fonts).lines().len() == old(fonts).lines().len(),
        same_outside(old(buf), final(buf)),
        text_drawn_in(
            *old(buf),
            *final(buf),
            left_top,
            right_bottom,
            font_glyphs(final(fonts).lines(), *font),
            *font,
            chars@,
            position,
        ),
{
    if buf.fits(left_top, right_bottom) {
        let _ = buf.get_size();
        let ghost before = *buf;
        let prev = buf.window_mut(left_top, right_bottom);
        let ghost narrowed = *buf;
        font.draw_chars(chars, position, buf, fonts);
        let ghost drawn = *buf;
        buf.restore_window(prev);
        proof {
            lemma_window_same_outside(&before, &narrowed, &drawn, buf);
            assert forall|x: int, y: int| in_size(before.spec_size(), x, y) implies buf.spec_at(x, y)
                == text_in_pixel(
                before,
                left_top,
                right_bottom,
                font_glyphs(fonts.lines(), *font),
                *font,
                chars@,
                position,
                x,
                y,
            ) by {
                if left_top.0 <= x < right_bottom.0 && left_top.1 <= y < right_bottom.1 {
                    assert(drawn.spec_at(x - left_top.0, y - left_top.1) == buf.spec_at(x, y));
                } else {
                    let ax = before.spec_left_top().0 + x;
                    let ay = before.spec_left_top().1 + y;
                    assert(drawn.spec_image().spec_at(ax, ay) == narrowed.spec_image().spec_at(ax, ay));
                }
            }
        }
    }
}

/// `after` is `before` with the given jobs, `unfocus` and `use_default_keydown`, the rest
/// unchanged.
pub open spec fn out_with(
    before: MessageOutput,
    after: MessageOutput,
    jobs: Seq<Job>,
    unfocus: bool,
    use_default_keydown: bool,
) -> bool {
    &&& after.jobs@ == jobs
    &&& after.unfocus == unfocus
    &&& after.use_default_keydown == use_default_keydown
    &&& after.hotkeys@ == before.hotkeys@
    &&& after.size_constraints == before.size_constraints
    &&& after.clicked == before.clicked
}

/// `after` is `before` unchanged.
pub open spec fn out_same(before: MessageOutput, after: MessageOutput) -> bool {
    out_with(before, after, before.jobs@, before.unfocus, before.use_default_keydown)
}

} // verus!
