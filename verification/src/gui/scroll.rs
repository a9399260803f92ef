//! The vertical scroll bar: a button that shows which part of a range is in sight, moved by
//! the wheel, by clicks beside it and by dragging it.

use vstd::prelude::*;
use crate::gui::{GuiColorTheme, GuiControlBase, GuiMessage, Rect, SizeConstraints, new_base, tdiv, sat_i32, saturate_i32, div_trunc_wide};
use crate::image::{ImageSize, ImageViewMut, PixelOp, Position, same_outside, lemma_same_outside_trans, fits, in_size};
use crate::color::AvgWith;

verus! {

/// Where a click on a scroll bar fell.
#[derive(PartialEq, Eq, Structural, Copy, Clone)]
pub enum ScrollState {
    Invalid,
    Less,
    /// On the button, with the distances to its top and to its bottom.
    OnButton(i32, i32),
    Greater,
}

/// A vertical scroll bar over `scroll_range` lines of which `content_size` are shown from
/// `scroll_position` on.
pub struct ScrollV {
    pub base: GuiControlBase,
    pub scroll_range: i32,
    pub content_size: i32,
    pub scroll_position: i32,
    pub scroll_state: ScrollState,
}

/// The button's size and its distance from the top of a scroll bar of height `height` over
/// `range` lines of which `content` are shown from `position` on; the button is at least 5
/// pixels high. Values are computed exactly and wrap to `i32` as `as` does.
pub open spec fn spec_button_size_and_shift(height: int, content: int, range: int, position: int) -> (
    i32,
    i32,
) {
    let raw = tdiv(content * height, if range >= 1 { range } else { 1 });
    let size = if raw > 5 { raw } else { 5 };
    let free = range - content;
    let shift = tdiv(position * (height - size), if free >= 1 { free } else { 1 });
    (size as i32, shift as i32)
}

/// `value` clamped into `[0, range - content]`, `0` winning when that range is empty.
pub open spec fn spec_clamp_scroll(value: int, range: int, content: int) -> int {
    let upper = if range - content < value { range - content } else { value };
    if upper > 0 { upper } else { 0 }
}

fn clamp_scroll(value: i64, range: i32, content: i32) -> (r: i32)
    requires
        i32::MIN <= value <= i32::MAX,
    ensures
        r == spec_clamp_scroll(value as int, range as int, content as int),
{
    let span: i64 = range as i64 - content as i64;
    let upper: i64 = if span < value { span } else { value };
    if upper > 0 {
        proof {
            assert(upper <= value);
        }
        upper as i32
    } else {
        0
    }
}


/// The rectangle of the button of `s`: as wide as the bar, placed and sized as
/// `spec_button_size_and_shift` says (coordinates wrap to `i32`).
pub open spec fn spec_button_rect(s: ScrollV) -> Rect {
    let ss = spec_button_size_and_shift(
        s.base.rect.right_bottom.1 - s.base.rect.left_top.1,
        s.content_size as int,
        s.scroll_range as int,
        s.scroll_position as int,
    );
    let top = (s.base.rect.left_top.1 + ss.1) as i32;
    Rect {
        left_top: (s.base.rect.left_top.0, top),
        right_bottom: (s.base.rect.right_bottom.0, (top + ss.0) as i32),
    }
}

/// A bar lower than 10 pixels has no usable button.
pub open spec fn spec_very_small(s: ScrollV) -> bool {
    s.base.rect.right_bottom.1 - s.base.rect.left_top.1 < 10
}

/// Where a click at `position` falls on `s`: above the button, below it, or on it with the
/// distances to its top and its bottom; nowhere on a very small bar.
pub open spec fn spec_scroll_state(s: ScrollV, position: Position) -> ScrollState {
    let b = spec_button_rect(s);
    if spec_very_small(s) {
        ScrollState::Invalid
    } else if position.1 < b.left_top.1 {
        ScrollState::Less
    } else if position.1 >= b.right_bottom.1 {
        ScrollState::Greater
    } else {
        ScrollState::OnButton(
            (position.1 - b.left_top.1) as i32,
            (b.right_bottom.1 - position.1) as i32,
        )
    }
}

/// The scroll position `value` (saturated to `i32`) brought into range.
pub open spec fn spec_scroll_to(s: ScrollV, value: int) -> i32 {
    spec_clamp_scroll(sat_i32(value) as int, s.scroll_range as int, s.content_size as int) as i32
}

/// The scroll position after a click at `position`: a page up above the button, a page down
/// below it, unchanged otherwise, then brought into range.
pub open spec fn spec_click_position(s: ScrollV, position: Position) -> i32 {
    match spec_scroll_state(s, position) {
        ScrollState::Less => spec_scroll_to(s, s.scroll_position - s.content_size),
        ScrollState::Greater => spec_scroll_to(s, s.scroll_position + s.content_size),
        _ => spec_scroll_to(s, s.scroll_position as int),
    }
}

/// The scroll position after the button, grabbed `yl` pixels below its top and `yh` above
/// its bottom, is dragged to height `y`: the grabbed point moves to `y`, the distance turned
/// into lines and rounded to the nearest, then brought into range. Without room to move, or
/// with no grabbed point, nothing changes.
pub open spec fn spec_drag_position(s: ScrollV, yl: int, yh: int, y: int) -> i32 {
    let height = s.base.rect.right_bottom.1 - s.base.rect.left_top.1;
    let ss = spec_button_size_and_shift(
        height,
        s.content_size as int,
        s.scroll_range as int,
        s.scroll_position as int,
    );
    let size = ss.0 as int;
    let shift = ss.1 as int;
    let free = height - size;
    if yl + yh > 0 && free > 0 {
        let old_position = s.base.rect.left_top.1 + shift + tdiv(size * yl + tdiv(yl + yh, 2), yl + yh);
        let screen_delta = y - old_position;
        let sign = if screen_delta >= 0 {
            1int
        } else {
            -1int
        };
        let delta = tdiv(
            screen_delta * (s.scroll_range - s.content_size) + tdiv(sign * free, 2),
            free,
        );
        spec_scroll_to(s, s.scroll_position + delta)
    } else {
        s.scroll_position
    }
}

/// Handling `m` turns the bar `old` into `new` and returns `r`: the wheel scrolls by its
/// delta, a click pages or grabs the button, a move of the pressed mouse drags the grabbed
/// button, and a release is handled; the result says whether the position changed, or
/// whether the click or release was taken.
pub open spec fn scroll_message_post(old: ScrollV, new: ScrollV, m: GuiMessage, r: bool) -> bool {
    match m {
        GuiMessage::MouseWheel(_, delta) => {
            let p = spec_scroll_to(old, old.scroll_position + delta);
            new == (ScrollV { scroll_position: p, ..old }) && r == (p != old.scroll_position)
        },
        GuiMessage::MouseDown(position) => r && new == (ScrollV {
            scroll_state: spec_scroll_state(old, position),
            scroll_position: spec_click_position(old, position),
            ..old
        }),
        GuiMessage::MouseMove(position) => if old.base.pressed {
            match old.scroll_state {
                ScrollState::OnButton(yl, yh) => {
                    let p = spec_drag_position(old, yl as int, yh as int, position.1 as int);
                    new == (ScrollV { scroll_position: p, ..old }) && r == (p
                        != old.scroll_position)
                },
                _ => !r && new == old,
            }
        } else {
            !r && new == old
        },
        GuiMessage::MouseUp(_) => r && new == old,
        _ => !r && new == old,
    }
}

/// The bar with its numbers brought into range for drawing: at least one line, between one
/// line and all of them shown, and the position between the start and the last full page.
pub open spec fn spec_normalized(s: ScrollV) -> ScrollV {
    let range = if s.scroll_range >= 1 { s.scroll_range } else { 1i32 };
    let content0 = if s.content_size <= range { s.content_size } else { range };
    let content = if content0 >= 1 { content0 } else { 1i32 };
    let last = range - content;
    let position0 = if last <= s.scroll_position { last } else { s.scroll_position as int };
    let position = if position0 >= 0 { position0 } else { 0 };
    ScrollV { scroll_range: range, content_size: content, scroll_position: position as i32, ..s }
}

/// Wherever a scroll bar is moved to, its position ends up between the start and the last
/// full page (the start when everything fits).
pub proof fn law_scroll_position_in_range(s: ScrollV, value: int)
    ensures
        0 <= spec_scroll_to(s, value),
        s.scroll_range - s.content_size >= 0 ==> spec_scroll_to(s, value) <= s.scroll_range
            - s.content_size,
{
}

/// The height of the point of the button of `s` that was grabbed `yl` pixels below its top
/// and `yh` above its bottom, taken in proportion to the button's size, rounded.
pub open spec fn spec_grab_point(s: ScrollV, yl: int, yh: int) -> int {
    let ss = spec_button_size_and_shift(
        s.base.rect.right_bottom.1 - s.base.rect.left_top.1,
        s.content_size as int,
        s.scroll_range as int,
        s.scroll_position as int,
    );
    s.base.rect.left_top.1 + ss.1 + tdiv(ss.0 * yl + tdiv(yl + yh, 2), yl + yh)
}

/// The pixels that the button of `s` can move through: the bar's height less the button's.
pub open spec fn spec_drag_room(s: ScrollV) -> int {
    let height = s.base.rect.right_bottom.1 - s.base.rect.left_top.1;
    height - spec_button_size_and_shift(
        height,
        s.content_size as int,
        s.scroll_range as int,
        s.scroll_position as int,
    ).0
}

/// `a` divided by `free`, rounded half away from zero the way the drag does it (`s` is the
/// sign of `a`): the quotient has the sign of `a` and is off by at most half a step.
proof fn lemma_rounded_quotient(a: int, s: int, free: int)
    requires
        free > 0,
        (s == 1 && a >= 0) || (s == -1 && a <= 0),
    ensures
        s == 1 ==> tdiv(a + tdiv(s * free, 2), free) >= 0,
        s == -1 ==> tdiv(a + tdiv(s * free, 2), free) <= 0,
        2 * (tdiv(a + tdiv(s * free, 2), free) * free - a) <= free,
        2 * (a - tdiv(a + tdiv(s * free, 2), free) * free) <= free,
{
    let f2 = free / 2;
    if s == 1 {
        assert(tdiv(s * free, 2) == f2);
        let x = a + f2;
        vstd::arithmetic::div_mod::lemma_fundamental_div_mod(x, free);
        vstd::arithmetic::div_mod::lemma_mod_pos_bound(x, free);
        vstd::arithmetic::div_mod::lemma_div_pos_is_pos(x, free);
        let q = x / free;
        assert(x == free * q + x % free);
        assert(2 * (q * free - a) <= free) by (nonlinear_arith)
            requires
                x == free * q + x % free,
                0 <= x % free,
                x == a + f2,
                2 * f2 <= free,
        ;
        assert(2 * (a - q * free) <= free) by (nonlinear_arith)
            requires
                x == free * q + x % free,
                x % free < free,
                x == a + f2,
                2 * f2 >= free - 1,
        ;
    } else {
        assert(tdiv(s * free, 2) == -f2);
        let x = f2 - a;
        vstd::arithmetic::div_mod::lemma_fundamental_div_mod(x, free);
        vstd::arithmetic::div_mod::lemma_mod_pos_bound(x, free);
        vstd::arithmetic::div_mod::lemma_div_pos_is_pos(x, free);
        let q = x / free;
        assert(tdiv(a - f2, free) == -q);
        assert((-q) * free == -(q * free)) by (nonlinear_arith);
        assert(2 * (-q * free - a) <= free) by (nonlinear_arith)
            requires
                x == free * q + x % free,
                x % free < free,
                x == f2 - a,
                2 * f2 >= free - 1,
        ;
        assert(2 * (a + q * free) <= free) by (nonlinear_arith)
            requires
                x == free * q + x % free,
                0 <= x % free,
                x == f2 - a,
                2 * f2 <= free,
        ;
    }
}

/// Dragging the grabbed button moves the content the way the mouse goes: for a pressed bar
/// whose button was grabbed, a move to a height at or below the grabbed point never scrolls
/// back, and one at or above it never scrolls on. Where the new position is not cut at either
/// end, it moved by the mouse's distance from the grabbed point in lines (that distance times
/// the lines that can scroll, over the pixels that the button can move through), rounded to
/// the nearest line.
pub proof fn law_drag_follows_mouse(
    old: ScrollV,
    new: ScrollV,
    position: Position,
    r: bool,
    yl: i32,
    yh: i32,
)
    requires
        scroll_message_post(old, new, GuiMessage::MouseMove(position), r),
        old.base.pressed,
        old.scroll_state == ScrollState::OnButton(yl, yh),
        yl >= 0,
        yh >= 0,
        yl + yh > 0,
        0 <= old.scroll_position <= old.scroll_range - old.content_size,
    ensures
        position.1 >= spec_grab_point(old, yl as int, yh as int) ==> new.scroll_position
            >= old.scroll_position,
        position.1 <= spec_grab_point(old, yl as int, yh as int) ==> new.scroll_position
            <= old.scroll_position,
        spec_drag_room(old) > 0 && 0 < new.scroll_position < old.scroll_range - old.content_size
            && new.scroll_position < i32::MAX ==> {
            let moved = (new.scroll_position - old.scroll_position) * spec_drag_room(old);
            let wanted = (position.1 - spec_grab_point(old, yl as int, yh as int)) * (
            old.scroll_range - old.content_size);
            &&& 2 * (moved - wanted) <= spec_drag_room(old)
            &&& 2 * (wanted - moved) <= spec_drag_room(old)
        },
{
    let free = spec_drag_room(old);
    if free > 0 {
        let sd = position.1 - spec_grab_point(old, yl as int, yh as int);
        let lines = old.scroll_range - old.content_size;
        let sign = if sd >= 0 { 1int } else { -1int };
        let a = sd * lines;
        assert((sign == 1 && a >= 0) || (sign == -1 && a <= 0)) by (nonlinear_arith)
            requires
                sign == (if sd >= 0 { 1int } else { -1int }),
                a == sd * lines,
                lines >= 0,
        ;
        lemma_rounded_quotient(a, sign, free);
        let delta = tdiv(a + tdiv(sign * free, 2), free);
        assert(new.scroll_position == spec_scroll_to(old, old.scroll_position + delta));
        if sd == 0 {
            assert(a == 0) by (nonlinear_arith)
                requires
                    a == sd * lines,
                    sd == 0,
            ;
            assert(tdiv(free / 2, free) == 0) by (nonlinear_arith)
                requires
                    free > 0,
            ;
        }
    }
}

/// A click beside the button pages towards the click: above the button it goes back by a
/// screenful (or to the start), below it on by a screenful (or to the last full page), and a
/// click on the button leaves the position. (For a bar tall enough to have a button, whose
/// button is not upside down, showing a number of lines that is not negative, at a position
/// in range.)
pub proof fn law_click_pages_toward_click(old: ScrollV, new: ScrollV, position: Position, r: bool)
    requires
        scroll_message_post(old, new, GuiMessage::MouseDown(position), r),
        !spec_very_small(old),
        spec_button_rect(old).left_top.1 <= spec_button_rect(old).right_bottom.1,
        0 <= old.content_size,
        0 <= old.scroll_position <= old.scroll_range - old.content_size,
    ensures
        position.1 < spec_button_rect(old).left_top.1 ==> new.scroll_position <= old.scroll_position
            && (new.scroll_position == old.scroll_position - old.content_size || new.scroll_position
            == 0),
        position.1 >= spec_button_rect(old).right_bottom.1 ==> new.scroll_position
            >= old.scroll_position && (new.scroll_position == old.scroll_position + old.content_size
            || new.scroll_position == old.scroll_range - old.content_size),
        spec_button_rect(old).left_top.1 <= position.1 < spec_button_rect(old).right_bottom.1
            ==> new.scroll_position == old.scroll_position,
{
}

impl ScrollV {
    /// A scroll bar over 100 lines of which 10 are shown from line 45 on.
    pub fn new(size_constraints: SizeConstraints) -> (r: Self)
        ensures
            r.base == new_base(size_constraints),
            r.scroll_range == 100,
            r.content_size == 10,
            r.scroll_position == 45,
            r.scroll_state == ScrollState::Invalid,
    {
        Self {
            base: GuiControlBase::new(size_constraints),
            scroll_range: 100,
            content_size: 10,
            scroll_position: 45,
            scroll_state: ScrollState::Invalid,
        }
    }

    fn get_button_size_and_shift(&self) -> (r: (i32, i32))
        ensures
            r == spec_button_size_and_shift(
                self.base.rect.right_bottom.1 - self.base.rect.left_top.1,
                self.content_size as int,
                self.scroll_range as int,
                self.scroll_position as int,
            ),
    {
        let height: i128 = self.base.rect.right_bottom.1 as i128 - self.base.rect.left_top.1 as i128;
        let range: i128 = if self.scroll_range >= 1 { self.scroll_range as i128 } else { 1 };
        assert(-0x8000_0000_0000_0000 <= self.content_size * height <= 0x8000_0000_0000_0000) by (nonlinear_arith)
            requires
                -0x1_0000_0000 <= height <= 0x1_0000_0000,
                -0x8000_0000 <= self.content_size <= 0x7FFF_FFFF,
        ;
        let product: i128 = self.content_size as i128 * height;
        let raw: i128 = if product >= 0 { product / range } else { -((-product) / range) };
        assert(-0x8000_0000_0000_0000 <= raw <= 0x8000_0000_0000_0000) by (nonlinear_arith)
            requires
                -0x8000_0000_0000_0000 <= product <= 0x8000_0000_0000_0000,
                range >= 1,
                raw == tdiv(product as int, range as int),
        ;
        let size: i128 = if raw > 5 { raw } else { 5 };
        let free0: i128 = self.scroll_range as i128 - self.content_size as i128;
        let free: i128 = if free0 >= 1 { free0 } else { 1 };
        assert(-0x1_0000_0000_0000_0000_0000_0000 <= self.scroll_position * (height - size) <= 0x1_0000_0000_0000_0000_0000_0000) by (nonlinear_arith)
            requires
                -0x1_0000_0000_0000_0000 <= height - size <= 0x1_0000_0000_0000_0000,
                -0x8000_0000 <= self.scroll_position <= 0x7FFF_FFFF,
        ;
        let product2: i128 = self.scroll_position as i128 * (height - size);
        let shift: i128 = if product2 >= 0 { product2 / free } else { -((-product2) / free) };
        (#[verifier::truncate] (size as i32), #[verifier::truncate] (shift as i32))
    }

    fn get_button_rect(&self) -> (r: Rect)
        ensures
            r == spec_button_rect(*self),
    {
        let (size, shift) = self.get_button_size_and_shift();
        let top: i32 = #[verifier::truncate] ((self.base.rect.left_top.1 as i64 + shift as i64) as i32);
        let bottom: i32 = #[verifier::truncate] ((top as i64 + size as i64) as i32);
        Rect {
            left_top: (self.base.rect.left_top.0, top),
            right_bottom: (self.base.rect.right_bottom.0, bottom),
        }
    }

    fn very_small(&self) -> (r: bool)
        ensures
            r == spec_very_small(*self),
    {
        (self.base.rect.right_bottom.1 as i64 - self.base.rect.left_top.1 as i64) < 10
    }

    fn set_in_button(&mut self, position: Position)
        ensures
            *final(self) == (ScrollV { scroll_state: spec_scroll_state(*old(self), position), ..*old(self) }),
    {
        let button_rect = self.get_button_rect();
        self.scroll_state = if self.very_small() {
            ScrollState::Invalid
        } else if position.1 < button_rect.left_top.1 {
            ScrollState::Less
        } else if position.1 >= button_rect.right_bottom.1 {
            ScrollState::Greater
        } else {
            ScrollState::OnButton(
                #[verifier::truncate] ((position.1 as i64 - button_rect.left_top.1 as i64) as i32),
                #[verifier::truncate] ((button_rect.right_bottom.1 as i64 - position.1 as i64) as i32),
            )
        };
    }

    fn scroll_to(&self, value: i64) -> (r: i32)
        ensures
            r == spec_scroll_to(*self, value as int),
    {
        let v = saturate_i32(value);
        clamp_scroll(v as i64, self.scroll_range, self.content_size)
    }

    fn drag_position(&self, yl: i32, yh: i32, y: i32) -> (r: i32)
        ensures
            r == spec_drag_position(*self, yl as int, yh as int, y as int),
    {
        let height: i128 = self.base.rect.right_bottom.1 as i128 - self.base.rect.left_top.1 as i128;
        let (size, shift) = self.get_button_size_and_shift();
        let free: i128 = height - size as i128;
        let span: i128 = yl as i128 + yh as i128;
        if span > 0 && free > 0 {
            assert(-0x4000_0000_0000_0000 <= size * yl <= 0x4000_0000_0000_0000) by (nonlinear_arith)
                requires
                    -0x8000_0000 <= size <= 0x7FFF_FFFF,
                    -0x8000_0000 <= yl <= 0x7FFF_FFFF,
            ;
            let grab: i128 = div_trunc_wide(size as i128 * yl as i128 + div_trunc_wide(span, 2), span);
            assert(-0x1_0000_0000_0000_0000 <= grab <= 0x1_0000_0000_0000_0000) by (nonlinear_arith)
                requires
                    grab == tdiv(size * yl + tdiv(span as int, 2), span as int),
                    span >= 1,
                    -0x8000_0000 <= size <= 0x7FFF_FFFF,
                    -0x8000_0000 <= yl <= 0x7FFF_FFFF,
                    -0x1_0000_0000 <= span <= 0x1_0000_0000,
            ;
            let old_position: i128 = self.base.rect.left_top.1 as i128 + shift as i128 + grab;
            let screen_delta: i128 = y as i128 - old_position;
            let sign: i128 = if screen_delta >= 0 {
                1
            } else {
                -1
            };
            let lines: i128 = self.scroll_range as i128 - self.content_size as i128;
            assert(-0x10000000000000000000000000 <= screen_delta * lines <= 0x10000000000000000000000000) by (nonlinear_arith)
                requires
                    -0x2_0000_0000_0000_0000 <= screen_delta <= 0x2_0000_0000_0000_0000,
                    -0x1_0000_0000 <= lines <= 0x1_0000_0000,
            ;
            assert(-0x2_0000_0000 <= sign * free <= 0x2_0000_0000) by (nonlinear_arith)
                requires
                    sign == 1 || sign == -1,
                    -0x2_0000_0000 <= free <= 0x2_0000_0000,
            ;
            let delta: i128 = div_trunc_wide(screen_delta * lines + div_trunc_wide(sign * free, 2), free);
            assert(-0x20000000000000000000000000 <= delta <= 0x20000000000000000000000000) by (nonlinear_arith)
                requires
                    delta == tdiv(screen_delta * lines + tdiv(sign * free, 2), free as int),
                    free >= 1,
                    -0x10000000000000000000000000 <= screen_delta * lines <= 0x10000000000000000000000000,
                    -0x2_0000_0000 <= sign * free <= 0x2_0000_0000,
            ;
            let target: i128 = self.scroll_position as i128 + delta;
            let clamped: i64 = if target > i32::MAX as i128 {
                i32::MAX as i64
            } else if target < i32::MIN as i128 {
                i32::MIN as i64
            } else {
                target as i64
            };
            assert(sat_i32(clamped as int) == sat_i32(target as int));
            self.scroll_to(clamped)
        } else {
            self.scroll_position
        }
    }

    /// Handles `m`, as `scroll_message_post` says.
    pub fn on_message(&mut self, m: &GuiMessage) -> (r: bool)
        ensures
            scroll_message_post(*old(self), *final(self), *m, r),
    {
        match m {
            GuiMessage::MouseWheel(_, delta) => {
                let old_scroll_position = self.scroll_position;
                self.scroll_position = self.scroll_to(self.scroll_position as i64 + *delta as i64);
                old_scroll_position != self.scroll_position
            },
            GuiMessage::MouseDown(position) => {
                self.set_in_button(*position);
                let target: i64 = match self.scroll_state {
                    ScrollState::Less => self.scroll_position as i64 - self.content_size as i64,
                    ScrollState::Greater => self.scroll_position as i64 + self.content_size as i64,
                    _ => self.scroll_position as i64,
                };
                self.scroll_position = self.scroll_to(target);
                true
            },
            GuiMessage::MouseMove(position) => {
                if self.base.pressed {
                    match self.scroll_state {
                        ScrollState::OnButton(yl, yh) => {
                            let prev_scroll_position = self.scroll_position;
                            self.scroll_position = self.drag_position(yl, yh, position.1);
                            prev_scroll_position != self.scroll_position
                        },
                        _ => false,
                    }
                } else {
                    false
                }
            },
            GuiMessage::MouseUp(_) => true,
            _ => false,
        }
    }

    /// When the bar is to be drawn: its numbers are brought into range as `spec_normalized`
    /// says; a bar showing everything is not drawn; a very small one is dimmed; otherwise the
    /// button (and, while pressed or highlighted, the rest) is mixed with the theme's
    /// colours.
    pub fn draw(&mut self, buf: &mut ImageViewMut<u32>, theme: &GuiColorTheme, force: bool) -> (r: bool)
        ensures
            r,
            same_outside(old(buf), final(buf)),
            *final(self) == if old(self).base.visible && (old(self).base.need_redraw || force) {
                ScrollV { base: GuiControlBase { need_redraw: false, ..old(self).base }, ..spec_normalized(*old(self)) }
            } else {
                ScrollV { base: GuiControlBase { need_redraw: false, ..old(self).base }, ..*old(self) }
            },
            exists|i1: ImageViewMut<u32>, i2: ImageViewMut<u32>|
                #[trigger] scroll_steps(*old(self), *theme, force, *old(buf), *final(buf), i1, i2),
    {
        let ghost sv0 = *self;
        let ghost b00 = *buf;
        if self.base.can_draw(force) {
            let range: i32 = if self.scroll_range >= 1 { self.scroll_range } else { 1 };
            let content0: i32 = if self.content_size <= range { self.content_size } else { range };
            let content: i32 = if content0 >= 1 { content0 } else { 1 };
            let last: i32 = range - content;
            let position0: i32 = if last <= self.scroll_position { last } else { self.scroll_position };
            let position: i32 = if position0 >= 0 { position0 } else { 0 };
            self.scroll_range = range;
            self.content_size = content;
            self.scroll_position = position;
            if content >= range {
                assert(scroll_steps(sv0, *theme, force, b00, *buf, b00, b00));
                return true;
            }
            let ghost b0 = *buf;
            if self.very_small() {
                let _ = buf.get_size();
                buf.fill(&AvgWith(theme.inactive));
                assert(scroll_steps(sv0, *theme, force, b00, *buf, b00, b00));
                return true;
            }
            let (button_size, button_shift) = self.get_button_size_and_shift();
            let size = buf.get_size();
            let top: usize = #[verifier::truncate] (button_shift as usize);
            let bottom: usize = #[verifier::truncate] ((button_size as i64 + button_shift as i64) as usize);
            let (outer, inner) = if self.base.pressed {
                (theme.highlight, theme.pressed)
            } else if self.base.highlight {
                (theme.inactive, theme.highlight)
            } else {
                (0, theme.inactive)
            };
            let ghost mut g1 = *buf;
            if self.base.pressed || self.base.highlight {
                buf.fill_part((0, 0), (size.0, top), &AvgWith(outer));
                let ghost b1 = *buf;
                proof {
                    g1 = b1;
                }
                buf.fill_part((0, bottom), size, &AvgWith(outer));
                proof {
                    lemma_same_outside_trans(&b0, &b1, buf);
                }
            }
            let ghost b2 = *buf;
            buf.fill_part((0, top), (size.0, bottom), &AvgWith(inner));
            proof {
                lemma_same_outside_trans(&b0, &b2, buf);
                assert(scroll_steps(sv0, *theme, force, b00, *buf, g1, b2));
            }
        } else {
            assert(scroll_steps(sv0, *theme, force, b00, *buf, b00, b00));
        }
        true
    }
}

/// `after` is `before` with the window's part from `left_top` to `right_bottom`, when it lies
/// in the window, mixed half and half with `color`, as `fill_part` with `AvgWith` does.
pub open spec fn averaged_part(
    before: ImageViewMut<u32>,
    after: ImageViewMut<u32>,
    left_top: ImageSize,
    right_bottom: ImageSize,
    color: u32,
) -> bool {
    &&& same_outside(&before, &after)
    &&& if fits(&before, left_top, right_bottom) {
        forall|x: int, y: int|
            #![trigger after.spec_at(x, y)]
            in_size(before.spec_size(), x, y) ==> after.spec_at(x, y) == if left_top.0 <= x < right_bottom.0
                && left_top.1 <= y < right_bottom.1 {
                AvgWith(color).spec_apply(before.spec_at(x, y), ())
            } else {
                before.spec_at(x, y)
            }
    } else {
        after == before
    }
}

/// The steps of drawing the scroll bar `sv` over `before`: nothing is drawn unless it is
/// visible and to be redrawn (or `force`) and, its numbers brought into range, it does not
/// show everything; a very small bar is mixed with the inactive colour all over; otherwise,
/// while pressed or highlighted, the parts above and below the button are mixed with one
/// colour (`i1`, then `i2`), and the button with another.
pub open spec fn scroll_steps(
    sv: ScrollV,
    theme: GuiColorTheme,
    force: bool,
    before: ImageViewMut<u32>,
    after: ImageViewMut<u32>,
    i1: ImageViewMut<u32>,
    i2: ImageViewMut<u32>,
) -> bool {
    let n = spec_normalized(sv);
    let size = before.spec_size();
    if !(sv.base.visible && (sv.base.need_redraw || force)) || n.content_size >= n.scroll_range {
        after == before
    } else if spec_very_small(n) {
        averaged_part(before, after, (0usize, 0usize), size, theme.inactive)
    } else {
        let bs = spec_button_size_and_shift(
            n.base.rect.right_bottom.1 - n.base.rect.left_top.1,
            n.content_size as int,
            n.scroll_range as int,
            n.scroll_position as int,
        );
        let top = bs.1 as usize;
        let bottom = (bs.0 + bs.1) as usize;
        let outer = if sv.base.pressed {
            theme.highlight
        } else if sv.base.highlight {
            theme.inactive
        } else {
            0u32
        };
        let inner = if sv.base.pressed {
            theme.pressed
        } else if sv.base.highlight {
            theme.highlight
        } else {
            theme.inactive
        };
        &&& if sv.base.pressed || sv.base.highlight {
            averaged_part(before, i1, (0usize, 0usize), (size.0, top), outer) && averaged_part(
                i1,
                i2,
                (0usize, bottom),
                size,
                outer,
            )
        } else {
            i2 == before
        }
        &&& averaged_part(i2, after, (0usize, top), (size.0, bottom), inner)
    }
}

} // verus!
