//! What the main window decides from the messages of the window system: keeping a window on
//! the desktop, growing it to the GUI's minimal size, bounding a resize, and reading keys
//! and mouse positions out of message parameters.

use vstd::prelude::*;
use crate::image::Position;
use crate::keys::Key;

verus! {

/// A rectangle on the screen, by its edges; `right` and `bottom` lie just outside it.
#[derive(PartialEq, Eq, Structural, Copy, Clone, Debug)]
pub struct ScreenRect {
    pub left: i32,
    pub top: i32,
    pub right: i32,
    pub bottom: i32,
}

/// `x` lies in the range of `i32`.
pub open spec fn fits_i32(x: int) -> bool {
    i32::MIN <= x <= i32::MAX
}

/// One axis of `adjust_rect`: the interval from `lo` to `hi` moved to start no earlier than
/// `min`, then to end no later than `max`, then cut to lie between them.
pub open spec fn adjust_axis(min: int, max: int, lo: int, hi: int) -> (int, int) {
    let (lo1, hi1) = if lo < min { (min, hi + (min - lo)) } else { (lo, hi) };
    let (lo2, hi2) = if hi1 > max { (lo1 - (hi1 - max), max) } else { (lo1, hi1) };
    (if lo2 > min { lo2 } else { min }, if hi2 < max { hi2 } else { max })
}

/// Every intermediate value of `adjust_axis` lies in the range of `i32`.
pub open spec fn adjust_axis_fits(min: int, max: int, lo: int, hi: int) -> bool {
    let hi1 = if lo < min { hi + (min - lo) } else { hi };
    let lo1 = if lo < min { min } else { lo };
    &&& lo < min ==> fits_i32(min - lo) && fits_i32(hi1)
    &&& hi1 > max ==> fits_i32(hi1 - max) && fits_i32(lo1 - (hi1 - max))
}

/// `rect` moved, horizontally and then vertically, to lie on `area`, and cut where it is
/// larger.
pub open spec fn adjusted_rect(area: ScreenRect, rect: ScreenRect) -> ScreenRect {
    let (l, r) = adjust_axis(area.left as int, area.right as int, rect.left as int, rect.right as int);
    let (t, b) = adjust_axis(area.top as int, area.bottom as int, rect.top as int, rect.bottom as int);
    ScreenRect { left: l as i32, top: t as i32, right: r as i32, bottom: b as i32 }
}

/// Moving `rect` onto `area` computes in `i32` without overflow.
pub open spec fn adjust_rect_fits(area: ScreenRect, rect: ScreenRect) -> bool {
    &&& adjust_axis_fits(area.left as int, area.right as int, rect.left as int, rect.right as int)
    &&& adjust_axis_fits(area.top as int, area.bottom as int, rect.top as int, rect.bottom as int)
}

/// Moves `dst` onto `src`: a rectangle sticking out on the left or the top is moved right
/// or down, then one sticking out on the right or the bottom is moved left or up, and what
/// still sticks out is cut.
pub fn adjust_rect(src: ScreenRect, dst: &mut ScreenRect)
    requires
        adjust_rect_fits(src, *old(dst)),
    ensures
        *final(dst) == adjusted_rect(src, *old(dst)),
{
    if dst.left < src.left {
        dst.right = dst.right + (src.left - dst.left);
        dst.left = src.left;
    }
    if dst.top < src.top {
        dst.bottom = dst.bottom + (src.top - dst.top);
        dst.top = src.top;
    }
    if dst.right > src.right {
        dst.left = dst.left - (dst.right - src.right);
        dst.right = src.right;
    }
    if dst.bottom > src.bottom {
        dst.top = dst.top - (dst.bottom - src.bottom);
        dst.bottom = src.bottom;
    }
    if dst.left < src.left {
        dst.left = src.left;
    }
    if dst.top < src.top {
        dst.top = src.top;
    }
    if dst.right > src.right {
        dst.right = src.right;
    }
    if dst.bottom > src.bottom {
        dst.bottom = src.bottom;
    }
}

/// Moved onto a proper area, a rectangle lies on it; one no larger than the area keeps its
/// width and height.
pub proof fn law_adjusted_rect_on_area(area: ScreenRect, rect: ScreenRect)
    requires
        area.left <= area.right,
        area.top <= area.bottom,
        rect.left <= rect.right,
        rect.top <= rect.bottom,
        adjust_rect_fits(area, rect),
    ensures
        ({
            let r = adjusted_rect(area, rect);
            &&& area.left <= r.left <= r.right <= area.right
            &&& area.top <= r.top <= r.bottom <= area.bottom
            &&& rect.right - rect.left <= area.right - area.left ==> r.right - r.left == rect.right
                - rect.left
            &&& rect.bottom - rect.top <= area.bottom - area.top ==> r.bottom - r.top == rect.bottom
                - rect.top
        }),
{
}

/// How much larger the window has to grow along one axis for the client area of size
/// `client` to reach `minimal`.
pub open spec fn deficit(minimal: int, client: int) -> int {
    if minimal - client > 0 { minimal - client } else { 0 }
}

/// The window rectangle grown, by half the deficit on each side, until its client area
/// reaches the minimal size, then moved onto the desktop; `None` where the client area is
/// already large enough.
pub open spec fn grown_window(minimal: Position, client: ScreenRect, window: ScreenRect, desktop: ScreenRect) -> Option<ScreenRect> {
    let cw = client.right - client.left;
    let ch = client.bottom - client.top;
    if cw >= minimal.0 && ch >= minimal.1 {
        None
    } else {
        let dx = deficit(minimal.0 as int, cw);
        let dy = deficit(minimal.1 as int, ch);
        let grown = ScreenRect {
            left: (window.left - dx / 2) as i32,
            top: (window.top - dy / 2) as i32,
            right: (window.right + dx / 2) as i32,
            bottom: (window.bottom + dy / 2) as i32,
        };
        Some(adjusted_rect(desktop, grown))
    }
}

/// Growing the window computes in `i32` without overflow.
pub open spec fn grown_window_fits(minimal: Position, client: ScreenRect, window: ScreenRect, desktop: ScreenRect) -> bool {
    let cw = client.right - client.left;
    let ch = client.bottom - client.top;
    &&& fits_i32(cw)
    &&& fits_i32(ch)
    &&& !(cw >= minimal.0 && ch >= minimal.1) ==> {
        let dx = deficit(minimal.0 as int, cw);
        let dy = deficit(minimal.1 as int, ch);
        &&& fits_i32(minimal.0 - cw)
        &&& fits_i32(minimal.1 - ch)
        &&& fits_i32(window.left - dx / 2)
        &&& fits_i32(window.top - dy / 2)
        &&& fits_i32(window.right + dx / 2)
        &&& fits_i32(window.bottom + dy / 2)
        &&& adjust_rect_fits(
            desktop,
            ScreenRect {
                left: (window.left - dx / 2) as i32,
                top: (window.top - dy / 2) as i32,
                right: (window.right + dx / 2) as i32,
                bottom: (window.bottom + dy / 2) as i32,
            },
        )
    }
}

/// Where the window goes when its client area `client` is smaller than the GUI's minimal
/// size `minimal` (see `grown_window`); `None` where it is large enough already.
pub fn grow_window(minimal: Position, client: ScreenRect, window: ScreenRect, desktop: ScreenRect) -> (r: Option<ScreenRect>)
    requires
        grown_window_fits(minimal, client, window, desktop),
    ensures
        r == grown_window(minimal, client, window, desktop),
{
    let cw = client.right - client.left;
    let ch = client.bottom - client.top;
    if cw >= minimal.0 && ch >= minimal.1 {
        return None;
    }
    let dx = if minimal.0 - cw > 0 { minimal.0 - cw } else { 0 };
    let dy = if minimal.1 - ch > 0 { minimal.1 - ch } else { 0 };
    let mut grown = ScreenRect {
        left: window.left - dx / 2,
        top: window.top - dy / 2,
        right: window.right + dx / 2,
        bottom: window.bottom + dy / 2,
    };
    adjust_rect(desktop, &mut grown);
    Some(grown)
}

/// The edge of a window that the user drags while resizing it, as the window system
/// numbers them.
pub open spec fn dragged_edges(edge: u32) -> (bool, bool, bool, bool) {
    // (left, right, top, bottom)
    if edge == 1 {
        (true, false, false, false)
    } else if edge == 2 {
        (false, true, false, false)
    } else if edge == 3 {
        (false, false, true, false)
    } else if edge == 4 {
        (true, false, true, false)
    } else if edge == 5 {
        (false, true, true, false)
    } else if edge == 6 {
        (false, false, false, true)
    } else if edge == 7 {
        (true, false, false, true)
    } else if edge == 8 {
        (false, true, false, true)
    } else {
        (false, false, false, false)
    }
}

/// The window rectangle while the user drags `edge`, kept at least `minimal` wide and high
/// by moving the dragged edges.
pub open spec fn bounded_sizing(edge: u32, rect: ScreenRect, minimal: Position) -> ScreenRect {
    let (l, r, t, b) = dragged_edges(edge);
    let right = if r && rect.left + minimal.0 > rect.right { rect.left + minimal.0 } else { rect.right as int };
    let left = if l && rect.right - minimal.0 < rect.left { rect.right - minimal.0 } else { rect.left as int };
    let bottom = if b && rect.top + minimal.1 > rect.bottom { rect.top + minimal.1 } else { rect.bottom as int };
    let top = if t && rect.bottom - minimal.1 < rect.top { rect.bottom - minimal.1 } else { rect.top as int };
    ScreenRect { left: left as i32, top: top as i32, right: right as i32, bottom: bottom as i32 }
}

/// Keeps the window being resized by its edge `edge` at least `minimal` wide and high (the
/// minimal size of the window, frame included): the dragged edge stops where the window
/// would get smaller. Whether `edge` is one the window system names.
pub fn bound_sizing(edge: u32, rect: &mut ScreenRect, minimal: Position) -> (r: bool)
    requires
        fits_i32(old(rect).left + minimal.0),
        fits_i32(old(rect).right - minimal.0),
        fits_i32(old(rect).top + minimal.1),
        fits_i32(old(rect).bottom - minimal.1),
    ensures
        *final(rect) == bounded_sizing(edge, *old(rect), minimal),
        r == (1 <= edge <= 8),
{
    if edge == 2 || edge == 5 || edge == 8 {
        let least = rect.left + minimal.0;
        if least > rect.right {
            rect.right = least;
        }
    } else if edge == 1 || edge == 4 || edge == 7 {
        let most = rect.right - minimal.0;
        if most < rect.left {
            rect.left = most;
        }
    }
    if edge == 6 || edge == 7 || edge == 8 {
        let least = rect.top + minimal.1;
        if least > rect.bottom {
            rect.bottom = least;
        }
    } else if edge == 3 || edge == 4 || edge == 5 {
        let most = rect.bottom - minimal.1;
        if most < rect.top {
            rect.top = most;
        }
    }
    1 <= edge && edge <= 8
}

/// The key of a virtual-key code of the window system, for the keys the GUI handles.
pub open spec fn key_of_code(code: int) -> Option<Key> {
    if code == 0x25 {
        Some(Key::Left)
    } else if code == 0x27 {
        Some(Key::Right)
    } else if code == 0x26 {
        Some(Key::Up)
    } else if code == 0x28 {
        Some(Key::Down)
    } else if code == 0x08 {
        Some(Key::Backspace)
    } else if code == 0x2D {
        Some(Key::Insert)
    } else if code == 0x2E {
        Some(Key::Delete)
    } else if code == 0x20 {
        Some(Key::Space)
    } else if code == 0x60 {
        Some(Key::Numpad0)
    } else if code == 0x61 {
        Some(Key::Numpad1)
    } else if code == 0x62 {
        Some(Key::Numpad2)
    } else if code == 0x63 {
        Some(Key::Numpad3)
    } else if code == 0x64 {
        Some(Key::Numpad4)
    } else if code == 0x65 {
        Some(Key::Numpad5)
    } else if code == 0x66 {
        Some(Key::Numpad6)
    } else if code == 0x67 {
        Some(Key::Numpad7)
    } else if code == 0x68 {
        Some(Key::Numpad8)
    } else if code == 0x69 {
        Some(Key::Numpad9)
    } else if code == 0x1B {
        Some(Key::Escape)
    } else if code == 0x0D {
        Some(Key::Enter)
    } else {
        None
    }
}

/// The key of the virtual-key code in the low 32 bits of a key message's parameter.
pub fn wparam_to_key(code: usize) -> (r: Option<Key>)
    ensures
        r == key_of_code((code as int) % 0x1_0000_0000),
{
    let wide: u64 = code as u64;
    let low: u64 = wide & 0xFFFF_FFFF;
    assert(low == wide % 0x1_0000_0000) by (bit_vector)
        requires
            low == wide & 0xFFFF_FFFF,
    ;
    assert(wide as int == code as int);
    if low == 0x25 {
        Some(Key::Left)
    } else if low == 0x27 {
        Some(Key::Right)
    } else if low == 0x26 {
        Some(Key::Up)
    } else if low == 0x28 {
        Some(Key::Down)
    } else if low == 0x08 {
        Some(Key::Backspace)
    } else if low == 0x2D {
        Some(Key::Insert)
    } else if low == 0x2E {
        Some(Key::Delete)
    } else if low == 0x20 {
        Some(Key::Space)
    } else if low == 0x60 {
        Some(Key::Numpad0)
    } else if low == 0x61 {
        Some(Key::Numpad1)
    } else if low == 0x62 {
        Some(Key::Numpad2)
    } else if low == 0x63 {
        Some(Key::Numpad3)
    } else if low == 0x64 {
        Some(Key::Numpad4)
    } else if low == 0x65 {
        Some(Key::Numpad5)
    } else if low == 0x66 {
        Some(Key::Numpad6)
    } else if low == 0x67 {
        Some(Key::Numpad7)
    } else if low == 0x68 {
        Some(Key::Numpad8)
    } else if low == 0x69 {
        Some(Key::Numpad9)
    } else if low == 0x1B {
        Some(Key::Escape)
    } else if low == 0x0D {
        Some(Key::Enter)
    } else {
        None
    }
}

/// The window system's virtual-key code of each key that the window decodes from its key
/// messages (`VK_BACK`, `VK_RETURN`, `VK_ESCAPE`, `VK_SPACE`, the arrows `VK_LEFT`, `VK_UP`,
/// `VK_RIGHT`, `VK_DOWN`, `VK_INSERT`, `VK_DELETE` and `VK_NUMPAD0` to `VK_NUMPAD9`), in the
/// order of the codes; `None` for the keys that it does not decode.
pub open spec fn virtual_key_code(k: Key) -> Option<int> {
    match k {
        Key::Backspace => Some(0x08),
        Key::Enter => Some(0x0D),
        Key::Escape => Some(0x1B),
        Key::Space => Some(0x20),
        Key::Left => Some(0x25),
        Key::Up => Some(0x26),
        Key::Right => Some(0x27),
        Key::Down => Some(0x28),
        Key::Insert => Some(0x2D),
        Key::Delete => Some(0x2E),
        Key::Numpad0 => Some(0x60),
        Key::Numpad1 => Some(0x61),
        Key::Numpad2 => Some(0x62),
        Key::Numpad3 => Some(0x63),
        Key::Numpad4 => Some(0x64),
        Key::Numpad5 => Some(0x65),
        Key::Numpad6 => Some(0x66),
        Key::Numpad7 => Some(0x67),
        Key::Numpad8 => Some(0x68),
        Key::Numpad9 => Some(0x69),
        _ => None,
    }
}

/// A key message decodes to the key whose virtual-key code it carries in the low 32 bits of
/// its parameter, and to no other: `wparam_to_key` agrees in both directions with the window
/// system's table of virtual-key codes (the up arrow's code gives `Up`, the down arrow's
/// `Down`, and so on), and a code of no key in the table decodes to nothing.
pub proof fn law_key_codes(code: usize, k: Key)
    ensures
        virtual_key_code(k) == Some((code as int) % 0x1_0000_0000) <==> key_of_code(
            (code as int) % 0x1_0000_0000,
        ) == Some(k),
        key_of_code((code as int) % 0x1_0000_0000) is None <==> (forall|j: Key|
            virtual_key_code(j) != Some((code as int) % 0x1_0000_0000)),
{
    let c = (code as int) % 0x1_0000_0000;
    if key_of_code(c) is None {
        assert forall|j: Key| virtual_key_code(j) != Some(c) by {}
    } else {
        let j = key_of_code(c)->0;
        assert(virtual_key_code(j) == Some(c));
    }
}

/// A 16-bit word read as a signed number.
pub open spec fn signed_word(w: int) -> int {
    if w >= 0x8000 { w - 0x10000 } else { w }
}

/// The mouse position in a mouse message's parameter: the low word of its low 32 bits is
/// the column, the high word the row, each a signed 16-bit number.
pub fn lparam_position(lparam: isize) -> (r: Position)
    ensures
        r.0 == signed_word(((lparam as u64) % 0x1_0000) as int),
        r.1 == signed_word((((lparam as u64) / 0x1_0000) % 0x1_0000) as int),
{
    let bits: u64 = lparam as u64;
    let lo: u64 = bits & 0xFFFF;
    let hi: u64 = (bits >> 16u64) & 0xFFFF;
    assert(lo == bits % 0x1_0000 && hi == (bits / 0x1_0000) % 0x1_0000) by (bit_vector)
        requires
            lo == bits & 0xFFFF,
            hi == (bits >> 16u64) & 0xFFFF,
    ;
    let x: i32 = if lo >= 0x8000 { lo as i32 - 0x10000 } else { lo as i32 };
    let y: i32 = if hi >= 0x8000 { hi as i32 - 0x10000 } else { hi as i32 };
    (x, y)
}

} // verus!
