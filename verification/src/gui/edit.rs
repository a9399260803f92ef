//! The one-line text editor: a cursor that moves over the text, a scroll position that keeps
//! the cursor in sight, typing, deleting and pasting, and the callbacks of confirming and
//! giving up.

use vstd::prelude::*;
use crate::clipboard::ClipboardHandler;
use crate::font::{
    Font, FontFactory, FontLoader, Glyph, TextLayoutHorizontal, TextLayoutVertical, font_glyphs,
    glyph_width, lines_grow, FontLine, text_size, spec_color_is_light,
};
use crate::gui::{GuiColorTheme, GuiControlBase, GuiMessage, draw_chars_in, text_drawn_in, set_part, MessageOutput, Rect, SizeConstraint, SizeConstraints, new_base, tdiv, out_with, out_same};
use crate::image::{ImageViewMut, Position, SetPixel, same_outside, lemma_same_outside_trans};
use crate::color::{avg_color, spec_avg_color};
use crate::job_system::Job;
use crate::keys::{Hotkey, Key};

verus! {

/// The callback an edit asks for when editing is given up.
#[derive(PartialEq, Eq, Structural, Copy, Clone)]
pub struct SkipCallback(pub usize);

/// The callback an edit asks for, with its text, when editing is confirmed.
#[derive(PartialEq, Eq, Structural, Copy, Clone)]
pub struct EnterCallback(pub usize);

/// Whether a character may be typed into an edit: control characters may not.
pub open spec fn spec_char_is_valid(c: char) -> bool {
    (c as u32) > 0x1f
}

/// The largest number of characters an edit holds, so that positions fit in an `i32`.
pub open spec fn edit_capacity() -> int {
    i32::MAX as int
}

/// The width of each character of `text` drawn with `glyphs`, as an `i32` (a width above
/// `i32::MAX` wraps as `as` does).
pub open spec fn char_widths_of(glyphs: Map<char, Glyph>, text: Seq<char>) -> Seq<int> {
    Seq::new(text.len(), |i: int| (glyph_width(glyphs, text[i]) as i32) as int)
}

/// The room text has in an edit of the given rectangle: its width less the border and a
/// margin.
pub open spec fn edit_limit(rect: Rect) -> int {
    rect.right_bottom.0 - rect.left_top.0 - 4
}

/// Going left from character `m`, the first scroll position at which the characters from it
/// to `m` are wider than `limit`, `acc` being the width already taken; `scroll` if none is.
pub open spec fn scan_scroll(widths: Seq<int>, scroll: int, m: int, acc: int, limit: int) -> int
    decreases m - scroll,
{
    if m <= scroll {
        m
    } else {
        let acc2 = acc + widths[m - 1];
        if acc2 > limit {
            m
        } else {
            scan_scroll(widths, scroll, m - 1, acc2, limit)
        }
    }
}

/// The scroll position once the cursor is brought into sight: a cursor left of the scroll
/// position scrolls to one character before it; otherwise the scroll position moves right
/// just as far as the text between it and the cursor needs.
pub open spec fn adjusted_scroll(widths: Seq<int>, scroll: int, cursor: int, limit: int) -> int {
    if cursor < scroll + 1 {
        if cursor - 1 > 0 {
            cursor - 1
        } else {
            0
        }
    } else {
        scan_scroll(
            widths,
            scroll,
            if cursor < widths.len() {
                cursor
            } else {
                widths.len() as int
            },
            0,
            limit,
        )
    }
}

/// The character a click at `x` (from the text's start) puts the cursor before: going right
/// from character `i`, the first one whose middle lies right of `x`, or the end of the text.
pub open spec fn click_index(widths: Seq<int>, i: int, acc: int, x: int) -> int
    decreases widths.len() - i,
{
    if i >= widths.len() {
        i
    } else if acc + tdiv(widths[i], 2) > x {
        i
    } else {
        click_index(widths, i + 1, acc + widths[i], x)
    }
}

/// The characters of `s` that may be typed, in order.
pub open spec fn valid_chars(s: Seq<char>) -> Seq<char>
    decreases s.len(),
{
    if s.len() == 0 {
        Seq::empty()
    } else if spec_char_is_valid(s.last()) {
        valid_chars(s.drop_last()).push(s.last())
    } else {
        valid_chars(s.drop_last())
    }
}

/// What an editing key does to the text and the cursor: moving left or right, deleting the
/// character after or before the cursor; nothing when there is nothing to do.
pub open spec fn key_edit(text: Seq<char>, cursor: int, k: Key) -> Option<(Seq<char>, int)> {
    match k {
        Key::Left => if cursor > 0 {
            Some((text, cursor - 1))
        } else {
            None
        },
        Key::Right => if cursor < text.len() {
            Some((text, cursor + 1))
        } else {
            None
        },
        Key::Delete => if cursor < text.len() {
            Some((text.remove(cursor), cursor))
        } else {
            None
        },
        Key::Backspace => if cursor > 0 {
            Some((text.remove(cursor - 1), cursor - 1))
        } else {
            None
        },
        _ => None,
    }
}

/// The text of the clipboard's answer.
pub open spec fn clip_view(clip: Option<String>) -> Option<Seq<char>> {
    match clip {
        Some(s) => Some(s@),
        None => None,
    }
}

/// The characters a paste of `s` inserts into a text of `len` characters: those that may be
/// typed, as many as the text has room for.
pub open spec fn pasted_chars(s: Seq<char>, len: int) -> Seq<char> {
    let v = valid_chars(s);
    let room = edit_capacity() - len;
    if v.len() <= room {
        v
    } else {
        v.take(room)
    }
}

/// A paste of the clipboard's text `clip` (none if the clipboard held none) turns `old` into
/// `new` and returns `r`: nothing happens without text; otherwise the characters of
/// `pasted_chars` are inserted at the cursor, which moves after them.
pub open spec fn paste_post(
    old: Edit,
    new: Edit,
    clip: Option<Seq<char>>,
    r: bool,
    glyphs: Map<char, Glyph>,
) -> bool {
    match clip {
        None => !r && new == old,
        Some(s) => {
            let ins = pasted_chars(s, old.spec_text().len() as int);
            r && new.is_edit_of(
                old,
                old.spec_text().take(old.spec_cursor()) + ins + old.spec_text().skip(
                    old.spec_cursor(),
                ),
                old.spec_cursor() + ins.len(),
                glyphs,
            )
        },
    }
}

/// Typing `c` into `old` gives `new` and returns `r`: a character that may be typed is
/// inserted at the cursor, which moves after it, if the text has room.
pub open spec fn char_post(old: Edit, new: Edit, c: char, r: bool, glyphs: Map<char, Glyph>) -> bool {
    if spec_char_is_valid(c) && old.spec_text().len() < edit_capacity() {
        r && new.is_edit_of(
            old,
            old.spec_text().insert(old.spec_cursor(), c),
            old.spec_cursor() + 1,
            glyphs,
        )
    } else {
        !r && new == old
    }
}

/// `after` is `before` with one job more: the enter callback `id` with the text `text`.
pub open spec fn pushed_enter(before: Seq<Job>, after: Seq<Job>, id: usize, text: Seq<char>) -> bool {
    &&& after.len() == before.len() + 1
    &&& after.drop_last() == before
    &&& after.last() matches Job::Enter(i, t) && i == id && t@ == text
}

/// The jobs after confirming `e`: its enter callback with its text, if it has one.
pub open spec fn enter_jobs(e: Edit, before: Seq<Job>, after: Seq<Job>) -> bool {
    match e.spec_enter_callback() {
        Some(EnterCallback(id)) => pushed_enter(before, after, id, e.spec_text()),
        None => after == before,
    }
}

/// A key going down on `old` gives `new`, output `n` from `o`, and returns `r`: the editing
/// keys do what `key_edit` says; `Insert` pastes; `Escape` asks for the skip callback and
/// `Enter` for the enter callback with the text, both giving the focus up.
pub open spec fn key_post(
    old: Edit,
    new: Edit,
    k: Key,
    o: MessageOutput,
    n: MessageOutput,
    r: bool,
    glyphs: Map<char, Glyph>,
) -> bool {
    match k {
        Key::Insert => out_same(o, n) && exists|clip: Option<Seq<char>>|
            #[trigger] paste_post(old, new, clip, r, glyphs),
        Key::Escape => r && new == old && out_with(
            o,
            n,
            match old.spec_skip_callback() {
                Some(SkipCallback(id)) => o.jobs@.push(Job::Skip(id)),
                None => o.jobs@,
            },
            true,
            o.use_default_keydown,
        ),
        Key::Enter => r && new == old && enter_jobs(old, o.jobs@, n.jobs@) && out_with(
            o,
            n,
            n.jobs@,
            true,
            o.use_default_keydown,
        ),
        _ => out_same(o, n) && match key_edit(old.spec_text(), old.spec_cursor(), k) {
            Some((t, c)) => r && new.is_edit_of(old, t, c, glyphs),
            None => !r && new == old,
        },
    }
}

/// A hot-key on `old`: one without modifier is left to the key handler, `Ctrl+V` and
/// `Shift+Insert` paste (and are not handled as keys), others do nothing.
pub open spec fn hotkey_post(
    old: Edit,
    new: Edit,
    h: Hotkey,
    o: MessageOutput,
    n: MessageOutput,
    r: bool,
    glyphs: Map<char, Glyph>,
) -> bool {
    if !(h.ctrl || h.alt || h.shift) {
        !r && new == old && out_with(o, n, o.jobs@, o.unfocus, true)
    } else if h == (Hotkey { key: Key::V, ctrl: true, alt: false, shift: false }) || h == (Hotkey {
        key: Key::Insert,
        ctrl: false,
        alt: false,
        shift: true,
    }) {
        out_with(o, n, o.jobs@, o.unfocus, true) && exists|clip: Option<Seq<char>>|
            #[trigger] paste_post(old, new, clip, r, glyphs)
    } else {
        !r && new == old && out_same(o, n)
    }
}

/// A mouse button going down at `p` on `old` puts the cursor before the character under it,
/// as `click_index` says.
pub open spec fn mouse_down_post(old: Edit, new: Edit, p: Position, r: bool, glyphs: Map<char, Glyph>) -> bool {
    &&& r
    &&& new.spec_text() == old.spec_text()
    &&& new.spec_cursor() == click_index(
        char_widths_of(glyphs, old.spec_text()),
        old.spec_scroll(),
        0,
        p.0 - old.spec_base().rect.left_top.0 - 1,
    )
    &&& new.spec_scroll() == old.spec_scroll()
    &&& new.spec_base() == old.spec_base()
    &&& new.spec_font() == old.spec_font()
    &&& new.spec_skip_callback() == old.spec_skip_callback()
    &&& new.spec_enter_callback() == old.spec_enter_callback()
    &&& new.spec_mouse_down()
}

/// Handling `m` turns `old` into `new`, output `o` into `n`, and returns `r`.
pub open spec fn edit_message_post(
    old: Edit,
    new: Edit,
    m: GuiMessage,
    o: MessageOutput,
    n: MessageOutput,
    r: bool,
    glyphs: Map<char, Glyph>,
) -> bool {
    match m {
        GuiMessage::MouseDown(p) => out_same(o, n) && mouse_down_post(old, new, p, r, glyphs),
        GuiMessage::MouseUp(_) => r && new == old && out_same(o, n),
        GuiMessage::Char(c) => out_same(o, n) && char_post(old, new, c, r, glyphs),
        GuiMessage::KeyDown(k) => key_post(old, new, k, o, n, r, glyphs),
        GuiMessage::Hotkey(h) => hotkey_post(old, new, h, o, n, r, glyphs),
        GuiMessage::FocusLose => new == old && r == old.spec_enter_callback().is_some()
            && enter_jobs(old, o.jobs@, n.jobs@) && out_with(
            o,
            n,
            n.jobs@,
            o.unfocus,
            o.use_default_keydown,
        ),
        _ => !r && new == old && out_same(o, n),
    }
}

/// Handling a message never changes an edit's shared state.
pub proof fn lemma_message_keeps_base(
    old: Edit,
    new: Edit,
    m: GuiMessage,
    o: MessageOutput,
    n: MessageOutput,
    r: bool,
    glyphs: Map<char, Glyph>,
)
    requires
        edit_message_post(old, new, m, o, n, r, glyphs),
    ensures
        new.spec_base() == old.spec_base(),
{
    match m {
        GuiMessage::KeyDown(k) => {
            if k == Key::Insert {
                let clip = choose|clip: Option<Seq<char>>| #[trigger] paste_post(old, new, clip, r, glyphs);
                assert(paste_post(old, new, clip, r, glyphs));
            }
        },
        GuiMessage::Hotkey(h) => {
            if (h.ctrl || h.alt || h.shift) && (h == (Hotkey { key: Key::V, ctrl: true, alt: false, shift: false })
                || h == (Hotkey { key: Key::Insert, ctrl: false, alt: false, shift: true })) {
                let clip = choose|clip: Option<Seq<char>>| #[trigger] paste_post(old, new, clip, r, glyphs);
                assert(paste_post(old, new, clip, r, glyphs));
            }
        },
        _ => {},
    }
}

/// Typing a character and then deleting it with `Backspace` gives the text and the cursor
/// back.
pub proof fn law_type_then_backspace(text: Seq<char>, cursor: int, c: char)
    requires
        0 <= cursor <= text.len(),
    ensures
        key_edit(text.insert(cursor, c), cursor + 1, Key::Backspace) == Some((text, cursor)),
{
    assert(text.insert(cursor, c).remove(cursor) =~= text);
}

/// Handing an edit a character that may be typed and then the Backspace key gives the text
/// and the cursor back: both messages are taken, and neither asks for a job or gives the focus
/// up. A character that may not be typed is not taken and changes nothing.
pub proof fn law_char_then_backspace_messages(
    e0: Edit,
    e1: Edit,
    e2: Edit,
    c: char,
    o1: MessageOutput,
    n1: MessageOutput,
    o2: MessageOutput,
    n2: MessageOutput,
    r1: bool,
    r2: bool,
    g1: Map<char, Glyph>,
    g2: Map<char, Glyph>,
)
    requires
        0 <= e0.spec_cursor() <= e0.spec_text().len() < edit_capacity(),
        edit_message_post(e0, e1, GuiMessage::Char(c), o1, n1, r1, g1),
        edit_message_post(e1, e2, GuiMessage::KeyDown(Key::Backspace), o2, n2, r2, g2),
    ensures
        spec_char_is_valid(c) ==> r1 && r2 && e2.spec_text() == e0.spec_text() && e2.spec_cursor()
            == e0.spec_cursor() && out_same(o1, n1) && out_same(o2, n2),
        !spec_char_is_valid(c) ==> !r1 && e1 == e0 && out_same(o1, n1),
{
    if spec_char_is_valid(c) {
        law_type_then_backspace(e0.spec_text(), e0.spec_cursor(), c);
    }
}

/// Moving left and then right brings the cursor back.
pub proof fn law_left_then_right(text: Seq<char>, cursor: int)
    requires
        0 < cursor <= text.len(),
    ensures
        key_edit(text, cursor, Key::Left) == Some((text, cursor - 1)),
        key_edit(text, cursor - 1, Key::Right) == Some((text, cursor)),
{
}

/// Scrolling to a cursor in the text never scrolls past the cursor, nor before the start.
pub proof fn law_scroll_not_past_cursor(widths: Seq<int>, scroll: int, cursor: int, limit: int)
    requires
        0 <= scroll,
        0 <= cursor <= widths.len(),
    ensures
        0 <= adjusted_scroll(widths, scroll, cursor, limit) <= cursor,
{
    if !(cursor < scroll + 1) {
        lemma_scan_scroll_bounds(widths, scroll, cursor, 0, limit);
    }
}

proof fn lemma_scan_scroll_bounds(widths: Seq<int>, scroll: int, m: int, acc: int, limit: int)
    requires
        scroll <= m,
    ensures
        scroll <= scan_scroll(widths, scroll, m, acc, limit) <= m,
    decreases m - scroll,
{
    if m > scroll && acc + widths[m - 1] <= limit {
        lemma_scan_scroll_bounds(widths, scroll, m - 1, acc + widths[m - 1], limit);
    }
}

/// A one-line text editor.
pub struct Edit {
    pub(crate) base: GuiControlBase,
    pub(crate) text: Vec<char>,
    pub(crate) font: Font,
    pub(crate) scroll_position: i32,
    pub(crate) cursor_position: i32,
    pub(crate) skip_callback: Option<SkipCallback>,
    pub(crate) enter_callback: Option<EnterCallback>,
    pub(crate) suka_down: bool,
}

impl Edit {
    /// The scroll position is not right of the cursor, which is not past the end of the text,
    /// which is shorter than `i32::MAX`.
    #[verifier::type_invariant]
    closed spec fn inv(self) -> bool {
        0 <= self.scroll_position <= self.cursor_position <= self.text@.len() <= edit_capacity()
    }

    /// The state the edit shares with every control.
    pub closed spec fn spec_base(self) -> GuiControlBase {
        self.base
    }

    /// The text.
    pub closed spec fn spec_text(self) -> Seq<char> {
        self.text@
    }

    /// The font the text is drawn with.
    pub closed spec fn spec_font(self) -> Font {
        self.font
    }

    /// The number of characters before the cursor.
    pub closed spec fn spec_cursor(self) -> int {
        self.cursor_position as int
    }

    /// The first character shown.
    pub closed spec fn spec_scroll(self) -> int {
        self.scroll_position as int
    }

    /// The callback asked for when editing is given up.
    pub closed spec fn spec_skip_callback(self) -> Option<SkipCallback> {
        self.skip_callback
    }

    /// The callback asked for when editing is confirmed.
    pub closed spec fn spec_enter_callback(self) -> Option<EnterCallback> {
        self.enter_callback
    }

    /// Whether the mouse went down on the edit.
    pub closed spec fn spec_mouse_down(self) -> bool {
        self.suka_down
    }

    /// The edit with its shared state replaced by `base`.
    pub closed spec fn spec_with_base(self, base: GuiControlBase) -> Edit {
        Edit { base, ..self }
    }

    /// Replacing the shared state changes nothing else, and is seen.
    pub proof fn lemma_with_base(self, base: GuiControlBase)
        ensures
            self.spec_with_base(base).spec_base() == base,
            self.spec_with_base(base).spec_text() == self.spec_text(),
            self.spec_with_base(base).spec_font() == self.spec_font(),
            self.spec_with_base(base).spec_cursor() == self.spec_cursor(),
            self.spec_with_base(base).spec_scroll() == self.spec_scroll(),
            self.spec_with_base(base).spec_skip_callback() == self.spec_skip_callback(),
            self.spec_with_base(base).spec_enter_callback() == self.spec_enter_callback(),
            self.spec_with_base(base).spec_mouse_down() == self.spec_mouse_down(),
            self.spec_with_base(self.spec_base()) == self,
    {
    }

    /// `self` is `old` with text `text` and cursor `cursor`, scrolled as `adjusted_scroll`
    /// says for characters drawn with `glyphs`; nothing else changed.
    pub open spec fn is_edit_of(
        self,
        old: Edit,
        text: Seq<char>,
        cursor: int,
        glyphs: Map<char, Glyph>,
    ) -> bool {
        &&& self.spec_text() == text
        &&& self.spec_cursor() == cursor
        &&& self.spec_scroll() == adjusted_scroll(
            char_widths_of(glyphs, text),
            old.spec_scroll(),
            cursor,
            edit_limit(old.spec_base().rect),
        )
        &&& self.spec_base() == old.spec_base()
        &&& self.spec_font() == old.spec_font()
        &&& self.spec_skip_callback() == old.spec_skip_callback()
        &&& self.spec_enter_callback() == old.spec_enter_callback()
        &&& self.spec_mouse_down() == old.spec_mouse_down()
    }

    /// An empty edit with its cursor at the start, drawing with `font` centred vertically.
    pub fn new(size_constraints: SizeConstraints, font: Font) -> (r: Self)
        ensures
            r.spec_base() == new_base(size_constraints),
            r.spec_text() == Seq::<char>::empty(),
            r.spec_font() == (Font {
                layout_vertical: TextLayoutVertical::MIDDLE,
                layout_horizontal: TextLayoutHorizontal::LEFT,
                ..font
            }),
            r.spec_cursor() == 0,
            r.spec_scroll() == 0,
            r.spec_skip_callback() is None,
            r.spec_enter_callback() is None,
            !r.spec_mouse_down(),
    {
        Self {
            base: GuiControlBase::new(size_constraints),
            text: Vec::new(),
            font: font.layout_vertical(TextLayoutVertical::MIDDLE).layout_horizontal(
                TextLayoutHorizontal::LEFT,
            ),
            scroll_position: 0,
            cursor_position: 0,
            skip_callback: None,
            enter_callback: None,
            suka_down: false,
        }
    }

    /// An empty edit with no size, no callback, the cursor at the start, and the first font
    /// line's left- and top-aligned black font; it stands in while an edit is rebuilt.
    fn placeholder() -> (r: Self)
        ensures
            r.spec_base() == new_base(SizeConstraints(SizeConstraint { absolute: 0, relative: 0 }, SizeConstraint { absolute: 0, relative: 0 })),
            r.spec_text() == Seq::<char>::empty(),
            r.spec_font() == (Font {
                color: 0,
                light: false,
                layout_horizontal: TextLayoutHorizontal::LEFT,
                layout_vertical: TextLayoutVertical::TOP,
                line: 0,
            }),
            r.spec_cursor() == 0,
            r.spec_scroll() == 0,
            r.spec_skip_callback() is None,
            r.spec_enter_callback() is None,
            !r.spec_mouse_down(),
    {
        Self {
            base: GuiControlBase::new(
                SizeConstraints(SizeConstraint::fixed(0), SizeConstraint::fixed(0)),
            ),
            text: Vec::new(),
            font: Font {
                color: 0,
                light: false,
                layout_horizontal: TextLayoutHorizontal::LEFT,
                layout_vertical: TextLayoutVertical::TOP,
                line: 0,
            },
            scroll_position: 0,
            cursor_position: 0,
            skip_callback: None,
            enter_callback: None,
            suka_down: false,
        }
    }

    /// The state the edit shares with every control.
    pub fn get_base(&self) -> (r: GuiControlBase)
        ensures
            r == self.spec_base(),
    {
        self.base
    }

    /// Replaces the state the edit shares with every control.
    pub fn set_base(&mut self, base: GuiControlBase)
        ensures
            *final(self) == old(self).spec_with_base(base),
    {
        let mut e = Self::placeholder();
        std::mem::swap(self, &mut e);
        proof {
            use_type_invariant(&e);
        }
        let Edit {
            base: _,
            text,
            font,
            scroll_position,
            cursor_position,
            skip_callback,
            enter_callback,
            suka_down,
        } = e;
        *self = Edit {
            base,
            text,
            font,
            scroll_position,
            cursor_position,
            skip_callback,
            enter_callback,
            suka_down,
        };
    }

    /// The text.
    pub fn get_text(&self) -> (r: Vec<char>)
        ensures
            r@ == self.spec_text(),
    {
        self.text.clone()
    }

    /// The number of characters before the cursor.
    pub fn get_cursor_position(&self) -> (r: i32)
        ensures
            r == self.spec_cursor(),
            0 <= r <= self.spec_text().len(),
    {
        proof {
            use_type_invariant(self);
        }
        self.cursor_position
    }

    /// The first character shown.
    pub fn get_scroll_position(&self) -> (r: i32)
        ensures
            r == self.spec_scroll(),
            0 <= r <= self.spec_cursor(),
    {
        proof {
            use_type_invariant(self);
        }
        self.scroll_position
    }

    /// Whether `c` may be typed: control characters may not.
    pub fn char_is_valid(c: char) -> (r: bool)
        ensures
            r == spec_char_is_valid(c),
    {
        (c as u32) > 0x1f
    }

    fn scan(widths: &Vec<usize>, scroll: i32, m0: i32, limit: i64) -> (r: i32)
        requires
            0 <= scroll <= m0 <= widths@.len(),
            -0x2_0000_0000 <= limit <= 0x2_0000_0000,
        ensures
            r == scan_scroll(
                Seq::new(widths@.len(), |i: int| (widths@[i] as i32) as int),
                scroll as int,
                m0 as int,
                0,
                limit as int,
            ),
            scroll <= r <= m0,
    {
        let ghost ws = Seq::new(widths@.len(), |i: int| (widths@[i] as i32) as int);
        let mut m: i32 = m0;
        let mut acc: i64 = 0;
        while m > scroll
            invariant
                0 <= scroll <= m <= m0 <= widths@.len(),
                m0 <= i32::MAX,
                -0x8000_0000 * (m0 - m) <= acc <= 0x2_0000_0000,
                -0x2_0000_0000 <= limit <= 0x2_0000_0000,
                ws == Seq::new(widths@.len(), |i: int| (widths@[i] as i32) as int),
                scan_scroll(ws, scroll as int, m as int, acc as int, limit as int) == scan_scroll(
                    ws,
                    scroll as int,
                    m0 as int,
                    0,
                    limit as int,
                ),
            decreases m - scroll,
        {
            let w: i64 = (#[verifier::truncate] (widths[(m - 1) as usize] as i32)) as i64;
            assert(w == ws[m - 1]);
            let acc2 = acc + w;
            if acc2 > limit {
                return m;
            }
            acc = acc2;
            m -= 1;
        }
        m
    }

    /// The scroll position that brings the cursor into sight, as `adjusted_scroll` says; the
    /// glyphs of the text are loaded first.
    fn adjusted<L: FontLoader>(
        text: &Vec<char>,
        font: Font,
        rect: Rect,
        scroll: i32,
        cursor: i32,
        fonts: &mut FontFactory<L>,
    ) -> (r: i32)
        requires
            old(fonts).wf(),
            0 <= scroll <= edit_capacity(),
            0 <= cursor <= text@.len() <= edit_capacity(),
        ensures
            final(fonts).wf(),
            lines_grow(old(fonts).lines(), final(fonts).lines()),
            final(fonts).lines().len() == old(fonts).lines().len(),
            r == adjusted_scroll(
                char_widths_of(font_glyphs(final(fonts).lines(), font), text@),
                scroll as int,
                cursor as int,
                edit_limit(rect),
            ),
            0 <= r <= cursor,
    {
        if cursor <= scroll {
            if cursor - 1 > 0 {
                cursor - 1
            } else {
                0
            }
        } else {
            let widths = font.char_widths(text, fonts);
            let len = text.len() as i32;
            let m0 = if cursor < len {
                cursor
            } else {
                len
            };
            let limit: i64 = rect.right_bottom.0 as i64 - rect.left_top.0 as i64 - 4;
            let r = Self::scan(&widths, scroll, m0, limit);
            proof {
                assert(Seq::new(widths@.len(), |i: int| (widths@[i] as i32) as int)
                    =~= char_widths_of(font_glyphs(fonts.lines(), font), text@));
            }
            r
        }
    }

    /// Replaces the text by `text`; a cursor past its end moves to its end. The scroll
    /// position then follows the cursor.
    pub fn set_text<L: FontLoader>(&mut self, text: &str, fonts: &mut FontFactory<L>)
        requires
            old(fonts).wf(),
            text@.len() <= edit_capacity(),
        ensures
            final(fonts).wf(),
            lines_grow(old(fonts).lines(), final(fonts).lines()),
            final(fonts).lines().len() == old(fonts).lines().len(),
            final(self).is_edit_of(
                *old(self),
                text@,
                if old(self).spec_cursor() <= text@.len() {
                    old(self).spec_cursor()
                } else {
                    text@.len() as int
                },
                font_glyphs(final(fonts).lines(), old(self).spec_font()),
            ),
    {
        let chars = crate::font::to_chars(text);
        self.set_chars(chars, fonts);
    }

    /// Replaces the text by the characters `chars`, as `set_text` does.
    pub fn set_chars<L: FontLoader>(&mut self, chars: Vec<char>, fonts: &mut FontFactory<L>)
        requires
            old(fonts).wf(),
            chars@.len() <= edit_capacity(),
        ensures
            final(fonts).wf(),
            lines_grow(old(fonts).lines(), final(fonts).lines()),
            final(fonts).lines().len() == old(fonts).lines().len(),
            final(self).is_edit_of(
                *old(self),
                chars@,
                if old(self).spec_cursor() <= chars@.len() {
                    old(self).spec_cursor()
                } else {
                    chars@.len() as int
                },
                font_glyphs(final(fonts).lines(), old(self).spec_font()),
            ),
    {
        proof {
            use_type_invariant(&*self);
        }
        let mut e = Self::placeholder();
        std::mem::swap(self, &mut e);
        let Edit {
            base,
            text: _,
            font,
            scroll_position,
            cursor_position,
            skip_callback,
            enter_callback,
            suka_down,
        } = e;
        let len = chars.len() as i32;
        let cursor = if cursor_position <= len {
            cursor_position
        } else {
            len
        };
        let scroll = if scroll_position <= cursor {
            scroll_position
        } else {
            cursor
        };
        let new_scroll = Self::adjusted(&chars, font, base.rect, scroll, cursor, fonts);
        *self = Edit {
            base,
            text: chars,
            font,
            scroll_position: new_scroll,
            cursor_position: cursor,
            skip_callback,
            enter_callback,
            suka_down,
        };
    }

    /// Sets the callback asked for when editing is given up.
    pub fn set_skip_callback(&mut self, callback: SkipCallback)
        ensures
            final(self).spec_skip_callback() == Some(callback),
            final(self).spec_base() == old(self).spec_base(),
            final(self).spec_text() == old(self).spec_text(),
            final(self).spec_font() == old(self).spec_font(),
            final(self).spec_cursor() == old(self).spec_cursor(),
            final(self).spec_scroll() == old(self).spec_scroll(),
            final(self).spec_enter_callback() == old(self).spec_enter_callback(),
            final(self).spec_mouse_down() == old(self).spec_mouse_down(),
    {
        let mut e = Self::placeholder();
        std::mem::swap(self, &mut e);
        proof {
            use_type_invariant(&e);
        }
        let Edit { base, text, font, scroll_position, cursor_position, skip_callback: _, enter_callback, suka_down } = e;
        *self = Edit {
            base,
            text,
            font,
            scroll_position,
            cursor_position,
            skip_callback: Some(callback),
            enter_callback,
            suka_down,
        };
    }

    /// The same edit with the given skip callback.
    pub fn skip_callback(self, callback: SkipCallback) -> (r: Self)
        ensures
            r.spec_skip_callback() == Some(callback),
            r.spec_base() == self.spec_base(),
            r.spec_text() == self.spec_text(),
            r.spec_font() == self.spec_font(),
            r.spec_cursor() == self.spec_cursor(),
            r.spec_scroll() == self.spec_scroll(),
            r.spec_enter_callback() == self.spec_enter_callback(),
            r.spec_mouse_down() == self.spec_mouse_down(),
    {
        let mut result = self;
        result.set_skip_callback(callback);
        result
    }

    /// Sets the callback asked for, with the text, when editing is confirmed.
    pub fn set_enter_callback(&mut self, callback: EnterCallback)
        ensures
            final(self).spec_enter_callback() == Some(callback),
            final(self).spec_base() == old(self).spec_base(),
            final(self).spec_text() == old(self).spec_text(),
            final(self).spec_font() == old(self).spec_font(),
            final(self).spec_cursor() == old(self).spec_cursor(),
            final(self).spec_scroll() == old(self).spec_scroll(),
            final(self).spec_skip_callback() == old(self).spec_skip_callback(),
            final(self).spec_mouse_down() == old(self).spec_mouse_down(),
    {
        let mut e = Self::placeholder();
        std::mem::swap(self, &mut e);
        proof {
            use_type_invariant(&e);
        }
        let Edit { base, text, font, scroll_position, cursor_position, skip_callback, enter_callback: _, suka_down } = e;
        *self = Edit {
            base,
            text,
            font,
            scroll_position,
            cursor_position,
            skip_callback,
            enter_callback: Some(callback),
            suka_down,
        };
    }

    /// The same edit with the given enter callback.
    pub fn enter_callback(self, callback: EnterCallback) -> (r: Self)
        ensures
            r.spec_enter_callback() == Some(callback),
            r.spec_base() == self.spec_base(),
            r.spec_text() == self.spec_text(),
            r.spec_font() == self.spec_font(),
            r.spec_cursor() == self.spec_cursor(),
            r.spec_scroll() == self.spec_scroll(),
            r.spec_skip_callback() == self.spec_skip_callback(),
            r.spec_mouse_down() == self.spec_mouse_down(),
    {
        let mut result = self;
        result.set_enter_callback(callback);
        result
    }

    /// Replaces the text and the cursor, then brings the cursor into sight.
    fn apply<L: FontLoader>(&mut self, text: Vec<char>, cursor: i32, fonts: &mut FontFactory<L>)
        requires
            old(fonts).wf(),
            0 <= cursor <= text@.len() <= edit_capacity(),
        ensures
            final(fonts).wf(),
            lines_grow(old(fonts).lines(), final(fonts).lines()),
            final(fonts).lines().len() == old(fonts).lines().len(),
            final(self).is_edit_of(
                *old(self),
                text@,
                cursor as int,
                font_glyphs(final(fonts).lines(), old(self).spec_font()),
            ),
    {
        let mut e = Self::placeholder();
        std::mem::swap(self, &mut e);
        proof {
            use_type_invariant(&e);
        }
        let Edit { base, text: _, font, scroll_position, cursor_position: _, skip_callback, enter_callback, suka_down } = e;
        let new_scroll = Self::adjusted(&text, font, base.rect, scroll_position, cursor, fonts);
        *self = Edit {
            base,
            text,
            font,
            scroll_position: new_scroll,
            cursor_position: cursor,
            skip_callback,
            enter_callback,
            suka_down,
        };
    }

    /// Moves the cursor before the character number `cursor_position`, then brings it into
    /// sight. The position lies in the text: a cursor outside it could be neither drawn nor
    /// typed at.
    pub fn set_cursor_position<L: FontLoader>(&mut self, cursor_position: i32, fonts: &mut FontFactory<L>)
        requires
            old(fonts).wf(),
            0 <= cursor_position <= old(self).spec_text().len(),
        ensures
            final(fonts).wf(),
            lines_grow(old(fonts).lines(), final(fonts).lines()),
            final(fonts).lines().len() == old(fonts).lines().len(),
            final(self).is_edit_of(
                *old(self),
                old(self).spec_text(),
                cursor_position as int,
                font_glyphs(final(fonts).lines(), old(self).spec_font()),
            ),
    {
        proof {
            use_type_invariant(&*self);
        }
        let text = self.text.clone();
        assert(text@ =~= self.text@);
        self.apply(text, cursor_position, fonts);
    }

    /// Inserts the characters of `clip` that may be typed at the cursor, as many as there is
    /// room for, and moves the cursor after them; returns whether there was text.
    pub fn paste_text<L: FontLoader>(&mut self, clip: Option<String>, fonts: &mut FontFactory<L>) -> (r: bool)
        requires
            old(fonts).wf(),
        ensures
            final(fonts).wf(),
            lines_grow(old(fonts).lines(), final(fonts).lines()),
            final(fonts).lines().len() == old(fonts).lines().len(),
            paste_post(
                *old(self),
                *final(self),
                clip_view(clip),
                r,
                font_glyphs(final(fonts).lines(), old(self).spec_font()),
            ),
    {
        proof {
            use_type_invariant(&*self);
        }
        match clip {
            None => false,
            Some(s) => {
                let mut text = self.text.clone();
                assert(text@ =~= self.text@);
                let c0 = self.cursor_position;
                let ghost t0 = self.text@;
                let ghost len0 = t0.len() as int;
                let mut cursor = c0;
                let ghost mut ins: Seq<char> = Seq::empty();
                let chars = crate::font::to_chars(s.as_str());
                let mut i: usize = 0;
                while i < chars.len()
                    invariant
                        i <= chars.len(),
                        chars@ == s@,
                        0 <= c0 <= t0.len() <= edit_capacity(),
                        len0 == t0.len(),
                        ins == pasted_chars(chars@.take(i as int), len0),
                        text@ == t0.take(c0 as int) + ins + t0.skip(c0 as int),
                        cursor == c0 + ins.len(),
                        text@.len() == len0 + ins.len(),
                        text@.len() <= edit_capacity(),
                    decreases chars.len() - i,
                {
                    let c = chars[i];
                    let ghost prefix = chars@.take(i as int);
                    let ghost next = chars@.take(i + 1);
                    proof {
                        assert(next.drop_last() == prefix);
                        assert(next.last() == c);
                    }
                    if Self::char_is_valid(c) && text.len() < 0x7FFF_FFFFusize {
                        text.insert(cursor as usize, c);
                        cursor = cursor + 1;
                        proof {
                            ins = ins.push(c);
                            assert(text@ =~= t0.take(c0 as int) + ins + t0.skip(c0 as int));
                        }
                    }
                    proof {
                        assert(ins =~= pasted_chars(next, len0));
                    }
                    i += 1;
                }
                proof {
                    assert(chars@.take(chars@.len() as int) =~= chars@);
                }
                self.apply(text, cursor, fonts);
                true
            },
        }
    }

    /// Types `c`, as `char_post` says.
    pub fn on_char<L: FontLoader>(&mut self, c: char, fonts: &mut FontFactory<L>) -> (r: bool)
        requires
            old(fonts).wf(),
        ensures
            final(fonts).wf(),
            lines_grow(old(fonts).lines(), final(fonts).lines()),
            final(fonts).lines().len() == old(fonts).lines().len(),
            char_post(*old(self), *final(self), c, r, font_glyphs(final(fonts).lines(), old(self).spec_font())),
    {
        proof {
            use_type_invariant(&*self);
        }
        if Self::char_is_valid(c) && self.text.len() < 0x7FFF_FFFFusize {
            let mut text = self.text.clone();
            assert(text@ =~= self.text@);
            text.insert(self.cursor_position as usize, c);
            let cursor = self.cursor_position + 1;
            self.apply(text, cursor, fonts);
            true
        } else {
            false
        }
    }

    fn on_edit_key<L: FontLoader>(&mut self, k: Key, fonts: &mut FontFactory<L>) -> (r: bool)
        requires
            old(fonts).wf(),
        ensures
            final(fonts).wf(),
            lines_grow(old(fonts).lines(), final(fonts).lines()),
            final(fonts).lines().len() == old(fonts).lines().len(),
            match key_edit(old(self).spec_text(), old(self).spec_cursor(), k) {
                Some((t, c)) => r && final(self).is_edit_of(
                    *old(self),
                    t,
                    c,
                    font_glyphs(final(fonts).lines(), old(self).spec_font()),
                ),
                None => !r && *final(self) == *old(self),
            },
    {
        proof {
            use_type_invariant(&*self);
        }
        let cursor = self.cursor_position;
        let len = self.text.len();
        let mut text = self.text.clone();
        assert(text@ =~= self.text@);
        match k {
            Key::Left => {
                if cursor > 0 {
                    self.apply(text, cursor - 1, fonts);
                    return true;
                }
            },
            Key::Right => {
                if (cursor as usize) < len {
                    self.apply(text, cursor + 1, fonts);
                    return true;
                }
            },
            Key::Delete => {
                if (cursor as usize) < len {
                    text.remove(cursor as usize);
                    self.apply(text, cursor, fonts);
                    return true;
                }
            },
            Key::Backspace => {
                if cursor > 0 {
                    text.remove((cursor - 1) as usize);
                    self.apply(text, cursor - 1, fonts);
                    return true;
                }
            },
            _ => {},
        }
        false
    }

    /// A key going down, as `key_post` says; the clipboard is read for `Insert`.
    pub fn on_key_down<L: FontLoader, C: ClipboardHandler>(
        &mut self,
        k: Key,
        out: &mut MessageOutput,
        fonts: &mut FontFactory<L>,
        clipboard: &C,
    ) -> (r: bool)
        requires
            old(fonts).wf(),
        ensures
            final(fonts).wf(),
            lines_grow(old(fonts).lines(), final(fonts).lines()),
            final(fonts).lines().len() == old(fonts).lines().len(),
            key_post(
                *old(self),
                *final(self),
                k,
                *old(out),
                *final(out),
                r,
                font_glyphs(final(fonts).lines(), old(self).spec_font()),
            ),
    {
        match k {
            Key::Insert => {
                let clip = clipboard.get_string();
                let ghost view = clip_view(clip);
                let r = self.paste_text(clip, fonts);
                assert(paste_post(
                    *old(self),
                    *self,
                    view,
                    r,
                    font_glyphs(fonts.lines(), old(self).spec_font()),
                ));
                r
            },
            Key::Escape => {
                match self.skip_callback {
                    Some(SkipCallback(id)) => out.jobs.add_callback(Job::Skip(id)),
                    None => {},
                }
                out.unfocus = true;
                true
            },
            Key::Enter => {
                match self.enter_callback {
                    Some(EnterCallback(id)) => {
                        let text = self.text.clone();
                        assert(text@ =~= self.text@);
                        out.jobs.add_callback(Job::Enter(id, text));
                        assert(out.jobs@.drop_last() =~= old(out).jobs@);
                    },
                    None => {},
                }
                out.unfocus = true;
                true
            },
            _ => self.on_edit_key(k, fonts),
        }
    }

    /// A hot-key, as `hotkey_post` says; the clipboard is read for a paste.
    pub fn on_hotkey<L: FontLoader, C: ClipboardHandler>(
        &mut self,
        h: Hotkey,
        out: &mut MessageOutput,
        fonts: &mut FontFactory<L>,
        clipboard: &C,
    ) -> (r: bool)
        requires
            old(fonts).wf(),
        ensures
            final(fonts).wf(),
            lines_grow(old(fonts).lines(), final(fonts).lines()),
            final(fonts).lines().len() == old(fonts).lines().len(),
            hotkey_post(
                *old(self),
                *final(self),
                h,
                *old(out),
                *final(out),
                r,
                font_glyphs(final(fonts).lines(), old(self).spec_font()),
            ),
    {
        if h.no_modifiers() {
            out.use_default_keydown = true;
            return false;
        }
        if h == Hotkey::ctrl(Key::V) || h == Hotkey::shift(Key::Insert) {
            out.use_default_keydown = true;
            let clip = clipboard.get_string();
            let ghost view = clip_view(clip);
            let r = self.paste_text(clip, fonts);
            assert(paste_post(
                *old(self),
                *self,
                view,
                r,
                font_glyphs(fonts.lines(), old(self).spec_font()),
            ));
            return r;
        }
        false
    }

    fn click(widths: &Vec<usize>, scroll: i32, x: i64) -> (r: i32)
        requires
            0 <= scroll <= widths@.len() <= edit_capacity(),
            -0x2_0000_0000 <= x <= 0x2_0000_0000,
        ensures
            r == click_index(
                Seq::new(widths@.len(), |i: int| (widths@[i] as i32) as int),
                scroll as int,
                0,
                x as int,
            ),
            scroll <= r <= widths@.len(),
    {
        let ghost ws = Seq::new(widths@.len(), |i: int| (widths@[i] as i32) as int);
        let mut i: i32 = scroll;
        let mut acc: i64 = 0;
        while (i as usize) < widths.len()
            invariant
                0 <= scroll <= i <= widths@.len() <= edit_capacity(),
                -0x8000_0000 * (i - scroll) <= acc <= 0x8000_0000 * (i - scroll),
                -0x2_0000_0000 <= x <= 0x2_0000_0000,
                ws == Seq::new(widths@.len(), |i: int| (widths@[i] as i32) as int),
                click_index(ws, i as int, acc as int, x as int) == click_index(
                    ws,
                    scroll as int,
                    0,
                    x as int,
                ),
            decreases widths@.len() - i,
        {
            let w: i64 = (#[verifier::truncate] (widths[i as usize] as i32)) as i64;
            assert(w == ws[i as int]);
            let half: i64 = if w >= 0 {
                w / 2
            } else {
                -((-w) / 2)
            };
            if acc + half > x {
                return i;
            }
            i += 1;
            acc = acc + w;
        }
        i
    }

    /// A mouse button going down at `position`, as `mouse_down_post` says.
    pub fn on_mouse_down<L: FontLoader>(&mut self, position: Position, fonts: &mut FontFactory<L>) -> (r: bool)
        requires
            old(fonts).wf(),
        ensures
            final(fonts).wf(),
            lines_grow(old(fonts).lines(), final(fonts).lines()),
            final(fonts).lines().len() == old(fonts).lines().len(),
            mouse_down_post(
                *old(self),
                *final(self),
                position,
                r,
                font_glyphs(final(fonts).lines(), old(self).spec_font()),
            ),
    {
        proof {
            use_type_invariant(&*self);
        }
        let widths = self.font.char_widths(&self.text, fonts);
        let x: i64 = position.0 as i64 - self.base.rect.left_top.0 as i64 - 1;
        let index = Self::click(&widths, self.scroll_position, x);
        proof {
            assert(Seq::new(widths@.len(), |i: int| (widths@[i] as i32) as int)
                =~= char_widths_of(font_glyphs(fonts.lines(), self.font), self.text@));
        }
        let mut e = Self::placeholder();
        std::mem::swap(self, &mut e);
        proof {
            use_type_invariant(&e);
        }
        let Edit { base, text, font, scroll_position, cursor_position: _, skip_callback, enter_callback, suka_down: _ } = e;
        *self = Edit {
            base,
            text,
            font,
            scroll_position,
            cursor_position: index,
            skip_callback,
            enter_callback,
            suka_down: true,
        };
        true
    }

    /// Losing the focus confirms editing: the enter callback is asked for with the text.
    pub fn on_focus_lose(&mut self, out: &mut MessageOutput) -> (r: bool)
        ensures
            *final(self) == *old(self),
            r == old(self).spec_enter_callback().is_some(),
            enter_jobs(*old(self), old(out).jobs@, final(out).jobs@),
            out_with(*old(out), *final(out), final(out).jobs@, old(out).unfocus, old(out).use_default_keydown),
    {
        match self.enter_callback {
            Some(EnterCallback(id)) => {
                let text = self.text.clone();
                assert(text@ =~= self.text@);
                out.jobs.add_callback(Job::Enter(id, text));
                assert(out.jobs@.drop_last() =~= old(out).jobs@);
                true
            },
            None => false,
        }
    }

    /// Handles `m`, as `edit_message_post` says.
    pub fn on_message<L: FontLoader, C: ClipboardHandler>(
        &mut self,
        m: &GuiMessage,
        out: &mut MessageOutput,
        fonts: &mut FontFactory<L>,
        clipboard: &C,
    ) -> (r: bool)
        requires
            old(fonts).wf(),
        ensures
            final(fonts).wf(),
            lines_grow(old(fonts).lines(), final(fonts).lines()),
            final(fonts).lines().len() == old(fonts).lines().len(),
            edit_message_post(
                *old(self),
                *final(self),
                *m,
                *old(out),
                *final(out),
                r,
                font_glyphs(final(fonts).lines(), old(self).spec_font()),
            ),
    {
        match m {
            GuiMessage::MouseDown(p) => self.on_mouse_down(*p, fonts),
            GuiMessage::MouseUp(_) => true,
            GuiMessage::Char(c) => self.on_char(*c, fonts),
            GuiMessage::KeyDown(k) => self.on_key_down(*k, out, fonts, clipboard),
            GuiMessage::Hotkey(h) => self.on_hotkey(*h, out, fonts, clipboard),
            GuiMessage::FocusLose => self.on_focus_lose(out),
            _ => false,
        }
    }

    /// When the edit is to be drawn (its window wider and higher than 2): a border in the
    /// theme's font colour; inside, the background mixed with the focused, highlighted or
    /// inactive colour; when focused, a cursor bar after the text before the cursor, if it
    /// fits; then the text from the scroll position on, as far as it fits.
    pub fn draw<L: FontLoader>(
        &mut self,
        buf: &mut ImageViewMut<u32>,
        theme: &GuiColorTheme,
        force: bool,
        fonts: &mut FontFactory<L>,
    ) -> (r: bool)
        requires
            old(fonts).wf(),
        ensures
            r,
            final(fonts).wf(),
            lines_grow(old(fonts).lines(), final(fonts).lines()),
            final(fonts).lines().len() == old(fonts).lines().len(),
            same_outside(old(buf), final(buf)),
            final(self).spec_base() == (GuiControlBase { need_redraw: false, ..old(self).spec_base() }),
            final(self).spec_text() == old(self).spec_text(),
            final(self).spec_font() == old(self).spec_font(),
            final(self).spec_cursor() == old(self).spec_cursor(),
            final(self).spec_scroll() == old(self).spec_scroll(),
            final(self).spec_skip_callback() == old(self).spec_skip_callback(),
            final(self).spec_enter_callback() == old(self).spec_enter_callback(),
            final(self).spec_mouse_down() == old(self).spec_mouse_down(),
            edit_drawn(*old(self), *theme, force, *old(buf), *final(buf), old(fonts).lines(), final(fonts).lines()),
    {
        proof {
            use_type_invariant(&*self);
        }
        let ghost e0 = *self;
        let ghost l0 = fonts.lines();
        let mut base = self.base;
        let can = base.can_draw(force);
        self.set_base(base);
        proof {
            use_type_invariant(&*self);
        }
        if !can {
            return true;
        }
        let (x, y) = buf.get_size();
        if x <= 2 || y <= 2 {
            return true;
        }
        let ghost b0 = *buf;
        let border = SetPixel(theme.font);
        buf.fill_part((0, 0), (x, 1), &border);
        let ghost b1 = *buf;
        buf.fill_part((0, y - 1), (x, y), &border);
        let ghost b2 = *buf;
        buf.fill_part((0, 1), (1, y - 1), &border);
        let ghost b3 = *buf;
        buf.fill_part((x - 1, 1), (x, y - 1), &border);
        let ghost b4 = *buf;
        proof {
            lemma_same_outside_trans(&b0, &b1, &b2);
            lemma_same_outside_trans(&b0, &b2, &b3);
            lemma_same_outside_trans(&b0, &b3, &b4);
        }
        let inner_color = if self.base.focus {
            avg_color(theme.background, theme.edit_focused)
        } else if self.base.highlight {
            avg_color(theme.background, theme.edit_highlight)
        } else {
            avg_color(theme.background, theme.inactive)
        };
        buf.fill_part((1, 1), (x - 1, y - 1), &SetPixel(inner_color));
        let ghost b5 = *buf;
        proof {
            lemma_same_outside_trans(&b0, &b4, &b5);
        }
        let ghost mut la = fonts.lines();
        if self.base.focus {
            let mut before_cursor: Vec<char> = Vec::new();
            let mut k = self.scroll_position as usize;
            while k < self.cursor_position as usize
                invariant
                    0 <= self.scroll_position <= k <= self.cursor_position <= self.text@.len(),
                    before_cursor@ == self.text@.subrange(self.scroll_position as int, k as int),
                decreases self.cursor_position - k,
            {
                before_cursor.push(self.text[k]);
                k += 1;
                assert(before_cursor@ =~= self.text@.subrange(self.scroll_position as int, k as int));
            }
            let cursor_x = self.font.get_chars_size(&before_cursor, fonts).0;
            proof {
                la = fonts.lines();
            }
            if cursor_x < usize::MAX - 2 && cursor_x + 2 <= x - 2 {
                buf.fill_part((1 + cursor_x, 1), (1 + cursor_x + 2, y - 1), &border);
            }
        }
        let ghost b6 = *buf;
        proof {
            lemma_same_outside_trans(&b0, &b5, &b6);
        }
        let limit = x - 2;
        let mut visible: Vec<char> = Vec::new();
        let mut width: usize = 0;
        let mut pos = self.scroll_position as usize;
        let ghost mut m: int = 0;
        while pos < self.text.len()
            invariant_except_break
                0 <= self.scroll_position <= pos <= self.text@.len(),
                visible@ == self.text@.subrange(self.scroll_position as int, pos as int),
                m == pos - self.scroll_position,
            invariant
                fonts.wf(),
                lines_grow(old(fonts).lines(), fonts.lines()),
                lines_grow(la, fonts.lines()),
                fonts.lines().len() == old(fonts).lines().len(),
                0 <= self.scroll_position <= self.text@.len(),
                0 <= m <= self.text@.len() - self.scroll_position,
                visible@ == self.text@.subrange(self.scroll_position as int, self.scroll_position + m),
            ensures
                0 <= m <= self.text@.len() - self.scroll_position,
                visible@ == self.text@.subrange(self.scroll_position as int, self.scroll_position + m),
            decreases self.text@.len() - pos,
        {
            let mut one: Vec<char> = Vec::new();
            one.push(self.text[pos]);
            width = width.saturating_add(self.font.get_chars_size(&one, fonts).0);
            visible.push(self.text[pos]);
            proof {
                m = m + 1;
                assert(visible@ =~= self.text@.subrange(self.scroll_position as int, self.scroll_position + m));
            }
            if width > limit {
                break;
            }
            pos += 1;
        }
        draw_chars_in(
            buf,
            (1, 1),
            (x - 1, y - 1),
            &self.font.color(theme.font),
            &visible,
            (1, (#[verifier::truncate] ((y / 2) as i32))),
            fonts,
        );
        proof {
            lemma_same_outside_trans(&b0, &b6, buf);
            assert(edit_steps(e0, *theme, b0, *buf, l0, fonts.lines(), la, b1, b2, b3, b4, b5, b6, m));
        }
        true
    }

    /// The same edit with its text replaced, as `set_text` does.
    pub fn text<L: FontLoader>(self, text: &str, fonts: &mut FontFactory<L>) -> (r: Self)
        requires
            old(fonts).wf(),
            text@.len() <= edit_capacity(),
        ensures
            final(fonts).wf(),
            lines_grow(old(fonts).lines(), final(fonts).lines()),
            final(fonts).lines().len() == old(fonts).lines().len(),
            r.is_edit_of(
                self,
                text@,
                if self.spec_cursor() <= text@.len() {
                    self.spec_cursor()
                } else {
                    text@.len() as int
                },
                font_glyphs(final(fonts).lines(), self.spec_font()),
            ),
    {
        let mut result = self;
        result.set_text(text, fonts);
        result
    }
}

/// The steps of drawing the edit `e` over a window wider and higher than 2, with the font
/// lines `l0` before and `lf` after: a border in the theme's font colour (`i1` to `i4`);
/// inside it, the background mixed with the focused, highlighted or inactive colour (`i5`);
/// when focused, a bar two wide after the text from the scroll position to the cursor (its
/// width measured with the lines `la`), if it fits (`i6`); then the `m` characters from the
/// scroll position that the loop keeps, drawn in the font colour at half the height.
pub open spec fn edit_steps(
    e: Edit,
    theme: GuiColorTheme,
    before: ImageViewMut<u32>,
    after: ImageViewMut<u32>,
    l0: Seq<FontLine>,
    lf: Seq<FontLine>,
    la: Seq<FontLine>,
    i1: ImageViewMut<u32>,
    i2: ImageViewMut<u32>,
    i3: ImageViewMut<u32>,
    i4: ImageViewMut<u32>,
    i5: ImageViewMut<u32>,
    i6: ImageViewMut<u32>,
    m: int,
) -> bool {
    let x = before.spec_size().0;
    let y = before.spec_size().1;
    let c = theme.font;
    let inner = if e.spec_base().focus {
        spec_avg_color(theme.background, theme.edit_focused)
    } else if e.spec_base().highlight {
        spec_avg_color(theme.background, theme.edit_highlight)
    } else {
        spec_avg_color(theme.background, theme.inactive)
    };
    let font = Font { color: theme.font, light: spec_color_is_light(theme.font), ..e.spec_font() };
    &&& set_part(before, i1, (0usize, 0usize), (x, 1usize), c)
    &&& set_part(i1, i2, (0usize, (y - 1) as usize), (x, y), c)
    &&& set_part(i2, i3, (0usize, 1usize), (1usize, (y - 1) as usize), c)
    &&& set_part(i3, i4, ((x - 1) as usize, 1usize), (x, (y - 1) as usize), c)
    &&& set_part(i4, i5, (1usize, 1usize), ((x - 1) as usize, (y - 1) as usize), inner)
    &&& lines_grow(l0, la)
    &&& lines_grow(la, lf)
    &&& if e.spec_base().focus {
        let cx = text_size(
            font_glyphs(la, e.spec_font()),
            e.spec_text().subrange(e.spec_scroll(), e.spec_cursor()),
        ).0;
        if cx < usize::MAX - 2 && cx + 2 <= x - 2 {
            set_part(i5, i6, ((1 + cx) as usize, 1usize), ((1 + cx + 2) as usize, (y - 1) as usize), c)
        } else {
            i6 == i5
        }
    } else {
        i6 == i5 && la == l0
    }
    &&& 0 <= m <= e.spec_text().len() - e.spec_scroll()
    &&& text_drawn_in(
        i6,
        after,
        (1usize, 1usize),
        ((x - 1) as usize, (y - 1) as usize),
        font_glyphs(lf, font),
        font,
        e.spec_text().subrange(e.spec_scroll(), e.spec_scroll() + m),
        (1i32, (y / 2) as i32),
    )
}

/// Whether drawing the edit `e` turns `before` into `after` and the font lines `l0` into
/// `lf`: nothing is drawn unless it is visible and to be redrawn (or `force`) and its window
/// is wider and higher than 2; else it goes through `edit_steps`.
pub open spec fn edit_drawn(
    e: Edit,
    theme: GuiColorTheme,
    force: bool,
    before: ImageViewMut<u32>,
    after: ImageViewMut<u32>,
    l0: Seq<FontLine>,
    lf: Seq<FontLine>,
) -> bool {
    if !(e.spec_base().visible && (e.spec_base().need_redraw || force)) || before.spec_size().0 <= 2 || before.spec_size().1 <= 2 {
        after == before && lf == l0
    } else {
        exists|
            la: Seq<FontLine>,
            i1: ImageViewMut<u32>,
            i2: ImageViewMut<u32>,
            i3: ImageViewMut<u32>,
            i4: ImageViewMut<u32>,
            i5: ImageViewMut<u32>,
            i6: ImageViewMut<u32>,
            m: int,
        | #[trigger] edit_steps(e, theme, before, after, l0, lf, la, i1, i2, i3, i4, i5, i6, m)
    }
}

} // verus!
