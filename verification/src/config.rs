//! The editor's settings: font size, colour themes, anti-aliasing and snapping, and the
//! decimal text in which the font size is edited.

use vstd::prelude::*;
use crate::font::FontAntiAliasingMode;
use crate::gui::{GuiColorTheme, dark_theme, dark_theme_spec, light_theme, light_theme_spec};
use crate::image::Position;

verus! {

/// The colour theme of the editor.
#[derive(PartialEq, Eq, Structural, Copy, Clone, Debug)]
pub enum ColorTheme {
    Dark,
    Beige,
    Light,
}

impl Default for ColorTheme {
    fn default() -> (r: Self)
        ensures
            r == ColorTheme::Light,
    {
        ColorTheme::Light
    }
}

/// How smoothly curves are drawn.
#[derive(PartialEq, Eq, Structural, Copy, Clone, Debug)]
pub enum CurvesAAMode {
    NoAntiAliasing,
    AntiAliasingX2,
    AntiAliasingX4,
}

impl Default for CurvesAAMode {
    fn default() -> (r: Self)
        ensures
            r == CurvesAAMode::AntiAliasingX2,
    {
        CurvesAAMode::AntiAliasingX2
    }
}

/// What the cursor snaps to.
#[derive(PartialEq, Eq, Structural, Copy, Clone, Debug)]
pub struct SnapOptions {
    pub snap_grid: bool,
    pub snap_endpoints: bool,
    pub snap_crosses: bool,
    pub snap_centers: bool,
}

impl Default for SnapOptions {
    fn default() -> (r: Self)
        ensures
            !r.snap_grid && !r.snap_endpoints && !r.snap_crosses && !r.snap_centers,
    {
        SnapOptions { snap_grid: false, snap_endpoints: false, snap_crosses: false, snap_centers: false }
    }
}

/// The font size, in pixels.
#[derive(PartialEq, Eq, Structural, Copy, Clone, Debug)]
pub struct ConfigFontSize(pub i32);

/// The smallest font size the editor uses.
pub const MIN_FONT_SIZE: i32 = 10;

/// The largest font size the editor uses.
pub const MAX_FONT_SIZE: i32 = 100;

impl ConfigFontSize {
    /// The size brought into the range the editor uses, from `MIN_FONT_SIZE` to
    /// `MAX_FONT_SIZE`.
    pub fn adjusted(self) -> (r: Self)
        ensures
            r.0 == (if self.0 < MIN_FONT_SIZE {
                MIN_FONT_SIZE
            } else if self.0 > MAX_FONT_SIZE {
                MAX_FONT_SIZE
            } else {
                self.0
            }),
    {
        let upper = if self.0 < MAX_FONT_SIZE { self.0 } else { MAX_FONT_SIZE };
        ConfigFontSize(if upper > MIN_FONT_SIZE { upper } else { MIN_FONT_SIZE })
    }
}

/// Where the main window stands on the screen.
#[derive(Copy, Clone, Debug)]
pub struct WindowPosition {
    pub maximized: bool,
    pub left_top: Position,
    pub right_bottom: Position,
}

/// All the settings of the editor.
#[derive(Copy, Clone)]
pub struct Config {
    pub font_size: ConfigFontSize,
    pub color_theme: ColorTheme,
    pub curves_aa_mode: CurvesAAMode,
    pub font_aa_mode: FontAntiAliasingMode,
    pub show_grid: bool,
    pub snap_options: SnapOptions,
    pub window_position: Option<WindowPosition>,
}

/// The colours the drawing area is drawn in.
#[derive(PartialEq, Eq, Structural, Copy, Clone, Debug)]
pub struct CadColorTheme {
    pub line_color: u32,
    pub line_aa_color: u32,
    pub highlight_line_color: u32,
    pub highlight_line_aa_color: u32,
    pub grid_color_base: u32,
    pub grid_color_sub: u32,
    pub grid_font: u32,
    pub selection_rect_color: u32,
    pub selection_bevel_color: u32,
    pub pic_color: u32,
}

/// The drawing colours of the dark theme.
pub open spec fn cad_dark_theme_spec() -> CadColorTheme {
    CadColorTheme {
        line_color: 0x88AA88,
        line_aa_color: 0xCCFFCC,
        highlight_line_color: 0xAA8800,
        highlight_line_aa_color: 0xFFCC00,
        grid_color_base: 0x444444,
        grid_color_sub: 0x282828,
        grid_font: 0x808080,
        selection_rect_color: 0x3F2F00,
        selection_bevel_color: 0xBF8F00,
        pic_color: 0xBF8F00,
    }
}

/// The drawing colours of the beige theme.
pub open spec fn cad_beige_theme_spec() -> CadColorTheme {
    CadColorTheme {
        line_color: 0x002244,
        line_aa_color: 0x002244,
        highlight_line_color: 0x0088FF,
        highlight_line_aa_color: 0x0088FF,
        grid_color_base: 0xA09070,
        grid_color_sub: 0xC0B090,
        grid_font: 0x908060,
        selection_rect_color: 0x001F3F,
        selection_bevel_color: 0x007FFF,
        pic_color: 0x007FFF,
    }
}

/// The drawing colours of the light theme.
pub open spec fn cad_light_theme_spec() -> CadColorTheme {
    CadColorTheme {
        line_color: 0x000000,
        line_aa_color: 0x000000,
        highlight_line_color: 0x338800,
        highlight_line_aa_color: 0x338800,
        grid_color_base: 0xBBBBBB,
        grid_color_sub: 0xDDDDDD,
        grid_font: 0xAAAAAA,
        selection_rect_color: 0x1F2F0F,
        selection_bevel_color: 0x3F5F00,
        pic_color: 0x3F8000,
    }
}

/// The colours of the controls in the beige theme; hot-keys are shown in the splitter
/// colour, as in the other themes.
pub open spec fn beige_theme_spec() -> GuiColorTheme {
    GuiColorTheme {
        background: 0xDDCCAA,
        font: 0x000000,
        hotkey: 0x224466,
        splitter: 0x224466,
        highlight: 0x88AA66,
        pressed: 0x222222,
        selected: 0x4499CC,
        inactive: 0xAA9988,
        edit_highlight: 0xCCCCCC,
        edit_focused: 0xEEEEEE,
    }
}

/// Dark text on beige.
pub fn beige_theme() -> (r: GuiColorTheme)
    ensures
        r == beige_theme_spec(),
{
    GuiColorTheme {
        background: 0xDDCCAA,
        font: 0x000000,
        hotkey: 0x224466,
        splitter: 0x224466,
        highlight: 0x88AA66,
        pressed: 0x222222,
        selected: 0x4499CC,
        inactive: 0xAA9988,
        edit_highlight: 0xCCCCCC,
        edit_focused: 0xEEEEEE,
    }
}

/// The control colours of a colour theme.
pub open spec fn gui_color_theme_of(theme: ColorTheme) -> GuiColorTheme {
    match theme {
        ColorTheme::Dark => dark_theme_spec(),
        ColorTheme::Beige => beige_theme_spec(),
        ColorTheme::Light => light_theme_spec(),
    }
}

/// The drawing colours of a colour theme.
pub open spec fn cad_color_theme_of(theme: ColorTheme) -> CadColorTheme {
    match theme {
        ColorTheme::Dark => cad_dark_theme_spec(),
        ColorTheme::Beige => cad_beige_theme_spec(),
        ColorTheme::Light => cad_light_theme_spec(),
    }
}

/// The colours the drawing area is drawn in, under the configured theme.
pub fn get_cad_color_theme(config: &Config) -> (r: CadColorTheme)
    ensures
        r == cad_color_theme_of(config.color_theme),
{
    match config.color_theme {
        ColorTheme::Dark => CadColorTheme {
            line_color: 0x88AA88,
            line_aa_color: 0xCCFFCC,
            highlight_line_color: 0xAA8800,
            highlight_line_aa_color: 0xFFCC00,
            grid_color_base: 0x444444,
            grid_color_sub: 0x282828,
            grid_font: 0x808080,
            selection_rect_color: 0x3F2F00,
            selection_bevel_color: 0xBF8F00,
            pic_color: 0xBF8F00,
        },
        ColorTheme::Beige => CadColorTheme {
            line_color: 0x002244,
            line_aa_color: 0x002244,
            highlight_line_color: 0x0088FF,
            highlight_line_aa_color: 0x0088FF,
            grid_color_base: 0xA09070,
            grid_color_sub: 0xC0B090,
            grid_font: 0x908060,
            selection_rect_color: 0x001F3F,
            selection_bevel_color: 0x007FFF,
            pic_color: 0x007FFF,
        },
        ColorTheme::Light => CadColorTheme {
            line_color: 0x000000,
            line_aa_color: 0x000000,
            highlight_line_color: 0x338800,
            highlight_line_aa_color: 0x338800,
            grid_color_base: 0xBBBBBB,
            grid_color_sub: 0xDDDDDD,
            grid_font: 0xAAAAAA,
            selection_rect_color: 0x1F2F0F,
            selection_bevel_color: 0x3F5F00,
            pic_color: 0x3F8000,
        },
    }
}

/// The colours the controls are drawn in, under the configured theme.
pub fn get_gui_color_theme(config: &Config) -> (r: GuiColorTheme)
    ensures
        r == gui_color_theme_of(config.color_theme),
{
    match config.color_theme {
        ColorTheme::Dark => dark_theme(),
        ColorTheme::Beige => beige_theme(),
        ColorTheme::Light => light_theme(),
    }
}

/// Whether `c` is an ASCII decimal digit.
pub open spec fn is_digit(c: char) -> bool {
    '0' <= c <= '9'
}

/// The number the decimal digits `s` write.
pub open spec fn digits_value(s: Seq<char>) -> int
    decreases s.len(),
{
    if s.len() == 0 {
        0
    } else {
        digits_value(s.drop_last()) * 10 + (s.last() as int - '0' as int)
    }
}

/// `text` without the `+` or `-` it starts with, if it starts with one.
pub open spec fn unsigned_part(text: Seq<char>) -> Seq<char> {
    if text.len() > 0 && (text[0] == '-' || text[0] == '+') {
        text.drop_first()
    } else {
        text
    }
}

/// The number `text` writes in the way `i32` is read from a string: an optional `+` or
/// `-`, then at least one decimal digit and nothing else, the value in the range of `i32`.
pub open spec fn parsed_i32(text: Seq<char>) -> Option<int> {
    let negative = text.len() > 0 && text[0] == '-';
    let body = unsigned_part(text);
    if body.len() == 0 || !(forall|i: int| 0 <= i < body.len() ==> is_digit(#[trigger] body[i])) {
        None
    } else {
        let v = if negative { -digits_value(body) } else { digits_value(body) };
        if i32::MIN <= v <= i32::MAX { Some(v) } else { None }
    }
}

/// The decimal digits of `m`, without leading zeros (`0` for zero).
pub open spec fn nat_digits(m: nat) -> Seq<char>
    decreases m,
{
    if m < 10 {
        seq![(m + '0' as nat) as char]
    } else {
        nat_digits(m / 10).push(((m % 10) + '0' as nat) as char)
    }
}

/// How `n` is written in decimal, with a `-` before a negative number.
pub open spec fn decimal(n: int) -> Seq<char> {
    if n < 0 {
        seq!['-'] + nat_digits((-n) as nat)
    } else {
        nat_digits(n as nat)
    }
}

proof fn lemma_digits_value_prefix(s: Seq<char>, k: int)
    requires
        0 <= k <= s.len(),
        forall|i: int| 0 <= i < s.len() ==> is_digit(#[trigger] s[i]),
    ensures
        0 <= digits_value(s.take(k)) <= digits_value(s),
    decreases s.len(),
{
    if k < s.len() {
        lemma_digits_value_prefix(s.drop_last(), k);
        assert(s.drop_last().take(k) =~= s.take(k));
    } else {
        assert(s.take(k) =~= s);
    }
    if s.len() > 0 {
        lemma_digits_value_prefix(s.drop_last(), s.len() - 1);
        assert(s.drop_last().take(s.len() - 1) =~= s.drop_last());
    }
}

/// The decimal digits of a number read back as that number.
proof fn lemma_nat_digits(m: nat)
    ensures
        digits_value(nat_digits(m)) == m,
        nat_digits(m).len() > 0,
        forall|i: int| 0 <= i < nat_digits(m).len() ==> is_digit(#[trigger] nat_digits(m)[i]),
    decreases m,
{
    if m < 10 {
        let c = (m + '0' as nat) as char;
        assert(c as int == m + '0' as int);
        assert(seq![c].drop_last() =~= Seq::<char>::empty());
        assert(nat_digits(m) == seq![c]);
        assert(digits_value(seq![c]) == digits_value(Seq::<char>::empty()) * 10 + (c as int - '0' as int));
    } else {
        lemma_nat_digits(m / 10);
        let s = nat_digits(m);
        let c = ((m % 10) + '0' as nat) as char;
        assert(c as int == (m % 10) + '0' as int);
        assert(m == (m / 10) * 10 + m % 10);
        assert(s.drop_last() =~= nat_digits(m / 10));
        assert(s.last() == c);
        assert(digits_value(s.drop_last()) == m / 10);
        assert(digits_value(s) == digits_value(s.drop_last()) * 10 + (s.last() as int - '0' as int));
        assert(s.drop_last() =~= nat_digits(m / 10));
        assert forall|i: int| 0 <= i < s.len() implies is_digit(#[trigger] s[i]) by {
            if i < s.len() - 1 {
                assert(s[i] == nat_digits(m / 10)[i]);
            }
        }
    }
}

/// Reads a number the way `i32` is read from a string (see `parsed_i32`); `None` where
/// the text writes no number of `i32`.
pub fn parse_i32(text: &Vec<char>) -> (r: Option<i32>)
    ensures
        match r {
            Some(v) => parsed_i32(text@) == Some(v as int),
            None => parsed_i32(text@) is None,
        },
{
    let len = text.len();
    if len == 0 {
        return None;
    }
    let negative = text[0] == '-';
    let start: usize = if text[0] == '-' || text[0] == '+' { 1 } else { 0 };
    let ghost body = unsigned_part(text@);
    assert(body =~= text@.subrange(start as int, len as int));
    if start == len {
        assert(body.len() == 0);
        return None;
    }
    let limit: i64 = 0x8000_0000;
    let mut value: i64 = 0;
    let mut i: usize = start;
    while i < len
        invariant
            start <= i <= len,
            len == text@.len(),
            body =~= text@.subrange(start as int, len as int),
            body == unsigned_part(text@),
            negative == (text@.len() > 0 && text@[0] == '-'),
            0 <= value <= limit,
            limit == 0x8000_0000,
            forall|j: int| 0 <= j < i - start ==> is_digit(#[trigger] body[j]),
            value == digits_value(body.take(i - start)),
        decreases len - i,
    {
        let c = text[i];
        if !('0' <= c && c <= '9') {
            assert(!is_digit(body[i - start]));
            assert(!(forall|j: int| 0 <= j < body.len() ==> is_digit(#[trigger] body[j])));
            assert(parsed_i32(text@) is None);
            return None;
        }
        let d: i64 = (c as u32 - '0' as u32) as i64;
        assert(body.take(i - start + 1).drop_last() =~= body.take(i - start));
        let next = value * 10 + d;
        if next > limit {
            proof {
                let rest = i + 1 - start;
                if forall|j: int| 0 <= j < body.len() ==> is_digit(#[trigger] body[j]) {
                    lemma_digits_value_prefix(body, rest);
                }
            }
            return None;
        }
        value = next;
        i = i + 1;
    }
    assert(body.take(len - start) =~= body);
    if negative {
        Some((0 - value) as i32)
    } else if value < limit {
        Some(value as i32)
    } else {
        None
    }
}

/// Appends the decimal digits of `m` to `out`.
fn push_digits(m: u32, out: &mut Vec<char>)
    ensures
        final(out)@ == old(out)@ + nat_digits(m as nat),
    decreases m,
{
    if m >= 10 {
        push_digits(m / 10, out);
    }
    let d: u32 = m % 10;
    let c = if d == 0 {
        '0'
    } else if d == 1 {
        '1'
    } else if d == 2 {
        '2'
    } else if d == 3 {
        '3'
    } else if d == 4 {
        '4'
    } else if d == 5 {
        '5'
    } else if d == 6 {
        '6'
    } else if d == 7 {
        '7'
    } else if d == 8 {
        '8'
    } else {
        '9'
    };
    assert(c == ((d + '0' as nat) as char));
    out.push(c);
}

/// `n` written in decimal, as `format!("{}", n)` writes it.
pub fn decimal_chars(n: i32) -> (r: Vec<char>)
    ensures
        r@ == decimal(n as int),
{
    let mut out: Vec<char> = Vec::new();
    if n < 0 {
        out.push('-');
        let m: u32 = if n == i32::MIN { 0x8000_0000 } else { (0 - n) as u32 };
        push_digits(m, &mut out);
    } else {
        push_digits(n as u32, &mut out);
    }
    out
}

/// A number written in decimal reads back as itself.
pub proof fn law_decimal_reads_back(n: i32)
    ensures
        parsed_i32(decimal(n as int)) == Some(n as int),
{
    let m: nat = if n < 0 { (-n) as nat } else { n as nat };
    lemma_nat_digits(m);
    let t = decimal(n as int);
    if n < 0 {
        assert(t.drop_first() =~= nat_digits(m));
        assert(t[0] == '-');
    } else {
        assert(t[0] == nat_digits(m)[0]);
        assert(is_digit(t[0]));
    }
}

} // verus!
