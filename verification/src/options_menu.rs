//! The "Options" tab: the font size, font and line anti-aliasing and the colour theme, and
//! what its callbacks do to the settings.

use vstd::prelude::*;
use crate::config::{
    ColorTheme, Config, ConfigFontSize, CurvesAAMode, decimal, decimal_chars, get_gui_color_theme,
    gui_color_theme_of, nat_digits, parse_i32, parsed_i32,
};
use crate::font::{Font, FontAntiAliasingMode, FontFactory, FontLine, FontLoader, lines_grow, font_glyphs};
use crate::gui::edit::{EnterCallback, SkipCallback};
use crate::gui::gui_components::{
    Container, ContainerLayout, Control, RadioGroup, RadioGroupCallback, TabControl,
};
use crate::gui::{GuiColorTheme, SizeConstraint, SizeConstraints, new_base};
use crate::gui_helper::{
    create_default_size_check_button, create_default_size_check_button_with_hotkey,
    create_default_size_edit, create_default_size_text_box,
};
use crate::job_system::Job;
use crate::keys::{Hotkey, Key};
use crate::gui::gui_components::{Button, select_children, with_button_checked};
use crate::menus::{added_tab, font_height, is_button, tab_button_sized, menu_line_height};

verus! {

/// The callbacks the options menu asks for.
#[derive(PartialEq, Eq, Structural, Copy, Clone, Debug)]
pub struct OptionsMenuIds {
    /// Editing the font size was given up.
    pub font_size_skip: usize,
    /// A font size was entered.
    pub font_size_enter: usize,
    /// The font anti-aliasing was chosen.
    pub font_aa: usize,
    /// The line anti-aliasing was chosen.
    pub curves_aa: usize,
    /// The colour theme was chosen.
    pub color_theme: usize,
}

/// What is left to do after a callback of the options menu changed the settings.
#[derive(PartialEq, Eq, Structural, Copy, Clone)]
pub struct OptionsEffect {
    /// The font size edit is to show the configured size again.
    pub reset_font_input: bool,
    /// The text entered is no number, which the user is to be told.
    pub not_a_number: bool,
    /// The GUI is to be built anew for the new settings.
    pub rebuild: bool,
    /// The controls are to be drawn in these colours from now on.
    pub color_theme: Option<GuiColorTheme>,
}

/// Nothing left to do.
pub open spec fn no_effect() -> OptionsEffect {
    OptionsEffect { reset_font_input: false, not_a_number: false, rebuild: false, color_theme: None }
}

/// The font anti-aliasing chosen by the button at `index`.
pub open spec fn font_aa_at(index: int) -> Option<FontAntiAliasingMode> {
    if index == 0 {
        Some(FontAntiAliasingMode::NoAA)
    } else if index == 1 {
        Some(FontAntiAliasingMode::AA)
    } else if index == 2 {
        Some(FontAntiAliasingMode::TT)
    } else {
        None
    }
}

/// The line anti-aliasing chosen by the button at `index`.
pub open spec fn curves_aa_at(index: int) -> Option<CurvesAAMode> {
    if index == 0 {
        Some(CurvesAAMode::NoAntiAliasing)
    } else if index == 1 {
        Some(CurvesAAMode::AntiAliasingX2)
    } else if index == 2 {
        Some(CurvesAAMode::AntiAliasingX4)
    } else {
        None
    }
}

/// The colour theme chosen by the button at `index`.
pub open spec fn color_theme_at(index: int) -> Option<ColorTheme> {
    if index == 0 {
        Some(ColorTheme::Dark)
    } else if index == 1 {
        Some(ColorTheme::Beige)
    } else if index == 2 {
        Some(ColorTheme::Light)
    } else {
        None
    }
}

/// The index of the button of a font anti-aliasing mode.
pub open spec fn font_aa_index_spec(mode: FontAntiAliasingMode) -> int {
    match mode {
        FontAntiAliasingMode::NoAA => 0,
        FontAntiAliasingMode::AA => 1,
        FontAntiAliasingMode::TT => 2,
    }
}

/// The index of the button of a line anti-aliasing mode.
pub open spec fn curves_aa_index_spec(mode: CurvesAAMode) -> int {
    match mode {
        CurvesAAMode::NoAntiAliasing => 0,
        CurvesAAMode::AntiAliasingX2 => 1,
        CurvesAAMode::AntiAliasingX4 => 2,
    }
}

/// The index of the button of a colour theme.
pub open spec fn color_theme_index_spec(theme: ColorTheme) -> int {
    match theme {
        ColorTheme::Dark => 0,
        ColorTheme::Beige => 1,
        ColorTheme::Light => 2,
    }
}

/// The index of the button of a font anti-aliasing mode.
pub fn font_aa_index(mode: FontAntiAliasingMode) -> (r: usize)
    ensures
        r == font_aa_index_spec(mode),
{
    match mode {
        FontAntiAliasingMode::NoAA => 0,
        FontAntiAliasingMode::AA => 1,
        FontAntiAliasingMode::TT => 2,
    }
}

/// The index of the button of a line anti-aliasing mode.
pub fn curves_aa_index(mode: CurvesAAMode) -> (r: usize)
    ensures
        r == curves_aa_index_spec(mode),
{
    match mode {
        CurvesAAMode::NoAntiAliasing => 0,
        CurvesAAMode::AntiAliasingX2 => 1,
        CurvesAAMode::AntiAliasingX4 => 2,
    }
}

/// The index of the button of a colour theme.
pub fn color_theme_index(theme: ColorTheme) -> (r: usize)
    ensures
        r == color_theme_index_spec(theme),
{
    match theme {
        ColorTheme::Dark => 0,
        ColorTheme::Beige => 1,
        ColorTheme::Light => 2,
    }
}

/// The button of each mode and theme chooses that mode and theme again.
pub proof fn law_selector_index_chooses_setting(
    font_aa: FontAntiAliasingMode,
    curves_aa: CurvesAAMode,
    theme: ColorTheme,
)
    ensures
        font_aa_at(font_aa_index_spec(font_aa)) == Some(font_aa),
        curves_aa_at(curves_aa_index_spec(curves_aa)) == Some(curves_aa),
        color_theme_at(color_theme_index_spec(theme)) == Some(theme),
{
}

/// The font size after `text` was entered: the number it writes, brought into range, or the
/// old size where it writes none.
pub open spec fn entered_font_size(old: ConfigFontSize, text: Seq<char>) -> ConfigFontSize {
    match parsed_i32(text) {
        Some(v) => ConfigFontSize(if v < 10 { 10 } else if v > 100 { 100 } else { v as i32 }),
        None => old,
    }
}

/// What the options menu does with `job`: the settings `new` from `old`, and the effect `r`.
/// Jobs of other callbacks change nothing.
pub open spec fn options_job_post(
    old: Config,
    new: Config,
    ids: OptionsMenuIds,
    job: Job,
    r: OptionsEffect,
) -> bool {
    match job {
        Job::Skip(id) if id == ids.font_size_skip => new == old && r == OptionsEffect {
            reset_font_input: true,
            ..no_effect()
        },
        Job::Enter(id, text) if id == ids.font_size_enter => {
            let size = entered_font_size(old.font_size, text@);
            &&& new == Config { font_size: size, ..old }
            &&& r == OptionsEffect {
                reset_font_input: true,
                not_a_number: parsed_i32(text@) is None,
                rebuild: size != old.font_size,
                color_theme: None,
            }
        },
        Job::RadioGroup(id, index) if id == ids.font_aa => {
            let mode = match font_aa_at(index as int) {
                Some(m) => m,
                None => old.font_aa_mode,
            };
            &&& new == Config { font_aa_mode: mode, ..old }
            &&& r == OptionsEffect { rebuild: mode != old.font_aa_mode, ..no_effect() }
        },
        Job::RadioGroup(id, index) if id == ids.curves_aa => {
            let mode = match curves_aa_at(index as int) {
                Some(m) => m,
                None => old.curves_aa_mode,
            };
            &&& new == Config { curves_aa_mode: mode, ..old }
            &&& r == no_effect()
        },
        Job::RadioGroup(id, index) if id == ids.color_theme => {
            let theme = match color_theme_at(index as int) {
                Some(t) => t,
                None => old.color_theme,
            };
            &&& new == Config { color_theme: theme, ..old }
            &&& r == OptionsEffect { color_theme: Some(gui_color_theme_of(theme)), ..no_effect() }
        },
        _ => new == old && r == no_effect(),
    }
}

/// Runs the callback of the options menu that `job` asks for: a font size entered is read as
/// a number and brought into range, a mode or theme chosen by its button's index is set.
/// Says what is left to do: show the size again, tell the user the text was no number,
/// build the GUI anew when the font changed, or use the new colours.
pub fn apply_options_job(config: &mut Config, ids: &OptionsMenuIds, job: &Job) -> (r: OptionsEffect)
    ensures
        options_job_post(*old(config), *final(config), *ids, *job, r),
{
    let nothing = OptionsEffect { reset_font_input: false, not_a_number: false, rebuild: false, color_theme: None };
    match job {
        Job::Skip(id) => {
            if *id == ids.font_size_skip {
                OptionsEffect { reset_font_input: true, ..nothing }
            } else {
                nothing
            }
        },
        Job::Enter(id, text) => {
            if *id == ids.font_size_enter {
                let old_size = config.font_size;
                let parsed = parse_i32(text);
                match parsed {
                    Some(v) => {
                        config.font_size = ConfigFontSize(v).adjusted();
                    },
                    None => {},
                }
                let changed = config.font_size != old_size;
                OptionsEffect {
                    reset_font_input: true,
                    not_a_number: parsed.is_none(),
                    rebuild: changed,
                    color_theme: None,
                }
            } else {
                nothing
            }
        },
        Job::RadioGroup(id, index) => {
            if *id == ids.font_aa {
                let old_mode = config.font_aa_mode;
                if *index == 0 {
                    config.font_aa_mode = FontAntiAliasingMode::NoAA;
                } else if *index == 1 {
                    config.font_aa_mode = FontAntiAliasingMode::AA;
                } else if *index == 2 {
                    config.font_aa_mode = FontAntiAliasingMode::TT;
                }
                OptionsEffect { rebuild: config.font_aa_mode != old_mode, ..nothing }
            } else if *id == ids.curves_aa {
                if *index == 0 {
                    config.curves_aa_mode = CurvesAAMode::NoAntiAliasing;
                } else if *index == 1 {
                    config.curves_aa_mode = CurvesAAMode::AntiAliasingX2;
                } else if *index == 2 {
                    config.curves_aa_mode = CurvesAAMode::AntiAliasingX4;
                }
                nothing
            } else if *id == ids.color_theme {
                if *index == 0 {
                    config.color_theme = ColorTheme::Dark;
                } else if *index == 1 {
                    config.color_theme = ColorTheme::Beige;
                } else if *index == 2 {
                    config.color_theme = ColorTheme::Light;
                }
                OptionsEffect { color_theme: Some(get_gui_color_theme(config)), ..nothing }
            } else {
                nothing
            }
        },
        _ => nothing,
    }
}

/// Whether `c` is the same control as `old` but for the check state of a button.
pub open spec fn same_but_check(old: Control, c: Control) -> bool {
    match old {
        Control::Button(x) => c matches Control::Button(y) && y == (Button { check_state: y.check_state, ..x }),
        _ => c == old,
    }
}

/// Whether the controls `new` are `old` but for the check states of buttons.
pub open spec fn same_but_checks(old: Seq<Control>, new: Seq<Control>) -> bool {
    &&& new.len() == old.len()
    &&& forall|i: int| 0 <= i < old.len() ==> same_but_check(#[trigger] old[i], new[i])
}

proof fn lemma_checked_keeps(children: Seq<Control>, index: int, checked: bool)
    ensures
        same_but_checks(children, with_button_checked(children, index, checked)),
{
}

pub(crate) proof fn lemma_select_keeps(children: Seq<Control>, buttons: Seq<usize>, from: int, to: int)
    ensures
        same_but_checks(children, select_children(children, buttons, from, to)),
{
    let unchecked = if 0 <= from < buttons.len() {
        with_button_checked(children, buttons[from] as int, false)
    } else {
        children
    };
    if 0 <= from < buttons.len() {
        lemma_checked_keeps(children, buttons[from] as int, false);
    }
    if 0 <= to < buttons.len() {
        lemma_checked_keeps(unchecked, buttons[to] as int, true);
    }
    let r = select_children(children, buttons, from, to);
    assert forall|i: int| 0 <= i < children.len() implies same_but_check(#[trigger] children[i], r[i]) by {
        assert(same_but_check(children[i], unchecked[i]));
        assert(same_but_check(unchecked[i], r[i]));
    }
}

/// Whether `g` is a radio group in a horizontal line, captioned `caption`, with one button
/// after the caption for each of `captions`, in order.
pub open spec fn selector_shape(g: RadioGroup, caption: Seq<char>, captions: Seq<Seq<char>>) -> bool {
    &&& g.container.layout == ContainerLayout::Horizontal
    &&& g.container.children@.len() == captions.len() + 1
    &&& g.container.children@[0] matches Control::TextBox(t) && t.text@ == caption
    &&& g.buttons@.len() == captions.len()
    &&& forall|k: int| 0 <= k < captions.len() ==> #[trigger] g.buttons@[k] == k + 1 && is_button(
        g.container.children@[k + 1],
        captions[k],
    )
}

/// Whether `c` is a radio group shaped as `selector_shape` says, with button `selected`
/// selected and `id` as its callback.
pub open spec fn is_selector(
    c: Control,
    caption: Seq<char>,
    captions: Seq<Seq<char>>,
    selected: int,
    id: usize,
) -> bool {
    &&& c matches Control::RadioGroup(g)
    &&& selector_shape(g, caption, captions)
    &&& g.selected_index == selected
    &&& g.callback == Some(RadioGroupCallback(id))
}

/// Whether `c` is a button with the hot-key `hotkey`, global or not.
pub open spec fn has_hotkey(c: Control, hotkey: Hotkey, global: bool) -> bool {
    c matches Control::Button(b) && b.hotkey == Some(hotkey) && b.hotkey_is_global == global
}

/// A radio group in a horizontal line `height` pixels high, captioned `caption`.
fn new_selector<L: FontLoader>(caption: &str, height: i32, font: &Font, fonts: &mut FontFactory<L>) -> (r: RadioGroup)
    requires
        old(fonts).wf(),
    ensures
        final(fonts).wf(),
        lines_grow(old(fonts).lines(), final(fonts).lines()),
        final(fonts).lines().len() == old(fonts).lines().len(),
        r.container.layout == ContainerLayout::Horizontal,
        r.container.children@.len() == 1,
        r.container.children@[0] matches Control::TextBox(t) && t.text@ == caption@,
        r.buttons@.len() == 0,
        r.callback is None,
{
    let caption_box = create_default_size_text_box(caption, *font, fonts);
    RadioGroup::new(
        SizeConstraints(SizeConstraint::flexible(0), SizeConstraint::fixed(height)),
        ContainerLayout::Horizontal,
        Some(caption_box),
    )
}

/// Selects button `selected` of the group and gives it the callback `id`.
fn finish_selector(g: &mut RadioGroup, selected: usize, id: usize)
    ensures
        same_but_checks(old(g).container.children@, final(g).container.children@),
        final(g).container.layout == old(g).container.layout,
        final(g).buttons == old(g).buttons,
        final(g).selected_index == selected,
        final(g).callback == Some(RadioGroupCallback(id)),
{
    proof {
        lemma_select_keeps(g.container.children@, g.buttons@, g.selected_index as int, selected as int);
    }
    let _ = g.set_index(selected);
    g.set_callback(RadioGroupCallback(id));
}

/// The number of decimal digits of `m` is at most one more than a tenth of it.
proof fn lemma_nat_digits_len(m: nat)
    ensures
        nat_digits(m).len() <= 1 + m / 10,
    decreases m,
{
    if m >= 10 {
        lemma_nat_digits_len(m / 10);
    }
}

/// Whether `c` is the font size line: a caption and an edit holding the configured size in
/// decimal, asking for the two font size callbacks.
pub open spec fn font_size_line_shape(c: Control, config: Config, ids: OptionsMenuIds) -> bool {
    match c {
        Control::Container(line) => {
            &&& line.layout == ContainerLayout::Horizontal
            &&& line.children@.len() == 2
            &&& line.children@[0] matches Control::TextBox(t) && t.text@ == "Размер шрифта:"@
            &&& match line.children@[1] {
                Control::Edit(e) => {
                    &&& e.spec_text() == decimal(config.font_size.0 as int)
                    &&& e.spec_skip_callback() == Some(SkipCallback(ids.font_size_skip))
                    &&& e.spec_enter_callback() == Some(EnterCallback(ids.font_size_enter))
                },
                _ => false,
            }
        },
        _ => false,
    }
}

/// Whether `menu` is the options menu for the settings `config`: the font size line (a
/// caption and an edit holding the size, asking for the two font size callbacks), then the
/// font anti-aliasing, line anti-aliasing and colour theme selectors, each with the
/// setting's button selected; the theme buttons have the hot-keys Ctrl+D, B and Shift+L,
/// the last one global.
pub open spec fn options_menu_shape(menu: Container, config: Config, ids: OptionsMenuIds) -> bool {
    &&& menu.layout == ContainerLayout::Vertical
    &&& menu.children@.len() == 4
    &&& font_size_line_shape(menu.children@[0], config, ids)
    &&& is_selector(
        menu.children@[1],
        "Сглаживание шрифта:"@,
        seq!["Нету"@, "Пиксельное"@, "Субпиксельное (true type)"@],
        font_aa_index_spec(config.font_aa_mode),
        ids.font_aa,
    )
    &&& is_selector(
        menu.children@[2],
        "Сглаживание линий:"@,
        seq!["Нету"@, "Среднее"@, "Высшее"@],
        curves_aa_index_spec(config.curves_aa_mode),
        ids.curves_aa,
    )
    &&& is_selector(
        menu.children@[3],
        "Цветовая тема:"@,
        seq!["Тёмная"@, "Бежевая"@, "Светлая"@],
        color_theme_index_spec(config.color_theme),
        ids.color_theme,
    )
    &&& match menu.children@[3] {
        Control::RadioGroup(g) => {
            &&& has_hotkey(g.container.children@[1], Hotkey { key: Key::D, ctrl: true, alt: false, shift: false }, false)
            &&& has_hotkey(g.container.children@[2], Hotkey { key: Key::B, ctrl: false, alt: false, shift: false }, false)
            &&& has_hotkey(g.container.children@[3], Hotkey { key: Key::L, ctrl: false, alt: false, shift: true }, true)
        },
        _ => false,
    }
}

/// The font anti-aliasing that a caption names: "Нету" (none), "Пиксельное" (by pixel) and
/// "Субпиксельное (true type)" (by subpixel).
pub open spec fn font_aa_named(caption: Seq<char>) -> Option<FontAntiAliasingMode> {
    if caption == "Нету"@ {
        Some(FontAntiAliasingMode::NoAA)
    } else if caption == "Пиксельное"@ {
        Some(FontAntiAliasingMode::AA)
    } else if caption == "Субпиксельное (true type)"@ {
        Some(FontAntiAliasingMode::TT)
    } else {
        None
    }
}

/// The line anti-aliasing that a caption names: "Нету" (none), "Среднее" (medium: twice)
/// and "Высшее" (highest: four times).
pub open spec fn curves_aa_named(caption: Seq<char>) -> Option<CurvesAAMode> {
    if caption == "Нету"@ {
        Some(CurvesAAMode::NoAntiAliasing)
    } else if caption == "Среднее"@ {
        Some(CurvesAAMode::AntiAliasingX2)
    } else if caption == "Высшее"@ {
        Some(CurvesAAMode::AntiAliasingX4)
    } else {
        None
    }
}

/// The colour theme that a caption names: "Тёмная" (dark), "Бежевая" (beige) and
/// "Светлая" (light).
pub open spec fn color_theme_named(caption: Seq<char>) -> Option<ColorTheme> {
    if caption == "Тёмная"@ {
        Some(ColorTheme::Dark)
    } else if caption == "Бежевая"@ {
        Some(ColorTheme::Beige)
    } else if caption == "Светлая"@ {
        Some(ColorTheme::Light)
    } else {
        None
    }
}

/// Whether `c` is a radio group whose button number `k` is captioned `caption`.
pub open spec fn selector_button(c: Control, k: int, caption: Seq<char>) -> bool {
    &&& c matches Control::RadioGroup(g)
    &&& 0 <= k < g.buttons@.len()
    &&& is_button(g.container.children@[g.buttons@[k] as int], caption)
}

/// Whether `c` is a radio group whose selected button is captioned `caption`.
pub open spec fn selected_button(c: Control, caption: Seq<char>) -> bool {
    c matches Control::RadioGroup(g) && selector_button(c, g.selected_index as int, caption)
}

/// In the options menu, each button sets the setting that its caption names, and the button
/// shown selected names the setting in force: choosing the button number `k` of the font,
/// line or colour selector, captioned `caption`, leaves the font anti-aliasing, the line
/// anti-aliasing or the colour theme that `caption` names (the second line button, "Среднее",
/// sets the medium line anti-aliasing and the third, "Высшее", the highest), and in the menu
/// built for `config` each selector has the button of `config`'s setting selected.
pub proof fn law_option_captions_name_settings(
    menu: Container,
    config: Config,
    ids: OptionsMenuIds,
    k: usize,
    caption: Seq<char>,
    new: Config,
    r: OptionsEffect,
)
    requires
        options_menu_shape(menu, config, ids),
        ids.font_aa != ids.curves_aa,
        ids.font_aa != ids.color_theme,
        ids.curves_aa != ids.color_theme,
    ensures
        selector_button(menu.children@[1], k as int, caption) && options_job_post(
            config,
            new,
            ids,
            Job::RadioGroup(ids.font_aa, k),
            r,
        ) ==> font_aa_named(caption) == Some(new.font_aa_mode),
        selector_button(menu.children@[2], k as int, caption) && options_job_post(
            config,
            new,
            ids,
            Job::RadioGroup(ids.curves_aa, k),
            r,
        ) ==> curves_aa_named(caption) == Some(new.curves_aa_mode),
        selector_button(menu.children@[3], k as int, caption) && options_job_post(
            config,
            new,
            ids,
            Job::RadioGroup(ids.color_theme, k),
            r,
        ) ==> color_theme_named(caption) == Some(new.color_theme),
        selected_button(menu.children@[1], caption) ==> font_aa_named(caption) == Some(
            config.font_aa_mode,
        ),
        selected_button(menu.children@[2], caption) ==> curves_aa_named(caption) == Some(
            config.curves_aa_mode,
        ),
        selected_button(menu.children@[3], caption) ==> color_theme_named(caption) == Some(
            config.color_theme,
        ),
{
    reveal_strlit("Нету");
    reveal_strlit("Пиксельное");
    reveal_strlit("Субпиксельное (true type)");
    reveal_strlit("Среднее");
    reveal_strlit("Высшее");
    reveal_strlit("Тёмная");
    reveal_strlit("Бежевая");
    reveal_strlit("Светлая");
    assert("Нету"@.len() == 4);
    assert("Пиксельное"@.len() == 10);
    assert("Субпиксельное (true type)"@.len() == 25);
    assert("Среднее"@.len() == 7);
    assert("Высшее"@.len() == 6);
    assert("Пиксельное"@ != "Нету"@);
    assert("Субпиксельное (true type)"@ != "Нету"@);
    assert("Субпиксельное (true type)"@ != "Пиксельное"@);
    assert("Среднее"@ != "Нету"@);
    assert("Высшее"@ != "Нету"@);
    assert("Высшее"@ != "Среднее"@);
    assert("Тёмная"@.len() == 6);
    assert("Бежевая"@.len() == 7);
    assert("Светлая"@.len() == 7);
    assert("Бежевая"@ != "Тёмная"@);
    assert("Светлая"@ != "Тёмная"@);
    assert("Светлая"@[0] != "Бежевая"@[0]);
    assert("Светлая"@ != "Бежевая"@);
    let font_captions = seq!["Нету"@, "Пиксельное"@, "Субпиксельное (true type)"@];
    let line_captions = seq!["Нету"@, "Среднее"@, "Высшее"@];
    let theme_captions = seq!["Тёмная"@, "Бежевая"@, "Светлая"@];
    if let Control::RadioGroup(g) = menu.children@[1] {
        if 0 <= k < g.buttons@.len() {
            assert(g.buttons@[k as int] == k + 1);
            assert(is_button(g.container.children@[k + 1], font_captions[k as int]));
            assert(font_aa_named(font_captions[k as int]) == font_aa_at(k as int));
        }
        if 0 <= g.selected_index < g.buttons@.len() {
            let j = g.selected_index as int;
            assert(g.buttons@[j] == j + 1);
            assert(is_button(g.container.children@[j + 1], font_captions[j]));
        }
    }
    if let Control::RadioGroup(g) = menu.children@[2] {
        if 0 <= k < g.buttons@.len() {
            assert(g.buttons@[k as int] == k + 1);
            assert(is_button(g.container.children@[k + 1], line_captions[k as int]));
            assert(curves_aa_named(line_captions[k as int]) == curves_aa_at(k as int));
        }
        if 0 <= g.selected_index < g.buttons@.len() {
            let j = g.selected_index as int;
            assert(g.buttons@[j] == j + 1);
            assert(is_button(g.container.children@[j + 1], line_captions[j]));
        }
    }
    if let Control::RadioGroup(g) = menu.children@[3] {
        if 0 <= k < g.buttons@.len() {
            assert(g.buttons@[k as int] == k + 1);
            assert(is_button(g.container.children@[k + 1], theme_captions[k as int]));
            assert(color_theme_named(theme_captions[k as int]) == color_theme_at(k as int));
        }
        if 0 <= g.selected_index < g.buttons@.len() {
            let j = g.selected_index as int;
            assert(g.buttons@[j] == j + 1);
            assert(is_button(g.container.children@[j + 1], theme_captions[j]));
        }
    }
}

/// The line to edit the font size in, for the settings `config`.
fn font_size_line<L: FontLoader>(
    height: i32,
    font: &Font,
    fonts: &mut FontFactory<L>,
    config: &Config,
    ids: &OptionsMenuIds,
) -> (r: Container)
    requires
        old(fonts).wf(),
    ensures
        final(fonts).wf(),
        lines_grow(old(fonts).lines(), final(fonts).lines()),
        final(fonts).lines().len() == old(fonts).lines().len(),
        font_size_line_shape(Control::Container(r), *config, *ids),
{
    let mut line = Container::new(
        SizeConstraints(SizeConstraint::flexible(0), SizeConstraint::fixed(height)),
        ContainerLayout::Horizontal,
    );
    let caption = create_default_size_text_box("Размер шрифта:", *font, fonts);
    line.add_child(Control::TextBox(caption));
    proof {
        reveal_strlit("8888");
    }
    let mut input = create_default_size_edit("8888", *font, fonts);
    let digits = decimal_chars(config.font_size.0);
    proof {
        let n = config.font_size.0 as int;
        lemma_nat_digits_len(if n < 0 { (-n) as nat } else { n as nat });
    }
    input.set_chars(digits, fonts);
    let input = input.skip_callback(SkipCallback(ids.font_size_skip)).enter_callback(
        EnterCallback(ids.font_size_enter),
    );
    line.add_child(Control::Edit(input));
    line
}

/// The selector of the font anti-aliasing.
fn font_aa_selector<L: FontLoader>(
    height: i32,
    font: &Font,
    fonts: &mut FontFactory<L>,
    config: &Config,
    ids: &OptionsMenuIds,
) -> (r: RadioGroup)
    requires
        old(fonts).wf(),
    ensures
        final(fonts).wf(),
        lines_grow(old(fonts).lines(), final(fonts).lines()),
        final(fonts).lines().len() == old(fonts).lines().len(),
        is_selector(
            Control::RadioGroup(r),
            "Сглаживание шрифта:"@,
            seq!["Нету"@, "Пиксельное"@, "Субпиксельное (true type)"@],
            font_aa_index_spec(config.font_aa_mode),
            ids.font_aa,
        ),
{
    let mut g = new_selector("Сглаживание шрифта:", height, font, fonts);
    let b = create_default_size_check_button("Нету", *font, fonts);
    g.add_button(b);
    let b = create_default_size_check_button("Пиксельное", *font, fonts);
    g.add_button(b);
    let b = create_default_size_check_button("Субпиксельное (true type)", *font, fonts);
    g.add_button(b);
    let ghost before = g;
    finish_selector(&mut g, font_aa_index(config.font_aa_mode), ids.font_aa);
    assert(same_but_check(before.container.children@[0], g.container.children@[0]));
    assert(same_but_check(before.container.children@[1], g.container.children@[1]));
    assert(same_but_check(before.container.children@[2], g.container.children@[2]));
    assert(same_but_check(before.container.children@[3], g.container.children@[3]));
    g
}

/// The selector of the line anti-aliasing.
fn curves_aa_selector<L: FontLoader>(
    height: i32,
    font: &Font,
    fonts: &mut FontFactory<L>,
    config: &Config,
    ids: &OptionsMenuIds,
) -> (r: RadioGroup)
    requires
        old(fonts).wf(),
    ensures
        final(fonts).wf(),
        lines_grow(old(fonts).lines(), final(fonts).lines()),
        final(fonts).lines().len() == old(fonts).lines().len(),
        is_selector(
            Control::RadioGroup(r),
            "Сглаживание линий:"@,
            seq!["Нету"@, "Среднее"@, "Высшее"@],
            curves_aa_index_spec(config.curves_aa_mode),
            ids.curves_aa,
        ),
{
    let mut g = new_selector("Сглаживание линий:", height, font, fonts);
    let b = create_default_size_check_button("Нету", *font, fonts);
    g.add_button(b);
    let b = create_default_size_check_button("Среднее", *font, fonts);
    g.add_button(b);
    let b = create_default_size_check_button("Высшее", *font, fonts);
    g.add_button(b);
    let ghost before = g;
    finish_selector(&mut g, curves_aa_index(config.curves_aa_mode), ids.curves_aa);
    assert(same_but_check(before.container.children@[0], g.container.children@[0]));
    assert(same_but_check(before.container.children@[1], g.container.children@[1]));
    assert(same_but_check(before.container.children@[2], g.container.children@[2]));
    assert(same_but_check(before.container.children@[3], g.container.children@[3]));
    g
}

/// The selector of the colour theme, whose buttons have hot-keys.
fn color_theme_selector<L: FontLoader>(
    height: i32,
    font: &Font,
    fonts: &mut FontFactory<L>,
    config: &Config,
    ids: &OptionsMenuIds,
) -> (r: RadioGroup)
    requires
        old(fonts).wf(),
    ensures
        final(fonts).wf(),
        lines_grow(old(fonts).lines(), final(fonts).lines()),
        final(fonts).lines().len() == old(fonts).lines().len(),
        is_selector(
            Control::RadioGroup(r),
            "Цветовая тема:"@,
            seq!["Тёмная"@, "Бежевая"@, "Светлая"@],
            color_theme_index_spec(config.color_theme),
            ids.color_theme,
        ),
        has_hotkey(r.container.children@[1], Hotkey { key: Key::D, ctrl: true, alt: false, shift: false }, false),
        has_hotkey(r.container.children@[2], Hotkey { key: Key::B, ctrl: false, alt: false, shift: false }, false),
        has_hotkey(r.container.children@[3], Hotkey { key: Key::L, ctrl: false, alt: false, shift: true }, true),
{
    let mut g = new_selector("Цветовая тема:", height, font, fonts);
    let b = create_default_size_check_button_with_hotkey("Тёмная", Hotkey::ctrl(Key::D), false, *font, fonts);
    g.add_button(b);
    let b = create_default_size_check_button_with_hotkey("Бежевая", Hotkey::new(Key::B), false, *font, fonts);
    g.add_button(b);
    let b = create_default_size_check_button_with_hotkey("Светлая", Hotkey::shift(Key::L), true, *font, fonts);
    g.add_button(b);
    let ghost before = g;
    finish_selector(&mut g, color_theme_index(config.color_theme), ids.color_theme);
    assert(same_but_check(before.container.children@[0], g.container.children@[0]));
    assert(same_but_check(before.container.children@[1], g.container.children@[1]));
    assert(same_but_check(before.container.children@[2], g.container.children@[2]));
    assert(same_but_check(before.container.children@[3], g.container.children@[3]));
    g
}

/// Adds the "Options" tab for the settings `config`, its controls asking for the callbacks
/// `ids`. Gives the tab's index.
pub fn create_options_menu<L: FontLoader>(
    parent: &mut TabControl,
    font: &Font,
    fonts: &mut FontFactory<L>,
    config: &Config,
    ids: &OptionsMenuIds,
) -> (r: usize)
    requires
        old(fonts).wf(),
    ensures
        final(fonts).wf(),
        lines_grow(old(fonts).lines(), final(fonts).lines()),
        final(fonts).lines().len() == old(fonts).lines().len(),
        added_tab(*old(parent), *final(parent), "Опции"@, r),
        final(parent).children@.last() matches Control::Container(menu) && options_menu_shape(menu, *config, *ids),
        final(parent).children@.last() matches Control::Container(menu) && menu.base == new_base(
            SizeConstraints(SizeConstraint { absolute: 0, relative: 100 }, SizeConstraint { absolute: 0, relative: 0 }),
        ),
        exists|l1: Seq<FontLine>, l2: Seq<FontLine>|
            #![trigger menu_line_height(l1, *font), font_glyphs(l2, *font)]
            lines_grow(old(fonts).lines(), l1) && lines_grow(l1, l2) && lines_grow(l2, final(fonts).lines())
                && tab_button_sized(*final(parent), old(parent).height, *font, l1, l2, "Опции"@),
{
    let height = font_height(font, fonts);
    let ghost l1 = fonts.lines();
    let caption = "Опции";
    let width: i32 = (#[verifier::truncate] (font.get_size(caption, fonts).0 as i32)).wrapping_add(height);
    let ghost l2 = fonts.lines();
    let mut menu = Container::new(
        SizeConstraints(SizeConstraint::flexible(0), SizeConstraint::fixed(0)),
        ContainerLayout::Vertical,
    );
    let line = font_size_line(height, font, fonts, config, ids);
    menu.add_child(Control::Container(line));
    let g = font_aa_selector(height, font, fonts, config, ids);
    menu.add_child(Control::RadioGroup(g));
    let g = curves_aa_selector(height, font, fonts, config, ids);
    menu.add_child(Control::RadioGroup(g));
    let g = color_theme_selector(height, font, fonts, config, ids);
    menu.add_child(Control::RadioGroup(g));
    let ghost m = menu;
    assert(m.children@.len() == 4);
    let r = parent.add_tab(caption.to_owned(), width, Control::Container(menu));
    assert(parent.children@.drop_last() =~= old(parent).children@);
    assert(tab_button_sized(*parent, old(parent).height, *font, l1, l2, "Опции"@));
    r
}

} // verus!
