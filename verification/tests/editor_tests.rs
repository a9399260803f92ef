use application::bottom_panel::{apply_bottom_panel_job, create_bottom_panel, BottomPanelIds};
use application::cells::{possible_lengths, Cell};
use application::config::{
    decimal_chars, get_cad_color_theme, get_gui_color_theme, parse_i32, ColorTheme, Config,
    ConfigFontSize, CurvesAAMode, SnapOptions,
};
use application::document::{Group, HighlightPointKind};
use application::font::{Font, FontAntiAliasingMode, FontFactory, FontLoader, Glyph};
use application::gui::gui_components::{
    ButtonCallback, ButtonCheckState, Container, ContainerLayout, Control, RadioGroupCallback,
    TabControl,
};
use application::gui::{dark_theme, light_theme, SizeConstraint, SizeConstraints};
use application::image::Image;
use application::job_system::Job;
use application::keys::{Hotkey, Key};
use application::menus::{create_draw_menu, create_edit_menu, create_top_panel, EditMenuIds, TopPanelIds};
use application::options_menu::{apply_options_job, create_options_menu, OptionsMenuIds};
use application::wide_strings::{wstr_len, WideStringManager};
use application::screen::{adjust_rect, bound_sizing, grow_window, lparam_position, wparam_to_key, ScreenRect};

struct TestLoader;

impl FontLoader for TestLoader {
    fn load_glyphs(
        &mut self,
        _font_name: &str,
        _font_size: i32,
        code_from: u32,
        code_to: u32,
        _anti_aliasing_mode: FontAntiAliasingMode,
    ) -> Vec<(char, Glyph)> {
        let mut result = Vec::new();
        for code in code_from..code_to {
            if let Some(c) = char::from_u32(code) {
                result.push((c, Glyph::NoAA(Image::<bool>::new((4, 8)))));
            }
        }
        result
    }
}

fn fonts() -> (FontFactory<TestLoader>, Font) {
    let mut fonts = FontFactory::new(TestLoader);
    let font = fonts.new_font("Test", 12, FontAntiAliasingMode::NoAA);
    (fonts, font)
}

fn config() -> Config {
    Config {
        font_size: ConfigFontSize(20),
        color_theme: ColorTheme::default(),
        curves_aa_mode: CurvesAAMode::default(),
        font_aa_mode: FontAntiAliasingMode::AA,
        show_grid: true,
        snap_options: SnapOptions::default(),
        window_position: None,
    }
}

fn options_ids() -> OptionsMenuIds {
    OptionsMenuIds { font_size_skip: 1, font_size_enter: 2, font_aa: 3, curves_aa: 4, color_theme: 5 }
}

fn chars(s: &str) -> Vec<char> {
    s.chars().collect()
}

fn button_text(c: &Control) -> String {
    match c {
        Control::Button(b) => b.text.clone(),
        _ => panic!("not a button"),
    }
}

#[test]
fn font_size_is_adjusted_into_range() {
    assert_eq!(ConfigFontSize(5).adjusted(), ConfigFontSize(10));
    assert_eq!(ConfigFontSize(10).adjusted(), ConfigFontSize(10));
    assert_eq!(ConfigFontSize(42).adjusted(), ConfigFontSize(42));
    assert_eq!(ConfigFontSize(100).adjusted(), ConfigFontSize(100));
    assert_eq!(ConfigFontSize(1000).adjusted(), ConfigFontSize(100));
    assert_eq!(ConfigFontSize(i32::MIN).adjusted(), ConfigFontSize(10));
}

#[test]
fn settings_defaults() {
    assert_eq!(ColorTheme::default(), ColorTheme::Light);
    assert_eq!(CurvesAAMode::default(), CurvesAAMode::AntiAliasingX2);
    let s = SnapOptions::default();
    assert!(!s.snap_grid && !s.snap_endpoints && !s.snap_crosses && !s.snap_centers);
    assert_eq!(HighlightPointKind::default(), HighlightPointKind::NoPoint);
    let g = Group::default();
    assert!(g.ids.is_empty());
    assert!(!g.selected);
}

#[test]
fn numbers_are_read_as_i32_reads_them() {
    for text in ["42", "+7", "-13", "0", "007", "2147483647", "-2147483648", "", "-", "+", "12a", " 1", "2147483648", "-2147483649", "99999999999", "--1", "1.5"] {
        assert_eq!(parse_i32(&chars(text)), text.parse::<i32>().ok(), "text {:?}", text);
    }
}

#[test]
fn numbers_are_written_in_decimal() {
    for n in [0, 7, 10, 42, -1, -10, 123456, i32::MAX, i32::MIN] {
        let written: String = decimal_chars(n).iter().collect();
        assert_eq!(written, format!("{}", n));
        assert_eq!(parse_i32(&decimal_chars(n)), Some(n));
    }
}

#[test]
fn color_themes_of_the_settings() {
    let mut c = config();
    c.color_theme = ColorTheme::Dark;
    assert!(get_gui_color_theme(&c) == dark_theme());
    assert_eq!(get_cad_color_theme(&c).line_color, 0x88AA88);
    c.color_theme = ColorTheme::Light;
    assert!(get_gui_color_theme(&c) == light_theme());
    assert_eq!(get_cad_color_theme(&c).pic_color, 0x3F8000);
    c.color_theme = ColorTheme::Beige;
    assert_eq!(get_gui_color_theme(&c).background, 0xDDCCAA);
    assert_eq!(get_cad_color_theme(&c).grid_color_base, 0xA09070);
}

#[test]
fn entering_a_font_size_sets_it_in_range_and_rebuilds() {
    let ids = options_ids();
    let mut c = config();
    let e = apply_options_job(&mut c, &ids, &Job::Enter(2, chars("250")));
    assert_eq!(c.font_size, ConfigFontSize(100));
    assert!(e.reset_font_input && e.rebuild && !e.not_a_number);
    assert!(e.color_theme.is_none());
    let e = apply_options_job(&mut c, &ids, &Job::Enter(2, chars("100")));
    assert_eq!(c.font_size, ConfigFontSize(100));
    assert!(e.reset_font_input && !e.rebuild && !e.not_a_number);
}

#[test]
fn entering_no_number_keeps_the_font_size() {
    let ids = options_ids();
    let mut c = config();
    let e = apply_options_job(&mut c, &ids, &Job::Enter(2, chars("big")));
    assert_eq!(c.font_size, ConfigFontSize(20));
    assert!(e.reset_font_input && e.not_a_number && !e.rebuild);
    let e = apply_options_job(&mut c, &ids, &Job::Skip(1));
    assert!(e.reset_font_input && !e.not_a_number && !e.rebuild);
    let e = apply_options_job(&mut c, &ids, &Job::Skip(9));
    assert!(!e.reset_font_input);
}

#[test]
fn choosing_modes_and_themes() {
    let ids = options_ids();
    let mut c = config();
    let e = apply_options_job(&mut c, &ids, &Job::RadioGroup(3, 2));
    assert!(c.font_aa_mode == FontAntiAliasingMode::TT);
    assert!(e.rebuild);
    let e = apply_options_job(&mut c, &ids, &Job::RadioGroup(3, 2));
    assert!(!e.rebuild);
    let e = apply_options_job(&mut c, &ids, &Job::RadioGroup(3, 7));
    assert!(c.font_aa_mode == FontAntiAliasingMode::TT);
    assert!(!e.rebuild);
    let e = apply_options_job(&mut c, &ids, &Job::RadioGroup(4, 0));
    assert_eq!(c.curves_aa_mode, CurvesAAMode::NoAntiAliasing);
    assert!(!e.rebuild && e.color_theme.is_none());
    let e = apply_options_job(&mut c, &ids, &Job::RadioGroup(5, 0));
    assert_eq!(c.color_theme, ColorTheme::Dark);
    assert!(e.color_theme == Some(dark_theme()));
    let e = apply_options_job(&mut c, &ids, &Job::Button(5));
    assert_eq!(c.color_theme, ColorTheme::Dark);
    assert!(e.color_theme.is_none());
}

#[test]
fn options_menu_shows_the_settings() {
    let (mut fonts, font) = fonts();
    let mut tabs = TabControl::new(10, font);
    let c = config();
    let index = create_options_menu(&mut tabs, &font, &mut fonts, &c, &options_ids());
    assert_eq!(index, 0);
    let menu = match &tabs.children[0] {
        Control::Container(m) => m,
        _ => panic!("not a container"),
    };
    assert_eq!(menu.children.len(), 4);
    match &menu.children[0] {
        Control::Container(line) => match &line.children[1] {
            Control::Edit(e) => assert_eq!(e.get_text(), chars("20")),
            _ => panic!("not an edit"),
        },
        _ => panic!("not a container"),
    }
    match &menu.children[1] {
        Control::RadioGroup(g) => {
            assert_eq!(g.selected_index, 1);
            assert!(g.callback == Some(RadioGroupCallback(3)));
            assert_eq!(button_text(&g.container.children[2]), "Пиксельное");
            match &g.container.children[2] {
                Control::Button(b) => assert!(b.check_state == ButtonCheckState::RadioButton(true)),
                _ => panic!("not a button"),
            }
        }
        _ => panic!("not a radio group"),
    }
    match &menu.children[3] {
        Control::RadioGroup(g) => {
            assert_eq!(g.selected_index, 2);
            match &g.container.children[3] {
                Control::Button(b) => {
                    assert_eq!(b.text, "Светлая");
                    assert!(b.hotkey == Some(Hotkey::shift(Key::L)));
                    assert!(b.hotkey_is_global);
                }
                _ => panic!("not a button"),
            }
        }
        _ => panic!("not a radio group"),
    }
}

#[test]
fn bottom_panel_check_boxes_follow_the_settings() {
    let (mut fonts, font) = fonts();
    let mut root = Container::new(
        SizeConstraints(SizeConstraint::flexible(0), SizeConstraint::flexible(0)),
        ContainerLayout::Vertical,
    );
    let ids = BottomPanelIds { show_grid: 1, snap_grid: 2, snap_endpoints: 3, snap_crosses: 4, snap_centers: 5 };
    let mut c = config();
    let index = create_bottom_panel(&mut root, &font, &mut fonts, &c, &ids);
    assert_eq!(index, 0);
    let panel = match &root.children[0] {
        Control::Container(p) => p,
        _ => panic!("not a container"),
    };
    assert_eq!(panel.children.len(), 10);
    match &panel.children[0] {
        Control::Button(b) => {
            assert_eq!(b.text, "Показать сетку");
            assert!(b.check_state == ButtonCheckState::CheckBox(true));
            assert!(b.callback == Some(ButtonCallback(1)));
        }
        _ => panic!("not a button"),
    }
    match &panel.children[4] {
        Control::EmptySpace(e) => assert_eq!(e.base.size_constraints.0.absolute, 2),
        _ => panic!("not empty space"),
    }
    apply_bottom_panel_job(&mut c, &ids, &Job::CheckBox(1, false));
    assert!(!c.show_grid);
    apply_bottom_panel_job(&mut c, &ids, &Job::CheckBox(4, true));
    assert!(c.snap_options.snap_crosses);
    assert!(!c.snap_options.snap_grid);
    apply_bottom_panel_job(&mut c, &ids, &Job::CheckBox(9, false));
    assert!(c.snap_options.snap_crosses);
}

#[test]
fn draw_and_edit_menus() {
    let (mut fonts, font) = fonts();
    let mut tabs = TabControl::new(10, font);
    assert_eq!(create_draw_menu(&mut tabs, &font, &mut fonts, ButtonCallback(7)), 0);
    assert_eq!(create_edit_menu(&mut tabs, &font, &mut fonts, &EditMenuIds { remove: 1, undo: 2, redo: 3 }), 1);
    match &tabs.children[0] {
        Control::Container(m) => {
            assert_eq!(m.children.len(), 5);
            assert_eq!(button_text(&m.children[4]), "Сброс");
            match &m.children[4] {
                Control::Button(b) => {
                    assert!(b.callback == Some(ButtonCallback(7)));
                    assert!(b.hotkey == Some(Hotkey::new(Key::Escape)));
                }
                _ => panic!("not a button"),
            }
        }
        _ => panic!("not a container"),
    }
    match &tabs.children[1] {
        Control::Container(m) => match &m.children[1] {
            Control::Container(col) => match &col.children[0] {
                Control::Button(b) => {
                    assert_eq!(b.text, "Отменить правку");
                    assert!(b.hotkey == Some(Hotkey::ctrl(Key::Z)));
                    assert!(b.callback == Some(ButtonCallback(2)));
                }
                _ => panic!("not a button"),
            },
            _ => panic!("not a container"),
        },
        _ => panic!("not a container"),
    }
}

#[test]
fn top_panel_holds_the_menus() {
    let (mut fonts, font) = fonts();
    let ids = TopPanelIds { new_file: 1, skip: 2, options: options_ids() };
    let tabs = create_top_panel(&font, &mut fonts, &config(), &ids, 4).unwrap();
    assert_eq!(tabs.children.len(), 5);
    assert_eq!(tabs.selected_tab_index(), 4);
    let captions: Vec<String> = tabs.header.container.children.iter().map(button_text).collect();
    assert_eq!(captions, vec!["Файл", "Рисовать", "Группы", "Преобразовать", "Опции"]);
}

#[test]
fn cells_roll_and_mirror() {
    let cell = Cell::new(&[(1, 0), (2, 1), (3, 2), (4, 3)]);
    assert_eq!(cell.len(), 4);
    assert_eq!(cell.clone().roll(1), Cell::new(&[(2, 1), (3, 2), (4, 3), (1, 0)]));
    assert_eq!(cell.clone().roll(4), cell);
    assert_eq!(cell.clone().roll(0), cell);
    assert_eq!(cell.clone().roll(1).roll(3), cell);
    assert_eq!(cell.clone().mirror(), Cell::new(&[(1, 3), (4, 2), (3, 1), (2, 0)]));
    assert_eq!(cell.clone().mirror().mirror(), cell);
}

#[test]
fn side_kinds_used_by_cells() {
    let cells = vec![Cell::new(&[(3, 1), (3, 1), (2, 3)]), Cell::new(&[(1, 1), (1, 1), (1, 1)])];
    assert_eq!(possible_lengths(&cells), vec![false, true, false, true]);
    assert_eq!(possible_lengths(&Vec::new()), Vec::<bool>::new());
}

#[test]
fn wide_string_length_stops_at_the_first_zero() {
    assert_eq!(wstr_len(&[104, 105, 0, 7, 0]), 2);
    assert_eq!(wstr_len(&[0]), 0);
    let mut manager = WideStringManager::new();
    let index = manager.from_str("héllo");
    assert_eq!(wstr_len(manager.get(index)), 5);
}

fn rect(left: i32, top: i32, right: i32, bottom: i32) -> ScreenRect {
    ScreenRect { left, top, right, bottom }
}

#[test]
fn windows_are_kept_on_the_desktop() {
    let desktop = rect(0, 0, 1000, 800);
    let mut r = rect(-50, 10, 150, 110);
    adjust_rect(desktop, &mut r);
    assert_eq!(r, rect(0, 10, 200, 110));
    let mut r = rect(900, 700, 1100, 900);
    adjust_rect(desktop, &mut r);
    assert_eq!(r, rect(800, 600, 1000, 800));
    let mut r = rect(-10, -10, 2000, 2000);
    adjust_rect(desktop, &mut r);
    assert_eq!(r, desktop);
}

#[test]
fn small_windows_grow_to_the_minimal_size() {
    let desktop = rect(0, 0, 1000, 800);
    let client = rect(0, 0, 100, 100);
    let window = rect(10, 10, 120, 130);
    assert_eq!(grow_window((100, 50), client, window, desktop), None);
    assert_eq!(grow_window((140, 100), client, window, desktop), Some(rect(-10 + 10, 10, 140 + 10, 130)));
    assert_eq!(grow_window((300, 300), client, window, desktop), Some(rect(0, 0, 310, 320)));
}

#[test]
fn resizing_stops_at_the_minimal_size() {
    let mut r = rect(100, 100, 150, 150);
    assert!(bound_sizing(8, &mut r, (80, 60)));
    assert_eq!(r, rect(100, 100, 180, 160));
    let mut r = rect(100, 100, 150, 150);
    assert!(bound_sizing(4, &mut r, (80, 60)));
    assert_eq!(r, rect(70, 90, 150, 150));
    let mut r = rect(100, 100, 150, 150);
    assert!(!bound_sizing(9, &mut r, (80, 60)));
    assert_eq!(r, rect(100, 100, 150, 150));
}

#[test]
fn key_and_mouse_message_parameters() {
    assert!(wparam_to_key(0x25) == Some(Key::Left));
    assert!(wparam_to_key(0x0D) == Some(Key::Enter));
    assert!(wparam_to_key(0x60) == Some(Key::Numpad0));
    assert!(wparam_to_key(0x41).is_none());
    assert_eq!(lparam_position(0x0014_0005), (5, 20));
    assert_eq!(lparam_position(0xFFFF_FFFE_u32 as isize), (-2, -1));
}
