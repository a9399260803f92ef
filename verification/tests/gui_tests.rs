use application::clipboard::ClipboardHandler;
use application::color::avg_color;
use application::draw_context::DrawContext;
use application::font::{Font, FontAntiAliasingMode, FontFactory, FontLoader, Glyph, TextLayoutHorizontal, TextLayoutVertical};
use application::gui::edit::{EnterCallback, SkipCallback, Edit};
use application::gui::gui_components::{
    layout_rects, Button, ButtonCallback, ButtonCheckState, CheckBox, Container, ContainerLayout,
    Control, RadioGroup, RadioGroupCallback, TabControl, TextBox,
};
use application::gui::scroll::ScrollV;
use application::gui::system::GuiSystem;
use application::gui::{
    dark_theme, light_theme, GuiMessage, MessageOutput, Rect, SizeConstraint, SizeConstraints,
};
use application::image::Image;
use application::job_system::{Job, JobSystem};
use application::keys::{Hotkey, Key};
use application::menus::{create_file_menu, create_group_menu, create_transform_menu};
use application::wide_strings::WideStringManager;

struct TestLoader;

impl FontLoader for TestLoader {
    fn load_glyphs(
        &mut self,
        _font_name: &str,
        _font_size: i32,
        code_from: u32,
        code_to: u32,
        _anti_aliasing_mode: FontAntiAliasingMode,
    ) -> Vec<(char, Glyph)> {
        let mut result = Vec::new();
        for code in code_from..code_to {
            if let Some(c) = char::from_u32(code) {
                result.push((c, Glyph::NoAA(Image::<bool>::new((4, 8)))));
            }
        }
        result
    }
}

struct TestClipboard(Option<String>);

impl ClipboardHandler for TestClipboard {
    fn get_string(&self) -> Option<String> {
        self.0.clone()
    }

    fn put_string(&mut self, text: &str) {
        self.0 = Some(text.to_string());
    }
}

fn fonts() -> (FontFactory<TestLoader>, Font) {
    let mut fonts = FontFactory::new(TestLoader);
    let font = fonts.new_font("Test", 12, FontAntiAliasingMode::NoAA);
    (fonts, font)
}

fn fixed(w: i32, h: i32) -> SizeConstraints {
    SizeConstraints(SizeConstraint::fixed(w), SizeConstraint::fixed(h))
}

fn text_of(edit: &Edit) -> String {
    edit.get_text().iter().collect()
}

#[test]
fn font_measures_text() {
    let (mut fonts, font) = fonts();
    assert_eq!(font.get_size("abc", &mut fonts), (12, 8));
    assert_eq!(font.get_size("", &mut fonts), (0, 0));
    let again = fonts.new_font("Test", 12, FontAntiAliasingMode::NoAA);
    assert_eq!(again.line, font.line);
    let other = fonts.new_font("Test", 14, FontAntiAliasingMode::NoAA);
    assert_ne!(other.line, font.line);
}

#[test]
fn text_size_of_concatenation_adds_widths() {
    let (mut fonts, font) = fonts();
    let a = font.get_size("ab", &mut fonts);
    let b = font.get_size("cde", &mut fonts);
    let ab = font.get_size("abcde", &mut fonts);
    assert_eq!(ab.0, a.0 + b.0);
    assert_eq!(ab.1, a.1.max(b.1));
}

#[test]
fn avg_color_is_idempotent_and_commutative() {
    assert_eq!(avg_color(0x123456, 0x123456), 0x123456);
    assert_eq!(avg_color(0x000000, 0xFEFEFE), 0x7F7F7F);
    assert_eq!(avg_color(0x102030, 0x405060), avg_color(0x405060, 0x102030));
}

#[test]
fn themes_have_their_colours() {
    assert_eq!(light_theme().background, 0xFFFFFF);
    assert_eq!(dark_theme().background, 0x000000);
    assert_eq!(dark_theme().selected, 0x66CC66);
}

#[test]
fn hotkey_text_names_modifiers() {
    assert_eq!(Hotkey::ctrl_shift(Key::Z).text(), "[Ctrl+Shift+Z]");
    assert_eq!(Hotkey::new(Key::F1).text(), "[F1]");
    assert!(Hotkey::new(Key::A).no_modifiers());
    assert!(!Hotkey::alt(Key::A).no_modifiers());
}

#[test]
fn layout_shares_room_between_children() {
    let rect = Rect { left_top: (0, 0), right_bottom: (100, 50) };
    let cs = vec![fixed(10, 20), SizeConstraints(SizeConstraint::flexible(5), SizeConstraint::flexible(10))];
    let rects = layout_rects(rect, &cs, ContainerLayout::Vertical);
    assert_eq!(rects[0].left_top, (0, 0));
    assert_eq!(rects[0].right_bottom, (10, 20));
    assert_eq!(rects[1].left_top, (0, 20));
    assert_eq!(rects[1].right_bottom, (100, 50));
}

#[test]
fn layout_shrinks_children_that_do_not_fit() {
    let rect = Rect { left_top: (0, 0), right_bottom: (50, 10) };
    let cs = vec![fixed(60, 10), fixed(40, 10)];
    let rects = layout_rects(rect, &cs, ContainerLayout::Horizontal);
    assert_eq!(rects[0].right_bottom.0, 30);
    assert_eq!(rects[1].left_top.0, 30);
    assert_eq!(rects[1].right_bottom.0, 50);
}

#[test]
fn layout_tiles_the_rectangle() {
    let rect = Rect { left_top: (3, 10), right_bottom: (53, 110) };
    let cs = vec![
        SizeConstraints(SizeConstraint { absolute: 0, relative: 100 }, SizeConstraint { absolute: 10, relative: 30 }),
        SizeConstraints(SizeConstraint { absolute: 5, relative: 50 }, SizeConstraint { absolute: 20, relative: 70 }),
        SizeConstraints(SizeConstraint { absolute: 0, relative: 0 }, SizeConstraint { absolute: 7, relative: 0 }),
    ];
    let rects = layout_rects(rect, &cs, ContainerLayout::Vertical);
    assert_eq!(rects[0].left_top.1, 10);
    assert_eq!(rects[0].right_bottom.1, rects[1].left_top.1);
    assert_eq!(rects[1].right_bottom.1, rects[2].left_top.1);
    assert_eq!(rects[2].right_bottom.1, 110);
    for r in &rects {
        assert_eq!(r.left_top.0, 3);
        assert!(r.right_bottom.0 <= 53);
        assert!(r.left_top.1 <= r.right_bottom.1);
    }
}

#[test]
fn container_reports_what_children_need() {
    let mut k = Container::new(fixed(5, 5), ContainerLayout::Vertical);
    k.add_child(Control::EmptySpace(application::gui::gui_components::EmptySpace::new(fixed(30, 10))));
    k.add_child(Control::EmptySpace(application::gui::gui_components::EmptySpace::new(fixed(20, 15))));
    let mut c = Control::Container(k);
    let sc = c.get_size_constraints();
    assert_eq!(sc.0.absolute, 30);
    assert_eq!(sc.1.absolute, 25);
    let compressed = Container::new(fixed(5, 5), ContainerLayout::Vertical).compressed();
    let mut c2 = Control::Container(compressed);
    assert_eq!(c2.get_size_constraints().1.absolute, 5);
}

#[test]
fn nested_containers_keep_reported_constraints() {
    let mut inner = Container::new(fixed(0, 0), ContainerLayout::Horizontal);
    inner.add_child(Control::EmptySpace(application::gui::gui_components::EmptySpace::new(fixed(30, 10))));
    inner.add_child(Control::EmptySpace(application::gui::gui_components::EmptySpace::new(fixed(20, 15))));
    let mut outer = Container::new(fixed(0, 0), ContainerLayout::Vertical);
    outer.add_child(Control::Container(inner));
    let mut c = Control::Container(outer);
    let sc = c.get_size_constraints();
    assert_eq!(sc.0.absolute, 50);
    assert_eq!(sc.1.absolute, 15);
    match &c {
        Control::Container(o) => match &o.children[0] {
            Control::Container(i) => {
                assert_eq!(i.base.current_size_constraints.0.absolute, 50);
                assert_eq!(i.base.current_size_constraints.1.absolute, 15);
            },
            _ => panic!("the child is a container"),
        },
        _ => panic!("the root is a container"),
    }
}

#[test]
fn edit_types_and_deletes() {
    let (mut fonts, font) = fonts();
    let mut edit = Edit::new(fixed(200, 20), font);
    let mut out = MessageOutput::new();
    let clip = TestClipboard(None);
    assert!(edit.on_message(&GuiMessage::Char('a'), &mut out, &mut fonts, &clip));
    assert!(edit.on_message(&GuiMessage::Char('b'), &mut out, &mut fonts, &clip));
    assert!(!edit.on_message(&GuiMessage::Char('\u{7}'), &mut out, &mut fonts, &clip));
    assert_eq!(text_of(&edit), "ab");
    assert_eq!(edit.get_cursor_position(), 2);
    assert!(edit.on_message(&GuiMessage::KeyDown(Key::Left), &mut out, &mut fonts, &clip));
    assert_eq!(edit.get_cursor_position(), 1);
    assert!(edit.on_message(&GuiMessage::Char('x'), &mut out, &mut fonts, &clip));
    assert_eq!(text_of(&edit), "axb");
    assert!(edit.on_message(&GuiMessage::KeyDown(Key::Backspace), &mut out, &mut fonts, &clip));
    assert_eq!(text_of(&edit), "ab");
    assert_eq!(edit.get_cursor_position(), 1);
    assert!(edit.on_message(&GuiMessage::KeyDown(Key::Delete), &mut out, &mut fonts, &clip));
    assert_eq!(text_of(&edit), "a");
    assert!(!edit.on_message(&GuiMessage::KeyDown(Key::Delete), &mut out, &mut fonts, &clip));
    assert!(edit.on_message(&GuiMessage::KeyDown(Key::Left), &mut out, &mut fonts, &clip));
    assert!(!edit.on_message(&GuiMessage::KeyDown(Key::Left), &mut out, &mut fonts, &clip));
    assert!(edit.on_message(&GuiMessage::KeyDown(Key::Right), &mut out, &mut fonts, &clip));
    assert_eq!(edit.get_cursor_position(), 1);
}

#[test]
fn edit_pastes_valid_characters() {
    let (mut fonts, font) = fonts();
    let mut edit = Edit::new(fixed(200, 20), font).text("ad", &mut fonts);
    edit.set_cursor_position(1, &mut fonts);
    let mut out = MessageOutput::new();
    let clip = TestClipboard(Some("b\nc".to_string()));
    assert!(edit.on_message(&GuiMessage::Hotkey(Hotkey::ctrl(Key::V)), &mut out, &mut fonts, &clip));
    assert!(out.use_default_keydown);
    assert_eq!(text_of(&edit), "abcd");
    assert_eq!(edit.get_cursor_position(), 3);
    let empty = TestClipboard(None);
    assert!(!edit.on_message(&GuiMessage::KeyDown(Key::Insert), &mut out, &mut fonts, &empty));
    assert_eq!(text_of(&edit), "abcd");
}

#[test]
fn edit_hotkey_without_modifier_is_a_key() {
    let (mut fonts, font) = fonts();
    let mut edit = Edit::new(fixed(200, 20), font);
    let mut out = MessageOutput::new();
    let clip = TestClipboard(None);
    assert!(!edit.on_message(&GuiMessage::Hotkey(Hotkey::new(Key::A)), &mut out, &mut fonts, &clip));
    assert!(out.use_default_keydown);
}

#[test]
fn edit_enter_and_escape_ask_for_callbacks() {
    let (mut fonts, font) = fonts();
    let mut edit = Edit::new(fixed(200, 20), font)
        .text("hi", &mut fonts)
        .enter_callback(EnterCallback(3))
        .skip_callback(SkipCallback(4));
    let clip = TestClipboard(None);
    let mut out = MessageOutput::new();
    assert!(edit.on_message(&GuiMessage::KeyDown(Key::Enter), &mut out, &mut fonts, &clip));
    assert!(out.unfocus);
    let jobs = out.jobs.run_all();
    assert_eq!(jobs.len(), 1);
    match &jobs[0] {
        Job::Enter(id, text) => {
            assert_eq!(*id, 3);
            assert_eq!(text.iter().collect::<String>(), "hi");
        }
        _ => panic!("expected the enter callback"),
    }
    let mut out = MessageOutput::new();
    assert!(edit.on_message(&GuiMessage::KeyDown(Key::Escape), &mut out, &mut fonts, &clip));
    let jobs = out.jobs.run_all();
    assert!(matches!(jobs[0], Job::Skip(4)));
    let mut out = MessageOutput::new();
    assert!(edit.on_message(&GuiMessage::FocusLose, &mut out, &mut fonts, &clip));
    assert_eq!(out.jobs.run_all().len(), 1);
}

#[test]
fn edit_click_puts_cursor_between_characters() {
    let (mut fonts, font) = fonts();
    let mut edit = Edit::new(fixed(200, 20), font).text("abcd", &mut fonts);
    let mut c = Control::Edit(edit);
    c.set_rect(Rect { left_top: (10, 0), right_bottom: (110, 20) });
    let mut out = MessageOutput::new();
    let clip = TestClipboard(None);
    // each character is 4 wide; x = 10 + 1 + 6 is after the middle of the second one
    assert!(c.on_message(&GuiMessage::MouseDown((17, 5)), &mut out, &mut fonts, &clip));
    edit = match c {
        Control::Edit(e) => e,
        _ => unreachable!(),
    };
    assert_eq!(edit.get_cursor_position(), 2);
}

#[test]
fn edit_scrolls_to_keep_cursor_in_sight() {
    let (mut fonts, font) = fonts();
    let edit = Edit::new(fixed(20, 20), font);
    let mut c = Control::Edit(edit);
    c.set_rect(Rect { left_top: (0, 0), right_bottom: (16, 20) });
    let mut edit = match c {
        Control::Edit(e) => e,
        _ => unreachable!(),
    };
    edit.set_text("abcdefgh", &mut fonts);
    edit.set_cursor_position(8, &mut fonts);
    // room for 12 pixels: the last three characters fit, so the scroll is at 5
    assert_eq!(edit.get_scroll_position(), 5);
    edit.set_cursor_position(2, &mut fonts);
    assert_eq!(edit.get_scroll_position(), 1);
}

#[test]
fn button_click_asks_for_callback() {
    let (mut fonts, font) = fonts();
    let mut gui = GuiSystem::new(JobSystem::new());
    let mut root = Container::new(fixed(100, 50), ContainerLayout::Vertical);
    let button = Button::new(fixed(100, 20), "OK".to_string(), font).callback(ButtonCallback(7));
    root.add_child(Control::Button(button));
    gui.set_root(Control::Container(root));
    let mut ctx = DrawContext { buffer: Image::<u32>::new((100, 50)).view_mut(), font_factory: fonts };
    gui.on_draw(&mut ctx);
    let clip = TestClipboard(None);
    assert!(gui.on_mouse_down((5, 5), &mut ctx.font_factory, &clip));
    assert!(gui.focus.is_some());
    assert!(gui.pressed.is_some());
    assert!(gui.on_mouse_up((5, 5), &mut ctx.font_factory, &clip));
    assert!(gui.pressed.is_none());
    let jobs = gui.take_jobs();
    assert_eq!(jobs.len(), 1);
    assert!(matches!(jobs[0], Job::Button(7)));
    // a release outside the button is no click
    gui.on_mouse_down((5, 5), &mut ctx.font_factory, &clip);
    gui.on_mouse_up((5, 40), &mut ctx.font_factory, &clip);
    assert_eq!(gui.take_jobs().len(), 0);
    let _ = font;
}

#[test]
fn check_box_button_flips_and_reports() {
    let (_, font) = fonts();
    let mut button = Button::new(fixed(50, 20), "Check".to_string(), font)
        .check_box(false)
        .checkbox_callback(ButtonCallback(2));
    button.base.rect = Rect { left_top: (0, 0), right_bottom: (50, 20) };
    button.base.pressed = true;
    let mut out = MessageOutput::new();
    assert!(button.on_message(&GuiMessage::MouseUp((1, 1)), &mut out));
    assert!(out.clicked);
    assert!(button.check_state == ButtonCheckState::CheckBox(true));
    let jobs = out.jobs.run_all();
    assert!(matches!(jobs[0], Job::CheckBox(2, true)));
}

#[test]
fn old_check_box_flips_on_release_inside() {
    let (_, font) = fonts();
    let mut check = CheckBox::new(fixed(50, 20), "c".to_string(), font);
    check.base.rect = Rect { left_top: (0, 0), right_bottom: (50, 20) };
    assert!(check.on_message(&GuiMessage::MouseUp((3, 3))));
    assert!(check.checked);
    assert!(check.on_message(&GuiMessage::MouseUp((70, 3))));
    assert!(check.checked);
}

#[test]
fn radio_group_selects_clicked_button() {
    let (mut fonts, font) = fonts();
    let mut group = RadioGroup::new(fixed(100, 20), ContainerLayout::Horizontal, None)
        .callback(RadioGroupCallback(9));
    group.add_button(Button::new(fixed(50, 20), "A".to_string(), font));
    group.add_button(Button::new(fixed(50, 20), "B".to_string(), font));
    let first = group.set_index(0);
    assert!(matches!(first, Some(Job::RadioGroup(9, 0))));
    let mut gui = GuiSystem::new(JobSystem::new());
    gui.set_root(Control::RadioGroup(group));
    let mut ctx = DrawContext { buffer: Image::<u32>::new((100, 20)).view_mut(), font_factory: fonts };
    gui.on_draw(&mut ctx);
    let clip = TestClipboard(None);
    gui.on_mouse_down((75, 5), &mut ctx.font_factory, &clip);
    gui.on_mouse_up((75, 5), &mut ctx.font_factory, &clip);
    let jobs = gui.take_jobs();
    assert!(matches!(jobs[jobs.len() - 1], Job::RadioGroup(9, 1)));
    match &gui.root {
        Some(Control::RadioGroup(g)) => {
            assert_eq!(g.get_index(), 1);
            match (&g.container.children[0], &g.container.children[1]) {
                (Control::Button(a), Control::Button(b)) => {
                    assert!(a.check_state == ButtonCheckState::RadioButton(false));
                    assert!(b.check_state == ButtonCheckState::RadioButton(true));
                }
                _ => panic!("expected buttons"),
            }
        }
        _ => panic!("expected the radio group"),
    }
}

#[test]
fn hotkey_runs_button_callback() {
    let (fonts, font) = fonts();
    let mut gui = GuiSystem::new(JobSystem::new());
    let mut root = Container::new(fixed(100, 50), ContainerLayout::Vertical);
    root.add_child(Control::Button(
        Button::new(fixed(100, 20), "Save".to_string(), font)
            .hotkey(Hotkey::ctrl(Key::S), false)
            .callback(ButtonCallback(5)),
    ));
    gui.set_root(Control::Container(root));
    let mut fonts = fonts;
    let clip = TestClipboard(None);
    assert!(gui.on_hotkey(Hotkey::ctrl(Key::S), &mut fonts, &clip));
    assert!(matches!(gui.take_jobs()[0], Job::Button(5)));
    assert!(!gui.on_hotkey(Hotkey::ctrl(Key::Q), &mut fonts, &clip));
}

#[test]
fn scroll_bar_wheel_stays_in_range() {
    let mut scroll = ScrollV::new(fixed(10, 100));
    assert!(scroll.on_message(&GuiMessage::MouseWheel((0, 0), 10)));
    assert_eq!(scroll.scroll_position, 55);
    assert!(scroll.on_message(&GuiMessage::MouseWheel((0, 0), 1000)));
    assert_eq!(scroll.scroll_position, 90);
    assert!(!scroll.on_message(&GuiMessage::MouseWheel((0, 0), 1)));
    assert!(scroll.on_message(&GuiMessage::MouseWheel((0, 0), -1000)));
    assert_eq!(scroll.scroll_position, 0);
}

#[test]
fn scroll_bar_click_pages() {
    let mut scroll = ScrollV::new(fixed(10, 100));
    scroll.base.rect = Rect { left_top: (0, 0), right_bottom: (10, 100) };
    // the button is 10 high, 45 lines down on a free run of 90 pixels: at 45
    assert!(scroll.on_message(&GuiMessage::MouseDown((5, 2))));
    assert_eq!(scroll.scroll_position, 35);
    assert!(scroll.on_message(&GuiMessage::MouseDown((5, 98))));
    assert_eq!(scroll.scroll_position, 45);
}

#[test]
fn tabs_switch_selected_tab() {
    let (mut fonts, font) = fonts();
    let mut tabs = TabControl::new(20, font);
    tabs.add_tab("One".to_string(), 40, Control::TextBox(TextBox::new(fixed(10, 10), "1".to_string(), font)));
    tabs.add_tab("Two".to_string(), 40, Control::TextBox(TextBox::new(fixed(10, 10), "2".to_string(), font)));
    assert_eq!(tabs.selected_tab_index(), 0);
    tabs.select_tab(1);
    assert_eq!(tabs.selected_tab_index(), 1);
    assert!(matches!(tabs.get_selected_tab(), Some(Control::TextBox(t)) if t.text == "2"));
    let mut gui = GuiSystem::new(JobSystem::new());
    gui.set_root(Control::TabControl(tabs));
    let mut ctx = DrawContext { buffer: Image::<u32>::new((100, 60)).view_mut(), font_factory: fonts };
    gui.on_draw(&mut ctx);
    let clip = TestClipboard(None);
    gui.on_mouse_down((5, 5), &mut ctx.font_factory, &clip);
    gui.on_mouse_up((5, 5), &mut ctx.font_factory, &clip);
    match &gui.root {
        Some(Control::TabControl(t)) => assert_eq!(t.selected_tab_index(), 0),
        _ => panic!("expected tabs"),
    }
}

#[test]
fn menus_add_tabs_of_buttons() {
    let (mut fonts, font) = fonts();
    let mut tabs = TabControl::new(20, font);
    assert_eq!(create_file_menu(&mut tabs, &font, &mut fonts, ButtonCallback(1)), 0);
    assert_eq!(create_group_menu(&mut tabs, &font, &mut fonts), 1);
    assert_eq!(create_transform_menu(&mut tabs, &font, &mut fonts), 2);
    assert_eq!(tabs.children.len(), 3);
    match &tabs.children[1] {
        Control::Container(k) => {
            assert_eq!(k.children.len(), 4);
            assert!(matches!(&k.children[0], Control::Button(b) if b.text == "Объединить"));
        }
        _ => panic!("expected a container"),
    }
}

#[test]
fn minimal_size_of_empty_system_is_zero() {
    let mut gui = GuiSystem::new(JobSystem::new());
    assert_eq!(gui.get_minimal_size(), (0, 0));
    gui.set_root(Control::TextBox(TextBox::new(fixed(30, 12), "t".to_string(), fonts().1)));
    assert_eq!(gui.get_minimal_size(), (30, 12));
}

#[test]
fn default_size_counts_caption_and_line() {
    let (mut fonts, font) = fonts();
    let size = GuiSystem::default_size("abc", None, &font, &mut fonts);
    assert_eq!(size.0.absolute, 12 + 8);
    assert_eq!(size.1.absolute, 10);
    let with_hotkey = GuiSystem::default_size("abc", Some(Hotkey::new(Key::A)), &font, &mut fonts);
    // "[A]" is 12 wide, and half a line more
    assert_eq!(with_hotkey.0.absolute, 12 + 12 + 12);
}

#[test]
fn wide_strings_are_zero_terminated_utf16() {
    let mut m = WideStringManager::new();
    let a = m.from_str("Aж");
    let b = m.from_str("\u{1F600}");
    assert_eq!(a, 0);
    assert_eq!(b, 1);
    assert_eq!(m.get(0), &[0x41, 0x436, 0]);
    assert_eq!(m.get(1), &[0xD83D, 0xDE00, 0]);
}

#[test]
fn job_system_hands_out_jobs_in_order() {
    let mut jobs = JobSystem::new();
    assert!(jobs.is_empty());
    jobs.add_callback(Job::Button(1));
    jobs.add_callback(Job::Skip(2));
    let all = jobs.run_all();
    assert_eq!(all.len(), 2);
    assert!(matches!(all[0], Job::Button(1)));
    assert!(matches!(all[1], Job::Skip(2)));
    assert!(jobs.is_empty());
}

struct DotLoader;

impl FontLoader for DotLoader {
    fn load_glyphs(
        &mut self,
        _font_name: &str,
        _font_size: i32,
        code_from: u32,
        code_to: u32,
        _anti_aliasing_mode: FontAntiAliasingMode,
    ) -> Vec<(char, Glyph)> {
        let mut result = Vec::new();
        for code in code_from..code_to {
            if let Some(c) = char::from_u32(code) {
                let mut img = Image::<bool>::new((2, 2));
                img.set(0, 0, true);
                result.push((c, Glyph::NoAA(img)));
            }
        }
        result
    }
}

#[test]
fn font_draws_each_glyph_after_the_previous_one() {
    let mut fonts = FontFactory::new(DotLoader);
    let font = fonts
        .new_font("Dots", 2, FontAntiAliasingMode::NoAA)
        .color(0xFF)
        .layout_horizontal(TextLayoutHorizontal::LEFT)
        .layout_vertical(TextLayoutVertical::TOP);
    let mut view = Image::<u32>::new((6, 4)).view_mut();
    font.draw("ab", (1, 1), &mut view, &mut fonts);
    let img = view.into_image();
    for y in 0..4 {
        for x in 0..6 {
            let expected = if y == 1 && (x == 1 || x == 3) { 0xFF } else { 0 };
            assert_eq!(img.as_view().get(x, y), expected, "pixel {} {}", x, y);
        }
    }
    let mut view = Image::<u32>::new((6, 4)).view_mut();
    let centred = font.layout_horizontal(TextLayoutHorizontal::MIDDLE).layout_vertical(TextLayoutVertical::MIDDLE);
    centred.draw("ab", (3, 2), &mut view, &mut fonts);
    let img = view.into_image();
    assert_eq!(img.as_view().get(1, 1), 0xFF);
    assert_eq!(img.as_view().get(3, 1), 0xFF);
    assert_eq!(img.as_view().get(2, 1), 0);
}

#[test]
fn deactivation_clears_focus_and_pressed_flags() {
    let (fonts, font) = fonts();
    let mut gui = GuiSystem::new(JobSystem::new());
    let mut root = Container::new(fixed(100, 50), ContainerLayout::Vertical);
    root.add_child(Control::Button(Button::new(fixed(100, 20), "OK".to_string(), font)));
    gui.set_root(Control::Container(root));
    let mut ctx = DrawContext { buffer: Image::<u32>::new((100, 50)).view_mut(), font_factory: fonts };
    gui.on_draw(&mut ctx);
    let clip = TestClipboard(None);
    assert!(gui.on_mouse_down((5, 5), &mut ctx.font_factory, &clip));
    assert!(gui.on_deactivate(&mut ctx.font_factory, &clip));
    assert!(gui.focus.is_none());
    assert!(gui.pressed.is_none());
    assert!(gui.highlight.is_none());
    assert!(!gui.on_deactivate(&mut ctx.font_factory, &clip));
}
