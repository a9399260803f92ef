//! The menus of the editor: tabs of buttons for files, groups and transformations.

use vstd::prelude::*;
use crate::font::{Font, FontFactory, FontLine, FontLoader, font_glyphs, lines_grow, text_size};
use crate::gui::gui_components::{
    Button, ButtonCallback, Container, ContainerLayout, Control, EmptySpace, TabControl,
};
use crate::gui::system::GuiSystem;
use crate::gui::{SizeConstraint, SizeConstraints, new_base, tdiv};
use crate::gui_helper::create_default_size_button;
use crate::keys::{Hotkey, Key};
use crate::config::Config;
use crate::options_menu::{OptionsMenuIds, create_options_menu};

verus! {

/// Whether `c` is a button captioned `text`.
pub open spec fn is_button(c: Control, text: Seq<char>) -> bool {
    c matches Control::Button(b) && b.text@ == text
}

/// Whether `c` is a container with the given layout holding exactly buttons captioned, in
/// order, `captions`.
pub open spec fn is_button_row(c: Control, layout: ContainerLayout, captions: Seq<Seq<char>>) -> bool {
    &&& c matches Control::Container(k)
    &&& k.layout == layout
    &&& k.children@.len() == captions.len()
    &&& forall|i: int| 0 <= i < captions.len() ==> is_button(#[trigger] k.children@[i], captions[i])
}

/// `parent` after the call is `old` with one more tab, whose header button is captioned
/// `caption` and whose control is `c`.
pub open spec fn added_tab(old: TabControl, new: TabControl, caption: Seq<char>, r: usize) -> bool {
    &&& r == old.children@.len()
    &&& new.children@.len() == old.children@.len() + 1
    &&& new.children@.drop_last() == old.children@
    &&& new.header.container.children@.len() == old.header.container.children@.len() + 1
    &&& new.header.container.children@.drop_last() == old.header.container.children@
    &&& new.header.container.children@.last() matches Control::Button(b) && b.text@ == caption
    &&& new.header.buttons@ == old.header.buttons@.push(old.header.container.children@.len() as usize)
    &&& new.header.selected_index == old.header.selected_index
    &&& new.height == old.height
}

/// The height of a menu line in `font` with the glyphs of `lines`: the height of `8` plus 2,
/// wrapping as `i32` does.
pub open spec fn menu_line_height(lines: Seq<FontLine>, font: Font) -> i32 {
    ((text_size(font_glyphs(lines, font), "8"@).1 as i32) as i32).wrapping_add(2)
}

/// The height of a menu line: the height of `8` plus 2.
pub(crate) fn font_height<L: FontLoader>(font: &Font, fonts: &mut FontFactory<L>) -> (r: i32)
    requires
        old(fonts).wf(),
    ensures
        final(fonts).wf(),
        lines_grow(old(fonts).lines(), final(fonts).lines()),
        final(fonts).lines().len() == old(fonts).lines().len(),
        r == menu_line_height(final(fonts).lines(), *font),
{
    let h: i32 = #[verifier::truncate] (font.get_size("8", fonts).1 as i32);
    h.wrapping_add(2)
}

/// Adds the caption's button, a default-size button captioned `text`, to `row`.
fn add_button<L: FontLoader>(row: &mut Container, text: &str, font: Font, fonts: &mut FontFactory<L>)
    requires
        old(fonts).wf(),
    ensures
        final(fonts).wf(),
        lines_grow(old(fonts).lines(), final(fonts).lines()),
        final(fonts).lines().len() == old(fonts).lines().len(),
        final(row).children@ == old(row).children@.push(final(row).children@.last()),
        is_button(final(row).children@.last(), text@),
        final(row).layout == old(row).layout,
{
    let button = create_default_size_button(text, font, fonts);
    row.add_child(Control::Button(button));
}

/// The header button last added to the tabs `parent`, captioned `caption`, is as wide as
/// the caption (measured with the font lines `l2`) plus a menu line's height (measured with
/// `l1`), and as high as the tabs' header, `header_height`.
pub open spec fn tab_button_sized(
    parent: TabControl,
    header_height: i32,
    font: Font,
    l1: Seq<FontLine>,
    l2: Seq<FontLine>,
    caption: Seq<char>,
) -> bool {
    let width = (text_size(font_glyphs(l2, font), caption).0 as i32).wrapping_add(menu_line_height(l1, font));
    parent.header.container.children@.last() matches Control::Button(b) && b.base == new_base(
        SizeConstraints(
            SizeConstraint { absolute: width, relative: 0 },
            SizeConstraint { absolute: header_height, relative: 0 },
        ),
    )
}

/// The sizes of the "File" tab added to `parent` for the font lines `l1` (once a menu line
/// is measured) and `l2` (once the caption is): its header button is as wide as the caption
/// plus a line's height, and as high as the tabs' header; the menu stretches across; the
/// gap between its rows is a quarter of a line high; the new button asks for
/// `new_callback`.
pub open spec fn file_menu_sized(
    parent: TabControl,
    header_height: i32,
    font: Font,
    l1: Seq<FontLine>,
    l2: Seq<FontLine>,
    new_callback: ButtonCallback,
) -> bool {
    let height = menu_line_height(l1, font);
    let width = (text_size(font_glyphs(l2, font), "Файл"@).0 as i32).wrapping_add(height);
    &&& parent.header.container.children@.last() matches Control::Button(b) && b.base == new_base(
        SizeConstraints(
            SizeConstraint { absolute: width, relative: 0 },
            SizeConstraint { absolute: header_height, relative: 0 },
        ),
    )
    &&& parent.children@.last() matches Control::Container(menu) && {
        &&& menu.base == new_base(
            SizeConstraints(SizeConstraint { absolute: 0, relative: 100 }, SizeConstraint { absolute: 0, relative: 0 }),
        )
        &&& menu.children@.len() == 3
        &&& menu.children@[1] matches Control::EmptySpace(e) && e.base == new_base(
            SizeConstraints(
                SizeConstraint { absolute: 0, relative: 100 },
                SizeConstraint { absolute: tdiv(height as int, 4) as i32, relative: 0 },
            ),
        )
        &&& menu.children@[0] matches Control::Container(row) && (row.children@.len() > 0
            && (row.children@[0] matches Control::Button(nb) && nb.callback == Some(new_callback)))
    }
}

/// Adds the "File" tab: a row with new, open, save, save-as and close buttons (the new
/// button asks for `new_callback`), a gap, and a row with the DXF import and export
/// buttons. Gives the tab's index.
pub fn create_file_menu<L: FontLoader>(
    parent: &mut TabControl,
    font: &Font,
    fonts: &mut FontFactory<L>,
    new_callback: ButtonCallback,
) -> (r: usize)
    requires
        old(fonts).wf(),
    ensures
        final(fonts).wf(),
        lines_grow(old(fonts).lines(), final(fonts).lines()),
        final(fonts).lines().len() == old(fonts).lines().len(),
        added_tab(*old(parent), *final(parent), "Файл"@, r),
        final(parent).children@.last() matches Control::Container(menu) && menu.layout
            == ContainerLayout::Vertical && menu.children@.len() == 3 && is_button_row(
            menu.children@[0],
            ContainerLayout::Horizontal,
            seq!["Новый"@, "Открыть"@, "Сохранить"@, "Сохранить как"@, "Закрыть"@],
        ) && menu.children@[1] is EmptySpace && is_button_row(
            menu.children@[2],
            ContainerLayout::Horizontal,
            seq!["Импорт из *.dxf"@, "Экспорт в *.dxf"@, "Экспорт контуров в разные *.dxf"@],
        ),
        exists|l1: Seq<FontLine>, l2: Seq<FontLine>|
            #![trigger menu_line_height(l1, *font), font_glyphs(l2, *font)]
            lines_grow(old(fonts).lines(), l1) && lines_grow(l1, l2) && lines_grow(l2, final(fonts).lines())
                && file_menu_sized(*final(parent), old(parent).height, *font, l1, l2, new_callback),
{
    let height = font_height(font, fonts);
    let ghost l1 = fonts.lines();
    let caption = "Файл";
    let width: i32 = (#[verifier::truncate] (font.get_size(caption, fonts).0 as i32)).wrapping_add(height);
    let ghost l2 = fonts.lines();
    proof {
        reveal_strlit("Файл");
    }
    let mut menu = Container::new(
        SizeConstraints(SizeConstraint::flexible(0), SizeConstraint::fixed(0)),
        ContainerLayout::Vertical,
    );
    let mut default_panel = Container::new(
        SizeConstraints(SizeConstraint::flexible(0), SizeConstraint::fixed(0)),
        ContainerLayout::Horizontal,
    );
    let size = Button::default_size("Новый", None, font, fonts);
    let new_button = Button::new(size, "Новый".to_owned(), *font).callback(new_callback);
    default_panel.add_child(Control::Button(new_button));
    add_button(&mut default_panel, "Открыть", *font, fonts);
    add_button(&mut default_panel, "Сохранить", *font, fonts);
    add_button(&mut default_panel, "Сохранить как", *font, fonts);
    add_button(&mut default_panel, "Закрыть", *font, fonts);
    let ghost dp = default_panel;
    assert(is_button_row(
        Control::Container(dp),
        ContainerLayout::Horizontal,
        seq!["Новый"@, "Открыть"@, "Сохранить"@, "Сохранить как"@, "Закрыть"@],
    )) by {
        assert(dp.children@.len() == 5);
        assert(is_button(dp.children@[0], "Новый"@));
        assert(is_button(dp.children@[1], "Открыть"@));
        assert(is_button(dp.children@[2], "Сохранить"@));
        assert(is_button(dp.children@[3], "Сохранить как"@));
        assert(is_button(dp.children@[4], "Закрыть"@));
    }
    menu.add_child(Control::Container(default_panel));
    menu.add_child(
        Control::EmptySpace(
            EmptySpace::new(
                SizeConstraints(SizeConstraint::flexible(0), SizeConstraint::fixed(height / 4)),
            ),
        ),
    );
    let mut dxf_panel = Container::new(
        SizeConstraints(SizeConstraint::flexible(0), SizeConstraint::fixed(0)),
        ContainerLayout::Horizontal,
    );
    add_button(&mut dxf_panel, "Импорт из *.dxf", *font, fonts);
    add_button(&mut dxf_panel, "Экспорт в *.dxf", *font, fonts);
    add_button(&mut dxf_panel, "Экспорт контуров в разные *.dxf", *font, fonts);
    let ghost xp = dxf_panel;
    assert(is_button_row(
        Control::Container(xp),
        ContainerLayout::Horizontal,
        seq!["Импорт из *.dxf"@, "Экспорт в *.dxf"@, "Экспорт контуров в разные *.dxf"@],
    )) by {
        assert(xp.children@.len() == 3);
    }
    menu.add_child(Control::Container(dxf_panel));
    let r = parent.add_tab(caption.to_owned(), width, Control::Container(menu));
    assert(parent.children@.drop_last() =~= old(parent).children@);
    assert(file_menu_sized(*parent, old(parent).height, *font, l1, l2, new_callback));
    r
}

/// Adds the "Groups" tab: a row with the join, break, add and remove buttons. Gives the
/// tab's index.
pub fn create_group_menu<L: FontLoader>(parent: &mut TabControl, font: &Font, fonts: &mut FontFactory<L>) -> (r: usize)
    requires
        old(fonts).wf(),
    ensures
        final(fonts).wf(),
        lines_grow(old(fonts).lines(), final(fonts).lines()),
        final(fonts).lines().len() == old(fonts).lines().len(),
        added_tab(*old(parent), *final(parent), "Группы"@, r),
        is_button_row(
            final(parent).children@.last(),
            ContainerLayout::Horizontal,
            seq!["Объединить"@, "Разрушить"@, "Добавить"@, "Исключить"@],
        ),
{
    let height = font_height(font, fonts);
    let caption = "Группы";
    let width = GuiSystem::default_size(caption, None, font, fonts).0.absolute;
    let mut menu = Container::new(
        SizeConstraints(SizeConstraint::flexible(0), SizeConstraint::fixed(height)),
        ContainerLayout::Horizontal,
    );
    add_button(&mut menu, "Объединить", *font, fonts);
    add_button(&mut menu, "Разрушить", *font, fonts);
    add_button(&mut menu, "Добавить", *font, fonts);
    add_button(&mut menu, "Исключить", *font, fonts);
    let ghost m = menu;
    assert(m.children@.len() == 4);
    let r = parent.add_tab(caption.to_owned(), width, Control::Container(menu));
    assert(parent.children@.drop_last() =~= old(parent).children@);
    r
}

/// Adds the "Transform" tab: a row with the shift, copy, rotate and circular array
/// buttons. Gives the tab's index.
pub fn create_transform_menu<L: FontLoader>(parent: &mut TabControl, font: &Font, fonts: &mut FontFactory<L>) -> (r: usize)
    requires
        old(fonts).wf(),
    ensures
        final(fonts).wf(),
        lines_grow(old(fonts).lines(), final(fonts).lines()),
        final(fonts).lines().len() == old(fonts).lines().len(),
        added_tab(*old(parent), *final(parent), "Преобразовать"@, r),
        is_button_row(
            final(parent).children@.last(),
            ContainerLayout::Horizontal,
            seq!["Сдвиг"@, "Копия"@, "Поворот"@, "Круговой массив"@],
        ),
{
    let height = font_height(font, fonts);
    let caption = "Преобразовать";
    let width: i32 = (#[verifier::truncate] (font.get_size(caption, fonts).0 as i32)).wrapping_add(height);
    let mut menu = Container::new(
        SizeConstraints(SizeConstraint::flexible(0), SizeConstraint::fixed(height)),
        ContainerLayout::Horizontal,
    );
    add_button(&mut menu, "Сдвиг", *font, fonts);
    add_button(&mut menu, "Копия", *font, fonts);
    add_button(&mut menu, "Поворот", *font, fonts);
    add_button(&mut menu, "Круговой массив", *font, fonts);
    let ghost m = menu;
    assert(m.children@.len() == 4);
    let r = parent.add_tab(caption.to_owned(), width, Control::Container(menu));
    assert(parent.children@.drop_last() =~= old(parent).children@);
    r
}

/// Whether `c` is a button captioned `text` with the hot-key `hotkey` (global or not) and
/// the callback `callback`.
pub open spec fn is_hotkey_button(
    c: Control,
    text: Seq<char>,
    hotkey: Hotkey,
    global: bool,
    callback: Option<ButtonCallback>,
) -> bool {
    match c {
        Control::Button(b) => {
            &&& b.text@ == text
            &&& b.hotkey == Some(hotkey)
            &&& b.hotkey_is_global == global
            &&& b.callback == callback
        },
        _ => false,
    }
}

/// A button captioned `text` with the hot-key `hotkey`, global or not, as large as
/// `Button::default_size` says for the caption and the hot-key.
fn hotkey_button<L: FontLoader>(
    text: &str,
    hotkey: Hotkey,
    global: bool,
    font: &Font,
    fonts: &mut FontFactory<L>,
) -> (r: Button)
    requires
        old(fonts).wf(),
    ensures
        final(fonts).wf(),
        lines_grow(old(fonts).lines(), final(fonts).lines()),
        final(fonts).lines().len() == old(fonts).lines().len(),
        is_hotkey_button(Control::Button(r), text@, hotkey, global, None),
{
    let size = Button::default_size(text, Some(hotkey), font, fonts);
    Button::new(size, text.to_owned(), *font).hotkey(hotkey, global)
}

/// Adds the "Draw" tab: the line (hot-key L), circle, arc and extend buttons, and the reset
/// button (hot-key Escape) asking for `skip_callback`. Gives the tab's index.
pub fn create_draw_menu<L: FontLoader>(
    parent: &mut TabControl,
    font: &Font,
    fonts: &mut FontFactory<L>,
    skip_callback: ButtonCallback,
) -> (r: usize)
    requires
        old(fonts).wf(),
    ensures
        final(fonts).wf(),
        lines_grow(old(fonts).lines(), final(fonts).lines()),
        final(fonts).lines().len() == old(fonts).lines().len(),
        added_tab(*old(parent), *final(parent), "Рисовать"@, r),
        final(parent).children@.last() matches Control::Container(menu) && draw_menu_shape(menu, skip_callback),
{
    let height = font_height(font, fonts);
    let caption = "Рисовать";
    let width = GuiSystem::default_size(caption, None, font, fonts).0.absolute;
    let mut menu = Container::new(
        SizeConstraints(SizeConstraint::flexible(0), SizeConstraint::fixed(height)),
        ContainerLayout::Horizontal,
    );
    let b = hotkey_button("Отрезок", Hotkey::new(Key::L), true, font, fonts);
    menu.add_child(Control::Button(b));
    add_button(&mut menu, "Окружность", *font, fonts);
    add_button(&mut menu, "Дуга", *font, fonts);
    add_button(&mut menu, "Нарастить/укоротить", *font, fonts);
    let b = hotkey_button("Сброс", Hotkey::new(Key::Escape), true, font, fonts).callback(skip_callback);
    menu.add_child(Control::Button(b));
    let ghost m = menu;
    assert(m.children@.len() == 5);
    let r = parent.add_tab(caption.to_owned(), width, Control::Container(menu));
    assert(parent.children@.drop_last() =~= old(parent).children@);
    r
}

/// Whether `menu` is the draw menu: the line button with the global hot-key L, the circle,
/// arc and extend buttons, and the reset button with the global hot-key Escape asking for
/// `skip_callback`.
pub open spec fn draw_menu_shape(menu: Container, skip_callback: ButtonCallback) -> bool {
    &&& menu.layout == ContainerLayout::Horizontal
    &&& menu.children@.len() == 5
    &&& is_hotkey_button(
        menu.children@[0],
        "Отрезок"@,
        Hotkey { key: Key::L, ctrl: false, alt: false, shift: false },
        true,
        None,
    )
    &&& is_button(menu.children@[1], "Окружность"@)
    &&& is_button(menu.children@[2], "Дуга"@)
    &&& is_button(menu.children@[3], "Нарастить/укоротить"@)
    &&& is_hotkey_button(
        menu.children@[4],
        "Сброс"@,
        Hotkey { key: Key::Escape, ctrl: false, alt: false, shift: false },
        true,
        Some(skip_callback),
    )
}

/// The callbacks of the edit menu.
#[derive(PartialEq, Eq, Structural, Copy, Clone, Debug)]
pub struct EditMenuIds {
    pub remove: usize,
    pub undo: usize,
    pub redo: usize,
}

/// Whether `c` is a vertical column of buttons.
pub open spec fn is_column(c: Control, len: int) -> bool {
    c matches Control::Container(k) && k.layout == ContainerLayout::Vertical && k.children@.len() == len
}

/// The button at `i` of the column `c`.
pub open spec fn column_at(c: Control, i: int) -> Control {
    match c {
        Control::Container(k) => k.children@[i],
        _ => c,
    }
}

/// Whether `menu` is the edit menu: a column with the delete (Delete, asking for
/// `ids.remove`), cut (Ctrl+X), copy (Ctrl+C) and paste (Ctrl+V) buttons, and a column with
/// the undo (Ctrl+Z, asking for `ids.undo`) and redo (Ctrl+Y, asking for `ids.redo`)
/// buttons; all hot-keys are global.
pub open spec fn edit_menu_shape(menu: Container, ids: EditMenuIds) -> bool {
    let d = menu.children@[0];
    let t = menu.children@[1];
    &&& menu.layout == ContainerLayout::Horizontal
    &&& menu.children@.len() == 2
    &&& is_column(d, 4)
    &&& is_hotkey_button(
        column_at(d, 0),
        "Удалить"@,
        Hotkey { key: Key::Delete, ctrl: false, alt: false, shift: false },
        true,
        Some(ButtonCallback(ids.remove)),
    )
    &&& is_hotkey_button(
        column_at(d, 1),
        "Вырезать"@,
        Hotkey { key: Key::X, ctrl: true, alt: false, shift: false },
        true,
        None,
    )
    &&& is_hotkey_button(
        column_at(d, 2),
        "Копировать"@,
        Hotkey { key: Key::C, ctrl: true, alt: false, shift: false },
        true,
        None,
    )
    &&& is_hotkey_button(
        column_at(d, 3),
        "Вставить"@,
        Hotkey { key: Key::V, ctrl: true, alt: false, shift: false },
        true,
        None,
    )
    &&& is_column(t, 2)
    &&& is_hotkey_button(
        column_at(t, 0),
        "Отменить правку"@,
        Hotkey { key: Key::Z, ctrl: true, alt: false, shift: false },
        true,
        Some(ButtonCallback(ids.undo)),
    )
    &&& is_hotkey_button(
        column_at(t, 1),
        "Вернуть правку"@,
        Hotkey { key: Key::Y, ctrl: true, alt: false, shift: false },
        true,
        Some(ButtonCallback(ids.redo)),
    )
}

/// Adds the "Edit" tab: the delete, cut, copy and paste buttons, and the undo and redo
/// buttons, as `edit_menu_shape` says. Gives the tab's index.
pub fn create_edit_menu<L: FontLoader>(
    parent: &mut TabControl,
    font: &Font,
    fonts: &mut FontFactory<L>,
    ids: &EditMenuIds,
) -> (r: usize)
    requires
        old(fonts).wf(),
    ensures
        final(fonts).wf(),
        lines_grow(old(fonts).lines(), final(fonts).lines()),
        final(fonts).lines().len() == old(fonts).lines().len(),
        added_tab(*old(parent), *final(parent), "Правка"@, r),
        final(parent).children@.last() matches Control::Container(menu) && edit_menu_shape(menu, *ids),
{
    let caption = "Правка";
    let width = GuiSystem::default_size(caption, None, font, fonts).0.absolute;
    let mut menu = Container::new(
        SizeConstraints(SizeConstraint::fixed(0), SizeConstraint::fixed(0)),
        ContainerLayout::Horizontal,
    );
    let mut default_panel = Container::new(
        SizeConstraints(SizeConstraint::fixed(0), SizeConstraint::fixed(0)),
        ContainerLayout::Vertical,
    );
    let b = hotkey_button("Удалить", Hotkey::new(Key::Delete), true, font, fonts).callback(
        ButtonCallback(ids.remove),
    );
    default_panel.add_child(Control::Button(b));
    let b = hotkey_button("Вырезать", Hotkey::ctrl(Key::X), true, font, fonts);
    default_panel.add_child(Control::Button(b));
    let b = hotkey_button("Копировать", Hotkey::ctrl(Key::C), true, font, fonts);
    default_panel.add_child(Control::Button(b));
    let b = hotkey_button("Вставить", Hotkey::ctrl(Key::V), true, font, fonts);
    default_panel.add_child(Control::Button(b));
    let ghost dp = default_panel;
    assert(dp.children@.len() == 4);
    menu.add_child(Control::Container(default_panel));
    let mut time_machine_panel = Container::new(
        SizeConstraints(SizeConstraint::flexible(0), SizeConstraint::fixed(0)),
        ContainerLayout::Vertical,
    );
    let b = hotkey_button("Отменить правку", Hotkey::ctrl(Key::Z), true, font, fonts).callback(
        ButtonCallback(ids.undo),
    );
    time_machine_panel.add_child(Control::Button(b));
    let b = hotkey_button("Вернуть правку", Hotkey::ctrl(Key::Y), true, font, fonts).callback(
        ButtonCallback(ids.redo),
    );
    time_machine_panel.add_child(Control::Button(b));
    let ghost tp = time_machine_panel;
    assert(tp.children@.len() == 2);
    menu.add_child(Control::Container(time_machine_panel));
    let ghost m = menu;
    assert(edit_menu_shape(m, *ids));
    let r = parent.add_tab(caption.to_owned(), width, Control::Container(menu));
    assert(parent.children@.drop_last() =~= old(parent).children@);
    r
}

/// The callbacks of the tabs of the top panel.
#[derive(PartialEq, Eq, Structural, Copy, Clone, Debug)]
pub struct TopPanelIds {
    /// The "New" button of the file menu.
    pub new_file: usize,
    /// The reset button of the draw menu.
    pub skip: usize,
    /// The callbacks of the options menu.
    pub options: OptionsMenuIds,
}

/// The captions of the tabs of the top panel, in order.
pub open spec fn top_panel_captions() -> Seq<Seq<char>> {
    seq!["Файл"@, "Рисовать"@, "Группы"@, "Преобразовать"@, "Опции"@]
}

/// The top panel: tabs as high as a digit plus 2 pixels holding, in order, the file, draw,
/// group, transform and options menus, with the tab at `top_panel_index` selected. `None`
/// where the font is so tall that the height of the tab headers does not fit in `i32`.
pub fn create_top_panel<L: FontLoader>(
    font: &Font,
    fonts: &mut FontFactory<L>,
    config: &Config,
    ids: &TopPanelIds,
    top_panel_index: usize,
) -> (r: Option<TabControl>)
    requires
        old(fonts).wf(),
    ensures
        final(fonts).wf(),
        lines_grow(old(fonts).lines(), final(fonts).lines()),
        final(fonts).lines().len() == old(fonts).lines().len(),
        r is None ==> exists|l: Seq<FontLine>|
            lines_grow(old(fonts).lines(), l) && lines_grow(l, final(fonts).lines()) && menu_line_height(l, *font)
                == i32::MAX,
        r matches Some(t) ==> {
            &&& t.height < i32::MAX
            &&& exists|l: Seq<FontLine>|
                lines_grow(old(fonts).lines(), l) && lines_grow(l, final(fonts).lines()) && menu_line_height(
                    l,
                    *font,
                ) == t.height
            &&& t.children@.len() == 5
            &&& t.header.buttons@.len() == 5
            &&& t.header.selected_index == top_panel_index
            &&& forall|i: int|
                0 <= i < 5 ==> #[trigger] t.header.buttons@[i] == i && (
                t.header.container.children@[i] matches Control::Button(b) && b.text@
                    == top_panel_captions()[i])
            &&& t.children@[1] matches Control::Container(menu) && draw_menu_shape(menu, ButtonCallback(ids.skip))
            &&& t.children@[4] matches Control::Container(menu) && crate::options_menu::options_menu_shape(
                menu,
                *config,
                ids.options,
            )
        },
{
    let height = font_height(font, fonts);
    let ghost l_height = fonts.lines();
    if height == i32::MAX {
        return None;
    }
    let mut tabs = TabControl::new(height, *font);
    let _ = create_file_menu(&mut tabs, font, fonts, ButtonCallback(ids.new_file));
    let ghost t0 = tabs;
    let _ = create_draw_menu(&mut tabs, font, fonts, ButtonCallback(ids.skip));
    let ghost t1 = tabs;
    let _ = create_group_menu(&mut tabs, font, fonts);
    let ghost t2 = tabs;
    let _ = create_transform_menu(&mut tabs, font, fonts);
    let ghost t3 = tabs;
    let _ = create_options_menu(&mut tabs, font, fonts, config, &ids.options);
    let ghost t4 = tabs;
    proof {
        crate::options_menu::lemma_select_keeps(
            t4.header.container.children@,
            t4.header.buttons@,
            t4.header.selected_index as int,
            top_panel_index as int,
        );
        assert(t4.children@[1] == t1.children@[1]) by {
            assert(t4.children@.drop_last()[1] == t3.children@[1]);
            assert(t3.children@.drop_last()[1] == t2.children@[1]);
            assert(t2.children@.drop_last()[1] == t1.children@[1]);
        }
        assert(t4.header.container.children@[0] == t0.header.container.children@[0]) by {
            assert(t4.header.container.children@.drop_last()[0] == t3.header.container.children@[0]);
            assert(t3.header.container.children@.drop_last()[0] == t2.header.container.children@[0]);
            assert(t2.header.container.children@.drop_last()[0] == t1.header.container.children@[0]);
            assert(t1.header.container.children@.drop_last()[0] == t0.header.container.children@[0]);
        }
        assert(t4.header.container.children@[1] == t1.header.container.children@[1]) by {
            assert(t4.header.container.children@.drop_last()[1] == t3.header.container.children@[1]);
            assert(t3.header.container.children@.drop_last()[1] == t2.header.container.children@[1]);
            assert(t2.header.container.children@.drop_last()[1] == t1.header.container.children@[1]);
        }
        assert(t4.header.container.children@[2] == t2.header.container.children@[2]) by {
            assert(t4.header.container.children@.drop_last()[2] == t3.header.container.children@[2]);
            assert(t3.header.container.children@.drop_last()[2] == t2.header.container.children@[2]);
        }
        assert(t4.header.container.children@[3] == t3.header.container.children@[3]) by {
            assert(t4.header.container.children@.drop_last()[3] == t3.header.container.children@[3]);
        }
        assert(t4.header.buttons@ =~= seq![0usize, 1, 2, 3, 4]);
    }
    let _ = tabs.select_tab(top_panel_index);
    proof {
        assert forall|i: int| 0 <= i < 5 implies #[trigger] tabs.header.buttons@[i] == i && (
        tabs.header.container.children@[i] matches Control::Button(b) && b.text@ == top_panel_captions()[i]) by {
            assert(crate::options_menu::same_but_check(
                t4.header.container.children@[i],
                tabs.header.container.children@[i],
            ));
        }
    }
    Some(tabs)
}

} // verus!
