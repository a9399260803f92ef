//! Controls made at the size their caption needs.

use vstd::prelude::*;
use crate::font::{Font, FontFactory, FontLoader, TextLayoutHorizontal, TextLayoutVertical, font_glyphs, lines_grow, text_size};
use crate::gui::edit::{Edit, edit_capacity};
use crate::gui::gui_components::{Button, ButtonCheckState, TextBox};
use crate::gui::system::{GuiSystem, default_size_spec};
use crate::gui::{SizeConstraint, SizeConstraints, new_base};
use crate::keys::Hotkey;

verus! {

/// A button captioned `text`, as large as `Button::default_size` says.
pub fn create_default_size_button<L: FontLoader>(text: &str, font: Font, fonts: &mut FontFactory<L>) -> (r: Button)
    requires
        old(fonts).wf(),
    ensures
        final(fonts).wf(),
        lines_grow(old(fonts).lines(), final(fonts).lines()),
        final(fonts).lines().len() == old(fonts).lines().len(),
        r.base == new_base(default_size_spec(text@, None, font_glyphs(final(fonts).lines(), font))),
        r.text@ == text@,
        r.hotkey is None,
        r.callback is None,
        r.check_state == ButtonCheckState::NoCheck,
        r.font == (Font {
            layout_vertical: TextLayoutVertical::MIDDLE,
            layout_horizontal: TextLayoutHorizontal::LEFT,
            ..font
        }),
{
    let size = Button::default_size(text, None, &font, fonts);
    Button::new(size, text.to_owned(), font)
}

/// A button captioned `text`, as large as `Button::default_checkbox_size` says.
pub fn create_default_size_check_button<L: FontLoader>(text: &str, font: Font, fonts: &mut FontFactory<L>) -> (r: Button)
    requires
        old(fonts).wf(),
    ensures
        final(fonts).wf(),
        lines_grow(old(fonts).lines(), final(fonts).lines()),
        final(fonts).lines().len() == old(fonts).lines().len(),
        ({
            let glyphs = font_glyphs(final(fonts).lines(), font);
            let d = default_size_spec(text@, None, glyphs);
            r.base == new_base(
                SizeConstraints(
                    SizeConstraint {
                        absolute: d.0.absolute.wrapping_add(text_size(glyphs, "V"@).0 as i32),
                        ..d.0
                    },
                    d.1,
                ),
            )
        }),
        r.text@ == text@,
        r.hotkey is None,
        r.callback is None,
        r.check_state == ButtonCheckState::NoCheck,
{
    let size = Button::default_checkbox_size(text, None, &font, fonts);
    Button::new(size, text.to_owned(), font)
}

/// A button captioned `text` with the hot-key `hotkey` (global or not), as large as
/// `Button::default_checkbox_size` says.
pub fn create_default_size_check_button_with_hotkey<L: FontLoader>(
    text: &str,
    hotkey: Hotkey,
    global: bool,
    font: Font,
    fonts: &mut FontFactory<L>,
) -> (r: Button)
    requires
        old(fonts).wf(),
    ensures
        final(fonts).wf(),
        lines_grow(old(fonts).lines(), final(fonts).lines()),
        final(fonts).lines().len() == old(fonts).lines().len(),
        ({
            let glyphs = font_glyphs(final(fonts).lines(), font);
            let d = default_size_spec(text@, Some(hotkey), glyphs);
            r.base == new_base(
                SizeConstraints(
                    SizeConstraint {
                        absolute: d.0.absolute.wrapping_add(text_size(glyphs, "V"@).0 as i32),
                        ..d.0
                    },
                    d.1,
                ),
            )
        }),
        r.text@ == text@,
        r.hotkey == Some(hotkey),
        r.hotkey_is_global == global,
        r.callback is None,
        r.check_state == ButtonCheckState::NoCheck,
{
    let size = Button::default_checkbox_size(text, Some(hotkey), &font, fonts);
    Button::new(size, text.to_owned(), font).hotkey(hotkey, global)
}

/// An edit holding `text`, as large as `GuiSystem::default_size` says for it.
pub fn create_default_size_edit<L: FontLoader>(text: &str, font: Font, fonts: &mut FontFactory<L>) -> (r: Edit)
    requires
        old(fonts).wf(),
        text@.len() <= edit_capacity(),
    ensures
        final(fonts).wf(),
        lines_grow(old(fonts).lines(), final(fonts).lines()),
        final(fonts).lines().len() == old(fonts).lines().len(),
        r.spec_text() == text@,
        r.spec_cursor() == 0,
        r.spec_scroll() == 0,
        r.spec_skip_callback() is None,
        r.spec_enter_callback() is None,
        r.spec_font() == (Font {
            layout_vertical: TextLayoutVertical::MIDDLE,
            layout_horizontal: TextLayoutHorizontal::LEFT,
            ..font
        }),
{
    let size = GuiSystem::default_size(text, None, &font, fonts);
    Edit::new(size, font).text(text, fonts)
}

/// A text box showing `text`, as large as `GuiSystem::default_size` says for it.
pub fn create_default_size_text_box<L: FontLoader>(text: &str, font: Font, fonts: &mut FontFactory<L>) -> (r: TextBox)
    requires
        old(fonts).wf(),
    ensures
        final(fonts).wf(),
        lines_grow(old(fonts).lines(), final(fonts).lines()),
        final(fonts).lines().len() == old(fonts).lines().len(),
        r.base == new_base(default_size_spec(text@, None, font_glyphs(final(fonts).lines(), font))),
        r.text@ == text@,
        r.padding,
{
    let size = GuiSystem::default_size(text, None, &font, fonts);
    TextBox::new(size, text.to_owned(), font)
}

} // verus!
