//! The controls: containers that lay their children out, colour boxes, empty space, buttons
//! and check boxes, text boxes, edits, vertical scroll bars, list boxes, radio groups and tab
//! controls, and the `Control` that is any one of them.

use vstd::prelude::*;
use crate::font::{Font, FontFactory, FontLine, FontLoader, TextLayoutHorizontal, TextLayoutVertical, lines_grow, text_size, font_glyphs, text_drawn, spec_color_is_light};
use crate::gui::{
    GuiControlBase, GuiColorTheme, GuiMessage, HotkeyCallback, MessageOutput, Rect,
    SizeConstraint, SizeConstraints, new_base, rect_contains, tdiv, sat_i32, out_same,
    div_trunc, saturate_i32, div_trunc_wide, draw_text_in, text_in_pixel, text_drawn_in, filled_with,
};
use crate::image::{ImageSize, fits, ImageViewMut, PixelOp, Position, SetPixel, same_outside, lemma_same_outside_trans, in_size};
use crate::color::{WhitenHalf, BlackenEighth};
use crate::job_system::Job;
use crate::keys::{Hotkey, spec_hotkey_text};
use crate::gui::edit::Edit;
use crate::gui::system::default_size_spec;
use crate::gui::scroll::{ScrollV, ScrollState, scroll_message_post};

verus! {

/// Whether a container puts its children under or beside one another.
#[derive(PartialEq, Eq, Structural, Copy, Clone)]
pub enum ContainerLayout {
    Vertical,
    Horizontal,
}

/// A control that lays its children out one after the other.
pub struct Container {
    pub base: GuiControlBase,
    pub layout: ContainerLayout,
    pub children: Vec<Control>,
    pub support_compression: bool,
}

/// A control that fills its rectangle with the theme's splitter colour.
pub struct ColorBox {
    pub base: GuiControlBase,
}

/// A control that fills its rectangle with the theme's background colour.
pub struct EmptySpace {
    pub base: GuiControlBase,
}

/// The callback of a button: the identifier that the job it asks for carries.
#[derive(PartialEq, Eq, Structural, Copy, Clone)]
pub struct ButtonCallback(pub usize);

/// Whether a button shows a check mark, and whether it is checked.
#[derive(PartialEq, Eq, Structural, Copy, Clone)]
pub enum ButtonCheckState {
    NoCheck,
    CheckBox(bool),
    RadioButton(bool),
    GroupButton(bool),
}

/// A button with a caption, an optional hot-key, and optionally a check mark.
pub struct Button {
    pub base: GuiControlBase,
    pub holded_when_pushed: bool,
    pub font: Font,
    pub text: String,
    pub hotkey: Option<Hotkey>,
    pub hotkey_is_global: bool,
    pub callback: Option<ButtonCallback>,
    /// The callback wants to be told whether the check box is checked.
    pub callback_with_check: bool,
    pub check_state: ButtonCheckState,
}

/// A box with a caption that is checked and unchecked by clicks.
pub struct CheckBox {
    pub base: GuiControlBase,
    pub holded_when_pushed: bool,
    pub font: Font,
    pub text: String,
    pub checked: bool,
}

/// A line of text.
pub struct TextBox {
    pub base: GuiControlBase,
    pub padding: bool,
    pub font: Font,
    pub text: String,
}

/// A list of lines of text with a scroll bar.
pub struct ListBox {
    pub base: GuiControlBase,
    pub scroll_width: i32,
    pub scroll: ScrollV,
    pub font: Font,
    pub lines: Vec<String>,
}

/// The callback a radio group asks for, with the new index, when the selection changes.
#[derive(PartialEq, Eq, Structural, Copy, Clone)]
pub struct RadioGroupCallback(pub usize);

/// Buttons of which exactly one is selected, in a container, maybe after a caption.
pub struct RadioGroup {
    pub container: Container,
    /// The indices, among the container's children, of the buttons, in order.
    pub buttons: Vec<usize>,
    pub selected_index: usize,
    pub callback: Option<RadioGroupCallback>,
}

/// Tabs: a header of buttons, and under it the control of the selected tab.
pub struct TabControl {
    pub base: GuiControlBase,
    pub height: i32,
    pub header: RadioGroup,
    pub children: Vec<Control>,
    pub font: Font,
}

/// Any control.
pub enum Control {
    Container(Container),
    ColorBox(ColorBox),
    EmptySpace(EmptySpace),
    Button(Button),
    CheckBox(CheckBox),
    TextBox(TextBox),
    Edit(Edit),
    ScrollV(ScrollV),
    ListBox(ListBox),
    RadioGroup(RadioGroup),
    TabControl(TabControl),
}

/// The state every control has, of any control.
pub open spec fn base_of(c: Control) -> GuiControlBase {
    match c {
        Control::Container(x) => x.base,
        Control::ColorBox(x) => x.base,
        Control::EmptySpace(x) => x.base,
        Control::Button(x) => x.base,
        Control::CheckBox(x) => x.base,
        Control::TextBox(x) => x.base,
        Control::Edit(x) => x.spec_base(),
        Control::ScrollV(x) => x.base,
        Control::ListBox(x) => x.base,
        Control::RadioGroup(x) => x.container.base,
        Control::TabControl(x) => x.base,
    }
}

/// `c` with its shared state replaced by `base`.
pub open spec fn with_base(c: Control, base: GuiControlBase) -> Control {
    match c {
        Control::Container(x) => Control::Container(Container { base, ..x }),
        Control::ColorBox(x) => Control::ColorBox(ColorBox { base, ..x }),
        Control::EmptySpace(x) => Control::EmptySpace(EmptySpace { base, ..x }),
        Control::Button(x) => Control::Button(Button { base, ..x }),
        Control::CheckBox(x) => Control::CheckBox(CheckBox { base, ..x }),
        Control::TextBox(x) => Control::TextBox(TextBox { base, ..x }),
        Control::Edit(x) => Control::Edit(x.spec_with_base(base)),
        Control::ScrollV(x) => Control::ScrollV(ScrollV { base, ..x }),
        Control::ListBox(x) => Control::ListBox(ListBox { base, ..x }),
        Control::RadioGroup(x) => Control::RadioGroup(
            RadioGroup { container: Container { base, ..x.container }, ..x },
        ),
        Control::TabControl(x) => Control::TabControl(TabControl { base, ..x }),
    }
}

/// Replacing the shared state of a control is seen, changes no child, and replacing it by
/// the state it has changes nothing.
pub proof fn lemma_base_of_with_base(c: Control, base: GuiControlBase)
    ensures
        base_of(with_base(c, base)) == base,
        child_count(with_base(c, base)) == child_count(c),
        with_base(c, base_of(c)) == c,
{
    if let Control::Edit(x) = c {
        x.lemma_with_base(base);
    }
}

/// How many children the control has that input can be routed to: the children of a
/// container or of a radio group's container; for a tab control the header, then its tabs.
pub open spec fn child_count(c: Control) -> nat {
    match c {
        Control::Container(x) => x.children@.len(),
        Control::RadioGroup(x) => x.container.children@.len(),
        Control::TabControl(x) => x.children@.len() + 1,
        _ => 0,
    }
}

/// The child number `i` of the control.
pub open spec fn child_of(c: Control, i: int) -> Control
    recommends
        0 <= i < child_count(c),
{
    match c {
        Control::Container(x) => x.children@[i],
        Control::RadioGroup(x) => x.container.children@[i],
        Control::TabControl(x) => if i == 0 {
            Control::RadioGroup(x.header)
        } else {
            x.children@[i - 1]
        },
        _ => c,
    }
}

impl Container {
    /// A container with no child, laying its children out as `layout` says.
    pub fn new(size_constraints: SizeConstraints, layout: ContainerLayout) -> (r: Self)
        ensures
            r.base == new_base(size_constraints),
            r.layout == layout,
            r.children@.len() == 0,
            !r.support_compression,
    {
        Self {
            base: GuiControlBase::new(size_constraints),
            layout,
            children: Vec::new(),
            support_compression: false,
        }
    }

    /// The same container, which then keeps its own size constraints whatever its children
    /// need.
    pub fn compressed(self) -> (r: Self)
        ensures
            r == (Container { support_compression: true, ..self }),
    {
        let mut result = self;
        result.support_compression = true;
        result
    }

    /// The number of children.
    pub fn child_count(&self) -> (r: usize)
        ensures
            r == self.children@.len(),
    {
        self.children.len()
    }

    /// Removes the child number `index`, and gives it back.
    pub fn delete_child(&mut self, index: usize) -> (r: Control)
        requires
            index < old(self).children@.len(),
        ensures
            r == old(self).children@[index as int],
            final(self).children@ == old(self).children@.remove(index as int),
            final(self).base == old(self).base,
            final(self).layout == old(self).layout,
            final(self).support_compression == old(self).support_compression,
    {
        self.children.remove(index)
    }
}

impl ColorBox {
    /// A colour box.
    pub fn new(size_constraints: SizeConstraints) -> (r: Self)
        ensures
            r.base == new_base(size_constraints),
    {
        Self { base: GuiControlBase::new(size_constraints) }
    }
}

impl EmptySpace {
    /// Empty space.
    pub fn new(size_constraints: SizeConstraints) -> (r: Self)
        ensures
            r.base == new_base(size_constraints),
    {
        Self { base: GuiControlBase::new(size_constraints) }
    }
}

/// Whether a button in the given state shows a check mark.
pub open spec fn spec_has_checks(state: ButtonCheckState) -> bool {
    match state {
        ButtonCheckState::NoCheck => false,
        ButtonCheckState::CheckBox(_) => true,
        ButtonCheckState::RadioButton(_) => true,
        ButtonCheckState::GroupButton(_) => false,
    }
}

/// Whether a button in the given state is checked.
pub open spec fn spec_checked(state: ButtonCheckState) -> bool {
    match state {
        ButtonCheckState::NoCheck => false,
        ButtonCheckState::CheckBox(c) => c,
        ButtonCheckState::RadioButton(c) => c,
        ButtonCheckState::GroupButton(c) => c,
    }
}

/// The state with its check set to `checked`; a button without a check stays without one.
pub open spec fn spec_set_checked(state: ButtonCheckState, checked: bool) -> ButtonCheckState {
    match state {
        ButtonCheckState::NoCheck => ButtonCheckState::NoCheck,
        ButtonCheckState::CheckBox(_) => ButtonCheckState::CheckBox(checked),
        ButtonCheckState::RadioButton(_) => ButtonCheckState::RadioButton(checked),
        ButtonCheckState::GroupButton(_) => ButtonCheckState::GroupButton(checked),
    }
}

/// The background of a button: the theme's background, mixed with the selection colour if
/// checked, then with the pressed colour if pressed, or else with the highlight colour if
/// highlighted.
pub open spec fn spec_button_background(
    checked: bool,
    pressed: bool,
    highlight: bool,
    theme: GuiColorTheme,
) -> u32 {
    let color = if checked {
        crate::color::spec_avg_color(theme.background, theme.selected)
    } else {
        theme.background
    };
    if pressed {
        crate::color::spec_avg_color(color, theme.pressed)
    } else if highlight {
        crate::color::spec_avg_color(color, theme.highlight)
    } else {
        color
    }
}

impl Button {
    /// A button with a caption and an optional hot-key, without check and without callback;
    /// the caption is centred vertically.
    pub fn new_with_hotkey(
        size_constraints: SizeConstraints,
        text: String,
        font: Font,
        hotkey: Option<Hotkey>,
    ) -> (r: Self)
        ensures
            r.base == new_base(size_constraints),
            !r.holded_when_pushed,
            r.font == (Font {
                layout_vertical: TextLayoutVertical::MIDDLE,
                layout_horizontal: TextLayoutHorizontal::LEFT,
                ..font
            }),
            r.text@ == text@,
            r.hotkey == hotkey,
            !r.hotkey_is_global,
            r.callback is None,
            !r.callback_with_check,
            r.check_state == ButtonCheckState::NoCheck,
    {
        Self {
            base: GuiControlBase::new(size_constraints),
            holded_when_pushed: false,
            font: font.layout_vertical(TextLayoutVertical::MIDDLE).layout_horizontal(
                TextLayoutHorizontal::LEFT,
            ),
            text,
            hotkey,
            hotkey_is_global: false,
            callback: None,
            callback_with_check: false,
            check_state: ButtonCheckState::NoCheck,
        }
    }

    /// A button with a caption, without hot-key, check or callback.
    pub fn new(size_constraints: SizeConstraints, text: String, font: Font) -> (r: Self)
        ensures
            r.base == new_base(size_constraints),
            !r.holded_when_pushed,
            r.font == (Font {
                layout_vertical: TextLayoutVertical::MIDDLE,
                layout_horizontal: TextLayoutHorizontal::LEFT,
                ..font
            }),
            r.text@ == text@,
            r.hotkey is None,
            !r.hotkey_is_global,
            r.callback is None,
            !r.callback_with_check,
            r.check_state == ButtonCheckState::NoCheck,
    {
        Self::new_with_hotkey(size_constraints, text, font, None)
    }

    /// Sets the callback a click asks for.
    pub fn set_callback(&mut self, callback: ButtonCallback)
        ensures
            *final(self) == (Button {
                callback: Some(callback),
                callback_with_check: false,
                ..*old(self)
            }),
    {
        self.callback = Some(callback);
        self.callback_with_check = false;
    }

    /// The same button, whose hot-key works wherever the button is.
    pub fn global(self) -> (r: Self)
        ensures
            r == (Button { hotkey_is_global: true, ..self }),
    {
        let mut result = self;
        result.hotkey_is_global = true;
        result
    }

    /// The same button with the given callback.
    pub fn callback(self, callback: ButtonCallback) -> (r: Self)
        ensures
            r == (Button { callback: Some(callback), callback_with_check: false, ..self }),
    {
        let mut result = self;
        result.set_callback(callback);
        result
    }

    /// Sets the callback a click asks for, told whether the check box is then checked.
    pub fn set_checkbox_callback(&mut self, callback: ButtonCallback)
        ensures
            *final(self) == (Button {
                callback: Some(callback),
                callback_with_check: true,
                ..*old(self)
            }),
    {
        self.callback = Some(callback);
        self.callback_with_check = true;
    }

    /// The same button with the given check box callback.
    pub fn checkbox_callback(self, callback: ButtonCallback) -> (r: Self)
        ensures
            r == (Button { callback: Some(callback), callback_with_check: true, ..self }),
    {
        let mut result = self;
        result.set_checkbox_callback(callback);
        result
    }

    /// The same button as a check box, checked or not.
    pub fn check_box(self, state: bool) -> (r: Self)
        ensures
            r == (Button { check_state: ButtonCheckState::CheckBox(state), ..self }),
    {
        let mut result = self;
        result.check_state = ButtonCheckState::CheckBox(state);
        result
    }

    /// The same button as an unchecked radio button.
    pub fn radio_button(self) -> (r: Self)
        ensures
            r == (Button { check_state: ButtonCheckState::RadioButton(false), ..self }),
    {
        let mut result = self;
        result.check_state = ButtonCheckState::RadioButton(false);
        result
    }

    /// The same button as an unselected button of a group, shown without check mark.
    pub fn group_button(self) -> (r: Self)
        ensures
            r == (Button { check_state: ButtonCheckState::GroupButton(false), ..self }),
    {
        let mut result = self;
        result.check_state = ButtonCheckState::GroupButton(false);
        result
    }

    /// The same button with a hot-key, global or not.
    pub fn hotkey(self, hotkey: Hotkey, global: bool) -> (r: Self)
        ensures
            r == (Button { hotkey: Some(hotkey), hotkey_is_global: global, ..self }),
    {
        let mut result = self;
        result.hotkey = Some(hotkey);
        result.hotkey_is_global = global;
        result
    }

    fn has_checks(&self) -> (r: bool)
        ensures
            r == spec_has_checks(self.check_state),
    {
        match self.check_state {
            ButtonCheckState::NoCheck => false,
            ButtonCheckState::CheckBox(_) => true,
            ButtonCheckState::RadioButton(_) => true,
            ButtonCheckState::GroupButton(_) => false,
        }
    }

    fn checked(&self) -> (r: bool)
        ensures
            r == spec_checked(self.check_state),
    {
        match self.check_state {
            ButtonCheckState::NoCheck => false,
            ButtonCheckState::CheckBox(c) => c,
            ButtonCheckState::RadioButton(c) => c,
            ButtonCheckState::GroupButton(c) => c,
        }
    }

    /// Checks or unchecks the button; a button without a check stays as it is.
    pub fn set_checked(&mut self, checked: bool)
        ensures
            *final(self) == (Button {
                check_state: spec_set_checked(old(self).check_state, checked),
                ..*old(self)
            }),
    {
        self.check_state = match self.check_state {
            ButtonCheckState::NoCheck => ButtonCheckState::NoCheck,
            ButtonCheckState::CheckBox(_) => ButtonCheckState::CheckBox(checked),
            ButtonCheckState::RadioButton(_) => ButtonCheckState::RadioButton(checked),
            ButtonCheckState::GroupButton(_) => ButtonCheckState::GroupButton(checked),
        };
    }

    pub(crate) fn default_check_symbol_of_state(state: ButtonCheckState) -> (r: &'static str)
        ensures
            r@ == (match state {
                ButtonCheckState::NoCheck => ""@,
                ButtonCheckState::CheckBox(_) => "V"@,
                ButtonCheckState::RadioButton(_) => "\u{25cf}"@,
                ButtonCheckState::GroupButton(_) => ""@,
            }),
    {
        match state {
            ButtonCheckState::NoCheck => "",
            ButtonCheckState::CheckBox(_) => "V",
            ButtonCheckState::RadioButton(_) => "\u{25cf}",
            ButtonCheckState::GroupButton(_) => "",
        }
    }

    fn default_check_symbol(&self) -> (r: &'static str)
        ensures
            r@ == (match self.check_state {
                ButtonCheckState::NoCheck => ""@,
                ButtonCheckState::CheckBox(_) => "V"@,
                ButtonCheckState::RadioButton(_) => "\u{25cf}"@,
                ButtonCheckState::GroupButton(_) => ""@,
            }),
    {
        Self::default_check_symbol_of_state(self.check_state)
    }

    fn check_symbol(&self) -> (r: &'static str)
        ensures
            r@ == (match self.check_state {
                ButtonCheckState::NoCheck => ""@,
                ButtonCheckState::CheckBox(c) => if c { "V"@ } else { "\u{25a1}"@ },
                ButtonCheckState::RadioButton(c) => if c { "\u{25cf}"@ } else { "\u{25cb}"@ },
                ButtonCheckState::GroupButton(_) => ""@,
            }),
    {
        match self.check_state {
            ButtonCheckState::NoCheck => "",
            ButtonCheckState::CheckBox(c) => if c {
                "V"
            } else {
                "\u{25a1}"
            },
            ButtonCheckState::RadioButton(c) => if c {
                "\u{25cf}"
            } else {
                "\u{25cb}"
            },
            ButtonCheckState::GroupButton(_) => "",
        }
    }

    /// The colour the button's background is painted in.
    pub fn get_background_color(&self, theme: &GuiColorTheme) -> (r: u32)
        ensures
            r == spec_button_background(
                spec_checked(self.check_state),
                self.base.pressed,
                self.base.highlight,
                *theme,
            ),
    {
        let color = if self.checked() {
            crate::color::avg_color(theme.background, theme.selected)
        } else {
            theme.background
        };
        if self.base.pressed {
            crate::color::avg_color(color, theme.pressed)
        } else if self.base.highlight {
            crate::color::avg_color(color, theme.highlight)
        } else {
            color
        }
    }
}

impl CheckBox {
    /// An unchecked check box with a caption, centred in both directions.
    pub fn new(size_constraints: SizeConstraints, text: String, font: Font) -> (r: Self)
        ensures
            r.base == new_base(size_constraints),
            !r.holded_when_pushed,
            r.font == (Font {
                layout_vertical: TextLayoutVertical::MIDDLE,
                layout_horizontal: TextLayoutHorizontal::MIDDLE,
                ..font
            }),
            r.text@ == text@,
            !r.checked,
    {
        Self {
            base: GuiControlBase::new(size_constraints),
            holded_when_pushed: false,
            font: font.layout_vertical(TextLayoutVertical::MIDDLE).layout_horizontal(
                TextLayoutHorizontal::MIDDLE,
            ),
            text,
            checked: false,
        }
    }
}

impl TextBox {
    /// A line of text, with padding, centred vertically.
    pub fn new(size_constraints: SizeConstraints, text: String, font: Font) -> (r: Self)
        ensures
            r.base == new_base(size_constraints),
            r.padding,
            r.font == (Font {
                layout_vertical: TextLayoutVertical::MIDDLE,
                layout_horizontal: TextLayoutHorizontal::LEFT,
                ..font
            }),
            r.text@ == text@,
    {
        Self {
            base: GuiControlBase::new(size_constraints),
            padding: true,
            font: font.layout_vertical(TextLayoutVertical::MIDDLE).layout_horizontal(
                TextLayoutHorizontal::LEFT,
            ),
            text,
        }
    }
}

/// The check state after a click: a check box flips, other states stay.
pub open spec fn spec_toggled(state: ButtonCheckState) -> ButtonCheckState {
    match state {
        ButtonCheckState::CheckBox(c) => ButtonCheckState::CheckBox(!c),
        _ => state,
    }
}

/// The job a button's callback asks for: a check box callback is told whether the button is
/// a checked check box.
pub open spec fn button_job(b: Button) -> Option<Job> {
    match b.callback {
        Some(ButtonCallback(id)) => Some(
            if b.callback_with_check {
                Job::CheckBox(id, b.check_state == ButtonCheckState::CheckBox(true))
            } else {
                Job::Button(id)
            },
        ),
        None => None,
    }
}

/// `jobs` with `job` after them, if there is one.
pub open spec fn push_job(jobs: Seq<Job>, job: Option<Job>) -> Seq<Job> {
    match job {
        Some(j) => jobs.push(j),
        None => jobs,
    }
}

/// `after` is `before` with the given jobs, hot-keys and click flag, the rest unchanged.
pub open spec fn out_with_clicks(
    before: MessageOutput,
    after: MessageOutput,
    jobs: Seq<Job>,
    hotkeys: Seq<(Hotkey, HotkeyCallback)>,
    clicked: bool,
) -> bool {
    &&& after.jobs@ == jobs
    &&& after.unfocus == before.unfocus
    &&& after.use_default_keydown == before.use_default_keydown
    &&& after.hotkeys@ == hotkeys
    &&& after.size_constraints == before.size_constraints
    &&& after.clicked == clicked
}

/// Handling `m` turns the button `old` into `new`, output `o` into `n`, and returns `r`: a
/// press holds the button down; a move of the pressed mouse tells whether it is still over
/// the button; a release over the pressed button is a click, which flips a check box, asks
/// for the callback and is reported in `clicked`; the hot-key is collected with the
/// callback when the button is active or the hot-key global.
pub open spec fn button_message_post(
    old: Button,
    new: Button,
    m: GuiMessage,
    o: MessageOutput,
    n: MessageOutput,
    r: bool,
) -> bool {
    match m {
        GuiMessage::MouseDown(_) => r && new == (Button { holded_when_pushed: true, ..old })
            && out_same(o, n),
        GuiMessage::MouseMove(p) => out_same(o, n) && if old.base.pressed {
            new == (Button { holded_when_pushed: rect_contains(old.base.rect, p), ..old }) && r == (
            rect_contains(old.base.rect, p) != old.holded_when_pushed)
        } else {
            !r && new == old
        },
        GuiMessage::MouseUp(p) => r && if old.base.pressed && rect_contains(old.base.rect, p) {
            let clicked = Button { check_state: spec_toggled(old.check_state), ..old };
            new == clicked && out_with_clicks(
                o,
                n,
                push_job(o.jobs@, button_job(clicked)),
                o.hotkeys@,
                true,
            )
        } else {
            new == old && out_same(o, n)
        },
        GuiMessage::GetHotkeys(active) => new == old && match (old.hotkey, button_job(old)) {
            (Some(h), Some(job)) => r && out_with_clicks(
                o,
                n,
                o.jobs@,
                if old.hotkey_is_global || active {
                    o.hotkeys@.push((h, HotkeyCallback(job)))
                } else {
                    o.hotkeys@
                },
                o.clicked,
            ),
            _ => !r && out_same(o, n),
        },
        _ => !r && new == old && out_same(o, n),
    }
}

impl Button {
    pub(crate) fn job(&self) -> (r: Option<Job>)
        ensures
            r == button_job(*self),
    {
        match self.callback {
            Some(ButtonCallback(id)) => Some(
                if self.callback_with_check {
                    Job::CheckBox(
                        id,
                        match self.check_state {
                            ButtonCheckState::CheckBox(c) => c,
                            _ => false,
                        },
                    )
                } else {
                    Job::Button(id)
                },
            ),
            None => None,
        }
    }

    /// Handles `m`, as `button_message_post` says.
    pub fn on_message(&mut self, m: &GuiMessage, out: &mut MessageOutput) -> (r: bool)
        ensures
            button_message_post(*old(self), *final(self), *m, *old(out), *final(out), r),
    {
        match m {
            GuiMessage::MouseDown(_) => {
                self.holded_when_pushed = true;
                true
            },
            GuiMessage::MouseMove(position) => {
                if self.base.pressed {
                    let prev_holded_when_pushed = self.holded_when_pushed;
                    self.holded_when_pushed = self.base.rect.contains(*position);
                    self.holded_when_pushed != prev_holded_when_pushed
                } else {
                    false
                }
            },
            GuiMessage::MouseUp(position) => {
                if self.base.pressed && self.base.rect.contains(*position) {
                    match self.check_state {
                        ButtonCheckState::CheckBox(c) => {
                            self.check_state = ButtonCheckState::CheckBox(!c);
                        },
                        _ => {},
                    }
                    match self.job() {
                        Some(job) => out.jobs.add_callback(job),
                        None => {},
                    }
                    out.clicked = true;
                }
                true
            },
            GuiMessage::GetHotkeys(active) => {
                match (self.hotkey, self.job()) {
                    (Some(hotkey), Some(job)) => {
                        if self.hotkey_is_global || *active {
                            out.hotkeys.push((hotkey, HotkeyCallback(job)));
                        }
                        true
                    },
                    _ => false,
                }
            },
            _ => false,
        }
    }
}

/// Handling `m` turns the check box `old` into `new` and returns `r`: a press holds it down,
/// a move of the pressed mouse tells whether it is still over it, and a release over it
/// flips it.
pub open spec fn check_box_message_post(old: CheckBox, new: CheckBox, m: GuiMessage, r: bool) -> bool {
    match m {
        GuiMessage::MouseDown(_) => r && new == (CheckBox { holded_when_pushed: true, ..old }),
        GuiMessage::MouseMove(p) => if old.base.pressed {
            new == (CheckBox { holded_when_pushed: rect_contains(old.base.rect, p), ..old }) && r
                == (rect_contains(old.base.rect, p) != old.holded_when_pushed)
        } else {
            !r && new == old
        },
        GuiMessage::MouseUp(p) => r && new == (CheckBox {
            checked: if rect_contains(old.base.rect, p) {
                !old.checked
            } else {
                old.checked
            },
            ..old
        }),
        _ => !r && new == old,
    }
}

impl CheckBox {
    /// Handles `m`, as `check_box_message_post` says.
    pub fn on_message(&mut self, m: &GuiMessage) -> (r: bool)
        ensures
            check_box_message_post(*old(self), *final(self), *m, r),
    {
        match m {
            GuiMessage::MouseDown(_) => {
                self.holded_when_pushed = true;
                true
            },
            GuiMessage::MouseMove(position) => {
                if self.base.pressed {
                    let prev_holded_when_pushed = self.holded_when_pushed;
                    self.holded_when_pushed = self.base.rect.contains(*position);
                    self.holded_when_pushed != prev_holded_when_pushed
                } else {
                    false
                }
            },
            GuiMessage::MouseUp(position) => {
                if self.base.rect.contains(*position) {
                    self.checked = !self.checked;
                }
                true
            },
            _ => false,
        }
    }
}

/// The rectangle of the scroll bar of a list box in `rect`: its right `scroll_width` pixels,
/// or all of it if it is narrower.
pub open spec fn list_scroll_rect(rect: Rect, scroll_width: i32) -> Rect {
    let left = sat_i32(rect.right_bottom.0 - scroll_width);
    Rect {
        left_top: (if rect.left_top.0 >= left { rect.left_top.0 } else { left }, rect.left_top.1),
        right_bottom: rect.right_bottom,
    }
}

impl ListBox {
    /// An empty list, with a scroll bar `scroll_width` pixels wide, drawing with `font`
    /// aligned to the top left.
    pub fn new(size_constraints: SizeConstraints, scroll_width: i32, font: Font) -> (r: Self)
        ensures
            r.base == new_base(size_constraints),
            r.scroll_width == scroll_width,
            r.scroll.base == new_base(size_constraints),
            r.scroll.scroll_range == 100,
            r.scroll.content_size == 10,
            r.scroll.scroll_position == 45,
            r.scroll.scroll_state == ScrollState::Invalid,
            r.font == (Font {
                layout_vertical: TextLayoutVertical::TOP,
                layout_horizontal: TextLayoutHorizontal::LEFT,
                ..font
            }),
            r.lines@.len() == 0,
    {
        Self {
            base: GuiControlBase::new(size_constraints),
            scroll_width,
            scroll: ScrollV::new(size_constraints),
            font: font.layout_vertical(TextLayoutVertical::TOP).layout_horizontal(
                TextLayoutHorizontal::LEFT,
            ),
            lines: Vec::new(),
        }
    }

    /// The height of a line: five quarters of the height of `M`.
    pub fn get_item_height<L: FontLoader>(&self, fonts: &mut FontFactory<L>) -> (r: i32)
        requires
            old(fonts).wf(),
        ensures
            final(fonts).wf(),
            lines_grow(old(fonts).lines(), final(fonts).lines()),
            final(fonts).lines().len() == old(fonts).lines().len(),
            r == (tdiv(
                (text_size(font_glyphs(final(fonts).lines(), self.font), "M"@).1 as i32) * 5,
                4,
            )) as i32,
    {
        let h: i64 = (#[verifier::truncate] (self.font.get_size("M", fonts).1 as i32)) as i64;
        let q: i64 = div_trunc(h * 5, 4);
        #[verifier::truncate] (q as i32)
    }

    /// Handles `m`: a new rectangle places the scroll bar at the right, as `list_scroll_rect`
    /// says; other messages go to the scroll bar.
    pub fn on_message(&mut self, m: &GuiMessage) -> (r: bool)
        ensures
            match *m {
                GuiMessage::RectUpdated => r && *final(self) == (ListBox {
                    scroll: ScrollV {
                        base: GuiControlBase {
                            rect: list_scroll_rect(old(self).base.rect, old(self).scroll_width),
                            ..old(self).scroll.base
                        },
                        ..old(self).scroll
                    },
                    ..*old(self)
                }),
                _ => final(self).base == old(self).base && final(self).scroll_width == old(
                    self,
                ).scroll_width && final(self).font == old(self).font && final(self).lines
                    == old(self).lines && scroll_message_post(
                    old(self).scroll,
                    final(self).scroll,
                    *m,
                    r,
                ),
            },
    {
        match m {
            GuiMessage::RectUpdated => {
                let rect = self.base.rect;
                let left = saturate_i32(rect.right_bottom.0 as i64 - self.scroll_width as i64);
                let scroll_rect = Rect {
                    left_top: (if rect.left_top.0 >= left { rect.left_top.0 } else { left }, rect.left_top.1),
                    right_bottom: rect.right_bottom,
                };
                self.scroll.base.rect = scroll_rect;
                true
            },
            _ => self.scroll.on_message(m),
        }
    }
}

impl Container {
    /// Adds `control` as the last child, and gives its index. The control is told it is
    /// created, then shown if the container is visible (`Control::on_lifecycle`, which leaves
    /// it as it is).
    pub fn add_child(&mut self, control: Control) -> (r: usize)
        ensures
            r == old(self).children@.len(),
            final(self).children@ == old(self).children@.push(control),
            final(self).base == old(self).base,
            final(self).layout == old(self).layout,
            final(self).support_compression == old(self).support_compression,
    {
        let mut control = control;
        control.on_lifecycle(&GuiMessage::Create);
        if self.base.visible {
            control.on_lifecycle(&GuiMessage::Show);
        }
        let index = self.children.len();
        self.children.push(control);
        index
    }
}

/// The child at `index` of the container is a button: it is then given the check state
/// `f` maps its state to.
pub open spec fn with_button_checked(children: Seq<Control>, index: int, checked: bool) -> Seq<Control> {
    if 0 <= index < children.len() {
        match children[index] {
            Control::Button(b) => children.update(
                index,
                Control::Button(Button { check_state: spec_set_checked(b.check_state, checked), ..b }),
            ),
            _ => children,
        }
    } else {
        children
    }
}

/// The children of a radio group after the selection moves from button number `from` to
/// button number `to`: the first is unchecked, then the second checked.
pub open spec fn select_children(
    children: Seq<Control>,
    buttons: Seq<usize>,
    from: int,
    to: int,
) -> Seq<Control> {
    let unchecked = if 0 <= from < buttons.len() {
        with_button_checked(children, buttons[from] as int, false)
    } else {
        children
    };
    if 0 <= to < buttons.len() {
        with_button_checked(unchecked, buttons[to] as int, true)
    } else {
        unchecked
    }
}

impl RadioGroup {
    /// An empty group in a container with the given constraints and layout, starting with
    /// the caption if there is one; the first button is selected.
    pub fn new(size_constraints: SizeConstraints, layout: ContainerLayout, caption: Option<TextBox>) -> (r: Self)
        ensures
            r.container.base == new_base(size_constraints),
            r.container.layout == layout,
            !r.container.support_compression,
            match caption {
                Some(c) => r.container.children@ == seq![Control::TextBox(c)],
                None => r.container.children@.len() == 0,
            },
            r.buttons@.len() == 0,
            r.selected_index == 0,
            r.callback is None,
    {
        let mut container = Container::new(size_constraints, layout);
        match caption {
            Some(c) => {
                container.add_child(Control::TextBox(c));
            },
            None => {},
        }
        Self { container, buttons: Vec::new(), selected_index: 0, callback: None }
    }

    /// The index of the selected button.
    pub fn get_index(&self) -> (r: usize)
        ensures
            r == self.selected_index,
    {
        self.selected_index
    }

    /// Sets the callback asked for when the selection changes.
    pub fn set_callback(&mut self, callback: RadioGroupCallback)
        ensures
            final(self).callback == Some(callback),
            final(self).container == old(self).container,
            final(self).buttons == old(self).buttons,
            final(self).selected_index == old(self).selected_index,
    {
        self.callback = Some(callback);
    }

    /// The same group with the given callback.
    pub fn callback(self, callback: RadioGroupCallback) -> (r: Self)
        ensures
            r.callback == Some(callback),
            r.container == self.container,
            r.buttons == self.buttons,
            r.selected_index == self.selected_index,
    {
        let mut result = self;
        result.set_callback(callback);
        result
    }

    fn set_button_checked(&mut self, button: usize, checked: bool)
        ensures
            final(self).container.children@ == with_button_checked(
                old(self).container.children@,
                old(self).buttons@[button as int] as int,
                checked,
            ) || button >= old(self).buttons@.len(),
            button >= old(self).buttons@.len() ==> final(self).container.children@ == old(
                self,
            ).container.children@,
            final(self).container.base == old(self).container.base,
            final(self).container.layout == old(self).container.layout,
            final(self).container.support_compression == old(self).container.support_compression,
            final(self).buttons == old(self).buttons,
            final(self).selected_index == old(self).selected_index,
            final(self).callback == old(self).callback,
    {
        if button < self.buttons.len() {
            let index = self.buttons[button];
            if index < self.container.children.len() {
                let ghost before = self.container.children@;
                match &mut self.container.children[index] {
                    Control::Button(b) => {
                        b.set_checked(checked);
                    },
                    _ => {},
                }
                proof {
                    assert(self.container.children@ =~= with_button_checked(before, index as int, checked));
                }
            }
        }
    }

    /// Selects button number `new_index`: the button selected before is unchecked, the new
    /// one checked (an index with no button checks nothing). Gives the callback's job, told
    /// the new index, if there is a callback.
    pub fn set_index(&mut self, new_index: usize) -> (r: Option<Job>)
        ensures
            final(self).container.children@ == select_children(
                old(self).container.children@,
                old(self).buttons@,
                old(self).selected_index as int,
                new_index as int,
            ),
            final(self).selected_index == new_index,
            final(self).container.base == old(self).container.base,
            final(self).container.layout == old(self).container.layout,
            final(self).container.support_compression == old(self).container.support_compression,
            final(self).buttons == old(self).buttons,
            final(self).callback == old(self).callback,
            r == match old(self).callback {
                Some(RadioGroupCallback(id)) => Some(Job::RadioGroup(id, new_index)),
                None => None,
            },
    {
        let old_index = self.selected_index;
        self.set_button_checked(old_index, false);
        self.selected_index = new_index;
        self.set_button_checked(new_index, true);
        match self.callback {
            Some(RadioGroupCallback(id)) => Some(Job::RadioGroup(id, new_index)),
            None => None,
        }
    }

    /// Adds `button` as a button of the group, shown as a button of a group or as a radio
    /// button; clicks on it select it, so its own callback is dropped.
    pub fn add_button_as(&mut self, button: Button, group: bool)
        ensures
            final(self).container.children@ == old(self).container.children@.push(
                Control::Button(
                    Button {
                        check_state: if group {
                            ButtonCheckState::GroupButton(false)
                        } else {
                            ButtonCheckState::RadioButton(false)
                        },
                        callback: None,
                        callback_with_check: false,
                        ..button
                    },
                ),
            ),
            final(self).buttons@ == old(self).buttons@.push(old(self).container.children@.len() as usize),
            final(self).container.base == old(self).container.base,
            final(self).container.layout == old(self).container.layout,
            final(self).container.support_compression == old(self).container.support_compression,
            final(self).selected_index == old(self).selected_index,
            final(self).callback == old(self).callback,
    {
        let mut button = if group {
            button.group_button()
        } else {
            button.radio_button()
        };
        button.callback = None;
        button.callback_with_check = false;
        let index = self.container.add_child(Control::Button(button));
        self.buttons.push(index);
    }

    /// Adds `button` as a radio button of the group.
    pub fn add_button(&mut self, button: Button)
        ensures
            final(self).container.children@ == old(self).container.children@.push(
                Control::Button(
                    Button {
                        check_state: ButtonCheckState::RadioButton(false),
                        callback: None,
                        callback_with_check: false,
                        ..button
                    },
                ),
            ),
            final(self).buttons@ == old(self).buttons@.push(old(self).container.children@.len() as usize),
            final(self).container.base == old(self).container.base,
            final(self).container.layout == old(self).container.layout,
            final(self).container.support_compression == old(self).container.support_compression,
            final(self).selected_index == old(self).selected_index,
            final(self).callback == old(self).callback,
    {
        self.add_button_as(button, false)
    }
}

impl TabControl {
    /// Tabs whose header is `height` pixels high, captions drawn with `font`, with no tab yet.
    pub fn new(height: i32, font: Font) -> (r: Self)
        requires
            height < i32::MAX,
        ensures
            r.base == new_base(
                SizeConstraints(
                    SizeConstraint { absolute: 0, relative: 100 },
                    SizeConstraint { absolute: (height + 1) as i32, relative: 0 },
                ),
            ),
            r.height == height,
            r.header.container.base == new_base(
                SizeConstraints(
                    SizeConstraint { absolute: 0, relative: 100 },
                    SizeConstraint { absolute: height, relative: 0 },
                ),
            ),
            r.header.container.layout == ContainerLayout::Horizontal,
            r.header.container.children@.len() == 0,
            r.header.buttons@.len() == 0,
            r.header.selected_index == 0,
            r.header.callback is None,
            r.children@.len() == 0,
            r.font == font,
    {
        let header_constraints = SizeConstraints(SizeConstraint::flexible(0), SizeConstraint::fixed(height));
        let full_constraints = SizeConstraints(SizeConstraint::flexible(0), SizeConstraint::fixed(height + 1));
        Self {
            base: GuiControlBase::new(full_constraints),
            height,
            header: RadioGroup::new(header_constraints, ContainerLayout::Horizontal, None),
            children: Vec::new(),
            font,
        }
    }

    /// Adds a tab showing `control`, with a header button `width` pixels wide captioned
    /// `caption`; gives the tab's index.
    pub fn add_tab(&mut self, caption: String, width: i32, control: Control) -> (r: usize)
        ensures
            r == old(self).children@.len(),
            final(self).children@ == old(self).children@.push(control),
            final(self).header.buttons@ == old(self).header.buttons@.push(
                old(self).header.container.children@.len() as usize,
            ),
            final(self).header.container.children@.len() == old(self).header.container.children@.len() + 1,
            final(self).header.container.children@.drop_last() == old(self).header.container.children@,
            final(self).header.container.children@.last() matches Control::Button(b) && b.text@ == caption@
                && b.check_state == ButtonCheckState::GroupButton(false) && b.base == new_base(
                SizeConstraints(
                    SizeConstraint { absolute: width, relative: 0 },
                    SizeConstraint { absolute: old(self).height, relative: 0 },
                ),
            ),
            final(self).header.selected_index == old(self).header.selected_index,
            final(self).base == old(self).base,
            final(self).height == old(self).height,
            final(self).font == old(self).font,
    {
        let button = Button::new(
            SizeConstraints(SizeConstraint::fixed(width), SizeConstraint::fixed(self.height)),
            caption,
            self.font,
        );
        self.header.add_button_as(button, true);
        assert(self.header.container.children@.drop_last() =~= old(self).header.container.children@);
        let index = self.children.len();
        self.children.push(control);
        index
    }

    /// The index of the selected tab.
    pub fn selected_tab_index(&self) -> (r: usize)
        ensures
            r == self.header.selected_index,
    {
        self.header.get_index()
    }

    /// The control of the selected tab, if there is a tab at the selected index.
    pub fn get_selected_tab(&self) -> (r: Option<&Control>)
        ensures
            self.header.selected_index < self.children@.len() ==> r == Some(
                &self.children@[self.header.selected_index as int],
            ),
            self.header.selected_index >= self.children@.len() ==> r is None,
    {
        let index = self.selected_tab_index();
        if index < self.children.len() {
            Some(&self.children[index])
        } else {
            None
        }
    }

    /// Selects the tab at `index`: its header button is checked, that of the tab selected
    /// before unchecked.
    pub fn select_tab(&mut self, index: usize) -> (r: Option<Job>)
        ensures
            final(self).header.container.children@ == select_children(
                old(self).header.container.children@,
                old(self).header.buttons@,
                old(self).header.selected_index as int,
                index as int,
            ),
            final(self).header.selected_index == index,
            final(self).header.buttons == old(self).header.buttons,
            final(self).header.callback == old(self).header.callback,
            final(self).header.container.base == old(self).header.container.base,
            final(self).children@ == old(self).children@,
            final(self).base == old(self).base,
            final(self).height == old(self).height,
            final(self).font == old(self).font,
            r == match old(self).header.callback {
                Some(RadioGroupCallback(id)) => Some(Job::RadioGroup(id, index)),
                None => None,
            },
    {
        let old_index = self.header.selected_index;
        let r = self.header.set_index(index);
        if self.base.visible {
            if old_index < self.children.len() {
                self.children[old_index].on_lifecycle(&GuiMessage::Hide);
            }
            if index < self.children.len() {
                self.children[index].on_lifecycle(&GuiMessage::Show);
            }
        }
        r
    }
}

/// The state of a control after it was asked to draw: the redraw request is cleared.
pub open spec fn drawn_base(base: GuiControlBase) -> GuiControlBase {
    GuiControlBase { need_redraw: false, ..base }
}

impl ColorBox {
    /// Fills the window with the theme's splitter colour when the box is to be drawn (it is
    /// visible, and asked for a redraw or the redraw is forced).
    pub fn draw(&mut self, buf: &mut ImageViewMut<u32>, theme: &GuiColorTheme, force: bool) -> (r: bool)
        ensures
            r,
            final(self).base == drawn_base(old(self).base),
            same_outside(old(buf), final(buf)),
            old(self).base.visible && (old(self).base.need_redraw || force) ==> forall|x: int, y: int|
                #![trigger final(buf).spec_at(x, y)]
                in_size(old(buf).spec_size(), x, y) ==> final(buf).spec_at(x, y) == theme.splitter,
            !(old(self).base.visible && (old(self).base.need_redraw || force)) ==> *final(buf) == *old(buf),
    {
        if self.base.can_draw(force) {
            buf.fill(&SetPixel(theme.splitter));
        }
        true
    }
}

impl EmptySpace {
    /// Fills the window with the theme's background colour when the space is to be drawn.
    pub fn draw(&mut self, buf: &mut ImageViewMut<u32>, theme: &GuiColorTheme, force: bool) -> (r: bool)
        ensures
            r,
            final(self).base == drawn_base(old(self).base),
            same_outside(old(buf), final(buf)),
            old(self).base.visible && (old(self).base.need_redraw || force) ==> forall|x: int, y: int|
                #![trigger final(buf).spec_at(x, y)]
                in_size(old(buf).spec_size(), x, y) ==> final(buf).spec_at(x, y) == theme.background,
            !(old(self).base.visible && (old(self).base.need_redraw || force)) ==> *final(buf) == *old(buf),
    {
        if self.base.can_draw(force) {
            GuiControlBase::erase_background(buf, theme);
        }
        true
    }
}

/// `font` in the colour `color`.
pub open spec fn font_in(font: Font, color: u32) -> Font {
    Font { color, light: spec_color_is_light(color), ..font }
}

/// The steps of drawing the text box `t` over `before`, with the font lines `l0` before and
/// `lf` after: the window is painted in the background colour (`erased`); when it is not
/// empty, the text is drawn in the theme's font colour, from the left edge (or half the
/// text's height in, padded, the lines being `la` once it is measured) at half the window's
/// height.
pub open spec fn text_box_steps(
    t: TextBox,
    theme: GuiColorTheme,
    before: ImageViewMut<u32>,
    after: ImageViewMut<u32>,
    l0: Seq<FontLine>,
    lf: Seq<FontLine>,
    erased: ImageViewMut<u32>,
    la: Seq<FontLine>,
) -> bool {
    let size = before.spec_size();
    let x = if t.padding {
        tdiv((text_size(font_glyphs(la, t.font), t.text@).1 as i32) as int, 2) as i32
    } else {
        0i32
    };
    let y = tdiv((size.1 as i32) as int, 2) as i32;
    let font = font_in(t.font, theme.font);
    &&& filled_with(before, erased, theme.background)
    &&& if size.0 == 0 || size.1 == 0 {
        after == erased && lf == l0
    } else {
        &&& lines_grow(l0, la)
        &&& lines_grow(la, lf)
        &&& !t.padding ==> la == l0
        &&& text_drawn(erased, after, font_glyphs(lf, font), font, t.text@, (x, y))
    }
}

/// Whether drawing the text box `t` turns `before` into `after` and the font lines `l0`
/// into `lf`: nothing happens unless it is visible and to be redrawn (or `force`); else it
/// goes through `text_box_steps`.
pub open spec fn text_box_drawn(
    t: TextBox,
    theme: GuiColorTheme,
    force: bool,
    before: ImageViewMut<u32>,
    after: ImageViewMut<u32>,
    l0: Seq<FontLine>,
    lf: Seq<FontLine>,
) -> bool {
    if !(t.base.visible && (t.base.need_redraw || force)) {
        after == before && lf == l0
    } else {
        exists|erased: ImageViewMut<u32>, la: Seq<FontLine>|
            #[trigger] text_box_steps(t, theme, before, after, l0, lf, erased, la)
    }
}

/// A symbol's text, as `default_check_symbol` gives it for the check state `state`.
pub open spec fn default_check_symbol_spec(state: ButtonCheckState) -> Seq<char> {
    match state {
        ButtonCheckState::NoCheck => ""@,
        ButtonCheckState::CheckBox(_) => "V"@,
        ButtonCheckState::RadioButton(_) => "\u{25cf}"@,
        ButtonCheckState::GroupButton(_) => ""@,
    }
}

/// The check mark's text, as `check_symbol` gives it for the check state `state`.
pub open spec fn check_symbol_spec(state: ButtonCheckState) -> Seq<char> {
    match state {
        ButtonCheckState::NoCheck => ""@,
        ButtonCheckState::CheckBox(c) => if c {
            "V"@
        } else {
            "\u{25a1}"@
        },
        ButtonCheckState::RadioButton(c) => if c {
            "\u{25cf}"@
        } else {
            "\u{25cb}"@
        },
        ButtonCheckState::GroupButton(_) => ""@,
    }
}

/// `a + b`, saturating at `usize::MAX`.
pub open spec fn sat_add_usize(a: usize, b: usize) -> usize {
    if a + b > usize::MAX {
        usize::MAX
    } else {
        (a + b) as usize
    }
}

/// The steps of drawing the button `b`, over a window that is not empty, with the font lines
/// `l0` before and `lf` after: the window is filled with the button's background colour
/// (`i1`); the default check symbol and the hot-key's text are measured (the lines being
/// `la`, then `lb`), which gives the check mark's room at the left and the hot-key's at the
/// right; the caption is drawn between them (centred when there is no check mark, shifted by
/// one while held down; `i2`, lines `lc`), then the hot-key's text centred in its room
/// (`i3`, lines `ld`), then the check mark centred in its room.
pub open spec fn button_steps(
    b: Button,
    theme: GuiColorTheme,
    before: ImageViewMut<u32>,
    after: ImageViewMut<u32>,
    l0: Seq<FontLine>,
    lf: Seq<FontLine>,
    la: Seq<FontLine>,
    lb: Seq<FontLine>,
    lc: Seq<FontLine>,
    ld: Seq<FontLine>,
    i1: ImageViewMut<u32>,
    i2: ImageViewMut<u32>,
    i3: ImageViewMut<u32>,
) -> bool {
    let size = before.spec_size();
    let csize = text_size(font_glyphs(la, b.font), default_check_symbol_spec(b.check_state));
    let cw = sat_add_usize(csize.0, csize.1 / 2);
    let check_width: usize = if cw < size.0 {
        cw
    } else {
        size.0
    };
    let htext = match b.hotkey {
        Some(h) => spec_hotkey_text(h),
        None => Seq::<char>::empty(),
    };
    let hsize = text_size(font_glyphs(lb, b.font), htext);
    let hw = sat_add_usize(hsize.0, hsize.1);
    let hotkey_width: usize = if hw < size.0 - check_width {
        hw
    } else {
        (size.0 - check_width) as usize
    };
    let caption_width: usize = (size.0 - hotkey_width - check_width) as usize;
    let with_checks = spec_has_checks(b.check_state);
    let cx0: i32 = if with_checks {
        0i32
    } else {
        tdiv((caption_width.wrapping_sub(check_width) as i32) as int, 2) as i32
    };
    let cy0: i32 = tdiv((size.1 as i32) as int, 2) as i32;
    let held = b.base.pressed && b.holded_when_pushed;
    let cx = if held {
        cx0.wrapping_add(1)
    } else {
        cx0
    };
    let cy = if held {
        cy0.wrapping_add(1)
    } else {
        cy0
    };
    let caption_font = font_in(
        if with_checks {
            b.font
        } else {
            Font { layout_horizontal: TextLayoutHorizontal::MIDDLE, ..b.font }
        },
        theme.font,
    );
    let hotkey_font = font_in(Font { layout_horizontal: TextLayoutHorizontal::MIDDLE, ..b.font }, theme.hotkey);
    let check_font = Font { layout_horizontal: TextLayoutHorizontal::MIDDLE, ..font_in(b.font, theme.font) };
    &&& lines_grow(l0, la)
    &&& lines_grow(la, lb)
    &&& lines_grow(lb, lc)
    &&& lines_grow(lc, ld)
    &&& lines_grow(ld, lf)
    &&& filled_with(
        before,
        i1,
        spec_button_background(spec_checked(b.check_state), b.base.pressed, b.base.highlight, theme),
    )
    &&& text_drawn_in(
        i1,
        i2,
        (check_width, 0usize),
        ((size.0 - hotkey_width) as usize, size.1),
        font_glyphs(lc, caption_font),
        caption_font,
        b.text@,
        (cx, cy),
    )
    &&& text_drawn_in(
        i2,
        i3,
        ((size.0 - hotkey_width) as usize, 0usize),
        size,
        font_glyphs(ld, hotkey_font),
        hotkey_font,
        htext,
        (tdiv((hotkey_width as i32) as int, 2) as i32, cy0),
    )
    &&& text_drawn_in(
        i3,
        after,
        (0usize, 0usize),
        (check_width, size.1),
        font_glyphs(lf, check_font),
        check_font,
        check_symbol_spec(b.check_state),
        (tdiv((check_width as i32) as int, 2) as i32, cy0),
    )
}

/// Whether drawing the button `b` turns `before` into `after` and the font lines `l0` into
/// `lf`: nothing happens unless it is visible and to be redrawn (or `force`) and the window
/// is not empty; else it goes through `button_steps`.
pub open spec fn button_drawn(
    b: Button,
    theme: GuiColorTheme,
    force: bool,
    before: ImageViewMut<u32>,
    after: ImageViewMut<u32>,
    l0: Seq<FontLine>,
    lf: Seq<FontLine>,
) -> bool {
    if !(b.base.visible && (b.base.need_redraw || force)) || before.spec_size().0 == 0 || before.spec_size().1
        == 0 {
        after == before && lf == l0
    } else {
        exists|
            la: Seq<FontLine>,
            lb: Seq<FontLine>,
            lc: Seq<FontLine>,
            ld: Seq<FontLine>,
            i1: ImageViewMut<u32>,
            i2: ImageViewMut<u32>,
            i3: ImageViewMut<u32>,
        |
            #[trigger] button_steps(b, theme, before, after, l0, lf, la, lb, lc, ld, i1, i2, i3)
    }
}

/// The `n` lines of `lines` from `first` on drawn with `font` one under the other, from
/// the top of the window `before` down by `ih` each (wrapping as `i32` does), giving `after`,
/// the font lines going from `l0` to `lf`: through the windows `imgs`, the lines `ls` and the
/// heights `ys`.
pub open spec fn lines_drawn_through(
    lines: Seq<String>,
    first: int,
    n: int,
    font: Font,
    ih: i32,
    before: ImageViewMut<u32>,
    after: ImageViewMut<u32>,
    l0: Seq<FontLine>,
    lf: Seq<FontLine>,
    imgs: Seq<ImageViewMut<u32>>,
    ls: Seq<Seq<FontLine>>,
    ys: Seq<i32>,
) -> bool {
    &&& imgs.len() == n + 1
    &&& ls.len() == n + 1
    &&& ys.len() == n + 1
    &&& imgs[0] == before
    &&& ls[0] == l0
    &&& ys[0] == 0
    &&& imgs[n] == after
    &&& ls[n] == lf
    &&& forall|k: int|
        #![trigger ys[k + 1]]
        0 <= k < n ==> {
            &&& ys[k + 1] == ys[k].wrapping_add(ih)
            &&& lines_grow(ls[k], ls[k + 1])
            &&& text_drawn(imgs[k], imgs[k + 1], font_glyphs(ls[k + 1], font), font, lines[first + k]@, (0i32, ys[k]))
        }
}

/// The lines drawn as `lines_drawn_through` says, through some windows, lines and heights.
pub open spec fn lines_drawn(
    lines: Seq<String>,
    first: int,
    n: int,
    font: Font,
    ih: i32,
    before: ImageViewMut<u32>,
    after: ImageViewMut<u32>,
    l0: Seq<FontLine>,
    lf: Seq<FontLine>,
) -> bool {
    exists|imgs: Seq<ImageViewMut<u32>>, ls: Seq<Seq<FontLine>>, ys: Seq<i32>|
        #![trigger lines_drawn_through(lines, first, n, font, ih, before, after, l0, lf, imgs, ls, ys)]
        lines_drawn_through(lines, first, n, font, ih, before, after, l0, lf, imgs, ls, ys)
}

/// Draws the lines `first` to `last` of `lines` one under the other, as `lines_drawn` says.
fn draw_lines<L: FontLoader>(
    lines: &Vec<String>,
    first: usize,
    last: usize,
    font: &Font,
    item_height: i32,
    buf: &mut ImageViewMut<u32>,
    fonts: &mut FontFactory<L>,
)
    requires
        old(fonts).wf(),
        first <= last <= lines@.len(),
    ensures
        final(fonts).wf(),
        lines_grow(old(fonts).lines(), final(fonts).lines()),
        final(fonts).lines().len() == old(fonts).lines().len(),
        same_outside(old(buf), final(buf)),
        lines_drawn(lines@, first as int, last - first, *font, item_height, *old(buf), *final(buf), old(fonts).lines(), final(fonts).lines()),
{
    let ghost b1 = *buf;
    let mut y: i32 = 0;
    let mut i = first;
    let ghost mut imgs: Seq<ImageViewMut<u32>> = seq![*buf];
    let ghost mut ls: Seq<Seq<FontLine>> = seq![fonts.lines()];
    let ghost mut ys: Seq<i32> = seq![0i32];
    let ghost l1 = fonts.lines();
    while i < last
        invariant
            first <= i <= last <= lines@.len(),
            fonts.wf(),
            lines_grow(old(fonts).lines(), fonts.lines()),
            fonts.lines().len() == old(fonts).lines().len(),
            same_outside(&b1, buf),
            imgs.len() == i - first + 1,
            ls.len() == i - first + 1,
            ys.len() == i - first + 1,
            imgs[0] == b1,
            ls[0] == l1,
            ys[0] == 0,
            imgs[i - first] == *buf,
            ls[i - first] == fonts.lines(),
            ys[i - first] == y,
            forall|k: int|
                #![trigger ys[k + 1]]
                0 <= k < i - first ==> {
                    &&& ys[k + 1] == ys[k].wrapping_add(item_height)
                    &&& lines_grow(ls[k], ls[k + 1])
                    &&& text_drawn(imgs[k], imgs[k + 1], font_glyphs(ls[k + 1], *font), *font, lines@[first + k]@, (0i32, ys[k]))
                },
        decreases last - i,
    {
        let ghost before = *buf;
        let ghost lb = fonts.lines();
        font.draw(lines[i].as_str(), (0, y), buf, fonts);
        proof {
            lemma_same_outside_trans(&b1, &before, buf);
        }
        let ghost y0 = y;
        y = y.wrapping_add(item_height);
        proof {
            let oi = imgs;
            let ol = ls;
            let oy = ys;
            imgs = imgs.push(*buf);
            ls = ls.push(fonts.lines());
            ys = ys.push(y);
            let kk = i - first;
            assert forall|k: int| #![trigger ys[k + 1]] 0 <= k < kk + 1 implies {
                &&& ys[k + 1] == ys[k].wrapping_add(item_height)
                &&& lines_grow(ls[k], ls[k + 1])
                &&& text_drawn(imgs[k], imgs[k + 1], font_glyphs(ls[k + 1], *font), *font, lines@[first + k]@, (0i32, ys[k]))
            } by {
                if k < kk {
                    assert(oy[k + 1] == oy[k].wrapping_add(item_height));
                    assert(ys[k + 1] == oy[k + 1] && ys[k] == oy[k]);
                    assert(ls[k + 1] == ol[k + 1] && ls[k] == ol[k]);
                    assert(imgs[k + 1] == oi[k + 1] && imgs[k] == oi[k]);
                } else {
                    assert(ys[k] == y0);
                    assert(ls[k] == lb);
                    assert(imgs[k] == before);
                    assert(first + k == i);
                    assert(ys[k + 1] == ys[k].wrapping_add(item_height));
                    assert(lines_grow(ls[k], ls[k + 1]));
                    assert(text_drawn(imgs[k], imgs[k + 1], font_glyphs(ls[k + 1], *font), *font, lines@[first + k]@, (0i32, ys[k])));
                }
            }
            assert(imgs.len() == i + 1 - first + 1);
        }
        i += 1;
    }
    assert(lines_drawn_through(lines@, first as int, last - first, *font, item_height, b1, *buf, l1, fonts.lines(), imgs, ls, ys));
}

impl TextBox {
    /// When the text box is to be drawn: paints the background and draws the text in the
    /// theme's font colour, after half a line of padding if it pads, centred vertically.
    pub fn draw<L: FontLoader>(
        &mut self,
        buf: &mut ImageViewMut<u32>,
        theme: &GuiColorTheme,
        force: bool,
        fonts: &mut FontFactory<L>,
    ) -> (r: bool)
        requires
            old(fonts).wf(),
        ensures
            !r,
            final(fonts).wf(),
            lines_grow(old(fonts).lines(), final(fonts).lines()),
            final(fonts).lines().len() == old(fonts).lines().len(),
            *final(self) == (TextBox { base: drawn_base(old(self).base), ..*old(self) }),
            same_outside(old(buf), final(buf)),
            text_box_drawn(*old(self), *theme, force, *old(buf), *final(buf), old(fonts).lines(), final(fonts).lines()),
    {
        let ghost t0 = *self;
        let ghost l0 = fonts.lines();
        if self.base.can_draw(force) {
            let ghost b0 = *buf;
            GuiControlBase::erase_background(buf, theme);
            let ghost b1 = *buf;
            let size = buf.get_size();
            if size.0 > 0 && size.1 > 0 {
                let x: i32 = if self.padding {
                    (#[verifier::truncate] (self.font.get_size(self.text.as_str(), fonts).1 as i32)) / 2
                } else {
                    0
                };
                let ghost la = fonts.lines();
                let y: i32 = (#[verifier::truncate] (size.1 as i32)) / 2;
                self.font.color(theme.font).draw(self.text.as_str(), (x, y), buf, fonts);
                proof {
                    lemma_same_outside_trans(&b0, &b1, buf);
                    assert(text_box_steps(t0, *theme, b0, *buf, l0, fonts.lines(), b1, la));
                }
            } else {
                assert(text_box_steps(t0, *theme, b0, *buf, l0, fonts.lines(), b1, l0));
            }
        }
        false
    }
}

impl Button {
    /// When the button is to be drawn: paints its background, then the caption (after the
    /// check mark's room, centred when there is no check mark, shifted while held down), the
    /// hot-key at the right, and the check mark at the left.
    #[verifier::spinoff_prover]
    #[verifier::rlimit(80)]
    pub fn draw<L: FontLoader>(
        &mut self,
        buf: &mut ImageViewMut<u32>,
        theme: &GuiColorTheme,
        force: bool,
        fonts: &mut FontFactory<L>,
    ) -> (r: bool)
        requires
            old(fonts).wf(),
        ensures
            !r,
            final(fonts).wf(),
            lines_grow(old(fonts).lines(), final(fonts).lines()),
            final(fonts).lines().len() == old(fonts).lines().len(),
            *final(self) == (Button { base: drawn_base(old(self).base), ..*old(self) }),
            same_outside(old(buf), final(buf)),
            button_drawn(*old(self), *theme, force, *old(buf), *final(buf), old(fonts).lines(), final(fonts).lines()),
    {
        let ghost bt0 = *self;
        let ghost l0 = fonts.lines();
        if self.base.can_draw(force) {
            let size = buf.get_size();
            if size.0 > 0 && size.1 > 0 {
                let ghost b0 = *buf;
                let color = self.get_background_color(theme);
                buf.fill(&SetPixel(color));
                let ghost b1 = *buf;
                let check_size = self.font.get_size(self.default_check_symbol(), fonts);
                let ghost la = fonts.lines();
                let cw = check_size.0.saturating_add(check_size.1 / 2);
                let check_width = if cw < size.0 {
                    cw
                } else {
                    size.0
                };
                let hotkey_text = match self.hotkey {
                    Some(h) => h.text(),
                    None => String::new(),
                };
                let hotkey_size = self.font.get_size(hotkey_text.as_str(), fonts);
                let ghost lb = fonts.lines();
                let hw = hotkey_size.0.saturating_add(hotkey_size.1);
                let hotkey_width = if hw < size.0 - check_width {
                    hw
                } else {
                    size.0 - check_width
                };
                let caption_width = size.0 - hotkey_width - check_width;
                let with_checks = self.has_checks();
                let mut cx: i32 = if with_checks {
                    0
                } else {
                    (#[verifier::truncate] (caption_width.wrapping_sub(check_width) as i32)) / 2
                };
                let mut cy: i32 = (#[verifier::truncate] (size.1 as i32)) / 2;
                if self.base.pressed && self.holded_when_pushed {
                    cx = cx.wrapping_add(1);
                    cy = cy.wrapping_add(1);
                }
                let font = if with_checks {
                    self.font
                } else {
                    self.font.layout_horizontal(TextLayoutHorizontal::MIDDLE)
                };
                draw_text_in(
                    buf,
                    (check_width, 0),
                    (size.0 - hotkey_width, size.1),
                    &font.color(theme.font),
                    self.text.as_str(),
                    (cx, cy),
                    fonts,
                );
                let ghost b2 = *buf;
                let ghost lc = fonts.lines();
                draw_text_in(
                    buf,
                    (size.0 - hotkey_width, 0),
                    size,
                    &self.font.layout_horizontal(TextLayoutHorizontal::MIDDLE).color(theme.hotkey),
                    hotkey_text.as_str(),
                    ((#[verifier::truncate] (hotkey_width as i32)) / 2, cy_of(size.1)),
                    fonts,
                );
                let ghost b3 = *buf;
                let ghost ld = fonts.lines();
                draw_text_in(
                    buf,
                    (0, 0),
                    (check_width, size.1),
                    &self.font.color(theme.font).layout_horizontal(TextLayoutHorizontal::MIDDLE),
                    self.check_symbol(),
                    ((#[verifier::truncate] (check_width as i32)) / 2, cy_of(size.1)),
                    fonts,
                );
                proof {
                    lemma_same_outside_trans(&b0, &b1, &b2);
                    lemma_same_outside_trans(&b0, &b2, &b3);
                    lemma_same_outside_trans(&b0, &b3, buf);
                    assert(button_steps(bt0, *theme, b0, *buf, l0, fonts.lines(), la, lb, lc, ld, b1, b2, b3));
                }
            }
        }
        false
    }
}

/// Half of a height, as an `i32` (wrapping as `as` does), rounded towards zero.
fn cy_of(h: usize) -> (r: i32)
    ensures
        r == tdiv((h as i32) as int, 2),
{
    let v: i32 = #[verifier::truncate] (h as i32);
    v / 2
}

/// A check box's pixel `p` once its face is shaded: lightened when checked, then lightened
/// again (checked) or darkened (unchecked) when `lit`.
pub open spec fn check_box_shade(checked: bool, lit: bool, p: u32) -> u32 {
    let p1 = if checked {
        WhitenHalf.spec_apply(p, ())
    } else {
        p
    };
    if lit {
        if checked {
            WhitenHalf.spec_apply(p1, ())
        } else {
            BlackenEighth.spec_apply(p1, ())
        }
    } else {
        p1
    }
}

/// The steps of drawing the visible check box `cb` over a window that is not empty, with
/// the font lines `l0` before and `lf` after: `shaded` is the window once its face is shaded
/// and `l1` the lines once the check mark `V` is measured; when the caption and the mark fit,
/// `captioned` is the window once the caption is drawn, centred left of the mark (shifted by
/// one while held down), with the lines `l2`, and the mark is drawn after it when checked.
pub open spec fn check_box_steps(
    cb: CheckBox,
    before: ImageViewMut<u32>,
    after: ImageViewMut<u32>,
    l0: Seq<FontLine>,
    lf: Seq<FontLine>,
    l1: Seq<FontLine>,
    l2: Seq<FontLine>,
    shaded: ImageViewMut<u32>,
    captioned: ImageViewMut<u32>,
) -> bool {
    let size = before.spec_size();
    let vw = text_size(font_glyphs(l1, cb.font), "V"@).0;
    let cw: usize = if vw + vw > usize::MAX {
        usize::MAX
    } else {
        (vw + vw) as usize
    };
    let cx0 = tdiv((((size.0 - cw) as usize) as i32) as int, 2) as i32;
    let cy0 = tdiv((size.1 as i32) as int, 2) as i32;
    let held = cb.base.pressed && cb.holded_when_pushed;
    let cx = if held {
        cx0.wrapping_add(1)
    } else {
        cx0
    };
    let cy = if held {
        cy0.wrapping_add(1)
    } else {
        cy0
    };
    &&& lines_grow(l0, l1)
    &&& lines_grow(l1, l2)
    &&& lines_grow(l2, lf)
    &&& same_outside(&before, &shaded)
    &&& forall|x: int, y: int|
        #![trigger shaded.spec_at(x, y)]
        in_size(size, x, y) ==> shaded.spec_at(x, y) == check_box_shade(
            cb.checked,
            cb.base.pressed || cb.base.highlight,
            before.spec_at(x, y),
        )
    &&& if cw > size.0 {
        after == shaded && lf == l1
    } else {
        &&& same_outside(&shaded, &captioned)
        &&& forall|x: int, y: int|
            #![trigger captioned.spec_at(x, y)]
            in_size(size, x, y) ==> captioned.spec_at(x, y) == text_in_pixel(
                shaded,
                (0usize, 0usize),
                ((size.0 - cw) as usize, size.1),
                font_glyphs(l2, cb.font),
                cb.font,
                cb.text@,
                (cx, cy),
                x,
                y,
            )
        &&& if cb.checked {
            forall|x: int, y: int|
                #![trigger after.spec_at(x, y)]
                in_size(size, x, y) ==> after.spec_at(x, y) == text_in_pixel(
                    captioned,
                    ((size.0 - cw) as usize, 0usize),
                    size,
                    font_glyphs(lf, cb.font),
                    cb.font,
                    "V"@,
                    (tdiv((cw as i32) as int, 2) as i32, cy0),
                    x,
                    y,
                )
        } else {
            after == captioned && lf == l2
        }
    }
}

/// Whether drawing the check box `cb` turns the window `before` into `after` and the font
/// lines `l0` into `lf`: nothing is drawn when it is hidden or the window is empty; else it
/// goes through the steps of `check_box_steps`.
pub open spec fn check_box_drawn(
    cb: CheckBox,
    before: ImageViewMut<u32>,
    after: ImageViewMut<u32>,
    l0: Seq<FontLine>,
    lf: Seq<FontLine>,
) -> bool {
    if !cb.base.visible || before.spec_size().0 == 0 || before.spec_size().1 == 0 {
        after == before && lf == l0
    } else {
        exists|l1: Seq<FontLine>, l2: Seq<FontLine>, shaded: ImageViewMut<u32>, captioned: ImageViewMut<u32>|
            #[trigger] check_box_steps(cb, before, after, l0, lf, l1, l2, shaded, captioned)
    }
}

impl CheckBox {
    /// When the check box is visible: lightens a checked box, then lightens it again (checked)
    /// or darkens it (unchecked) while it is pressed or highlighted, draws the caption centred
    /// in the room left of the check mark (shifted while held down), and the check mark when
    /// checked.
    pub fn draw<L: FontLoader>(&mut self, buf: &mut ImageViewMut<u32>, fonts: &mut FontFactory<L>) -> (r: bool)
        requires
            old(fonts).wf(),
        ensures
            !r,
            final(fonts).wf(),
            lines_grow(old(fonts).lines(), final(fonts).lines()),
            final(fonts).lines().len() == old(fonts).lines().len(),
            *final(self) == *old(self),
            same_outside(old(buf), final(buf)),
            check_box_drawn(*old(self), *old(buf), *final(buf), old(fonts).lines(), final(fonts).lines()),
    {
        let ghost l0 = fonts.lines();
        let ghost bstart = *buf;
        if self.base.visible {
            let size = buf.get_size();
            if size.0 > 0 && size.1 > 0 {
                let ghost b0 = *buf;
                if self.checked {
                    buf.fill(&WhitenHalf);
                }
                let ghost b1 = *buf;
                if self.base.pressed || self.base.highlight {
                    if self.checked {
                        buf.fill(&WhitenHalf);
                    } else {
                        buf.fill(&BlackenEighth);
                    }
                }
                let ghost b2 = *buf;
                let vw = self.font.get_size("V", fonts).0;
                let ghost l1 = fonts.lines();
                let check_width = vw.saturating_add(vw);
                proof {
                    lemma_same_outside_trans(&b0, &b1, &b2);
                    assert forall|x: int, y: int| in_size(size, x, y) implies b2.spec_at(x, y) == check_box_shade(
                        self.checked,
                        self.base.pressed || self.base.highlight,
                        b0.spec_at(x, y),
                    ) by {
                        assert(b1.spec_at(x, y) == b1.spec_at(x, y));
                    }
                }
                if check_width <= size.0 {
                    let mut cx: i32 = (#[verifier::truncate] ((size.0 - check_width) as i32)) / 2;
                    let mut cy: i32 = cy_of(size.1);
                    if self.base.pressed && self.holded_when_pushed {
                        cx = cx.wrapping_add(1);
                        cy = cy.wrapping_add(1);
                    }
                    draw_text_in(buf, (0, 0), (size.0 - check_width, size.1), &self.font, self.text.as_str(), (cx, cy), fonts);
                    let ghost b3 = *buf;
                    let ghost l2 = fonts.lines();
                    if self.checked {
                        draw_text_in(
                            buf,
                            (size.0 - check_width, 0),
                            size,
                            &self.font,
                            "V",
                            ((#[verifier::truncate] (check_width as i32)) / 2, cy_of(size.1)),
                            fonts,
                        );
                    }
                    proof {
                        lemma_same_outside_trans(&b2, &b3, buf);
                        assert(check_box_steps(*self, b0, *buf, l0, fonts.lines(), l1, l2, b2, b3));
                    }
                } else {
                    proof {
                        assert(check_box_steps(*self, b0, *buf, l0, fonts.lines(), l1, l1, b2, b2));
                    }
                }
                proof {
                    lemma_same_outside_trans(&b0, &b2, buf);
                }
            }
        }
        false
    }
}

impl ListBox {
    /// When the list is to be drawn: the scroll bar takes the list's flags, is sized to the
    /// lines that fit (each `get_item_height` high) and drawn in its place, and the lines from
    /// its position on are drawn one under the other; gives what drawing the scroll bar gave.
    pub fn draw<L: FontLoader>(
        &mut self,
        buf: &mut ImageViewMut<u32>,
        theme: &GuiColorTheme,
        force: bool,
        fonts: &mut FontFactory<L>,
    ) -> (r: bool)
        requires
            old(fonts).wf(),
        ensures
            final(fonts).wf(),
            lines_grow(old(fonts).lines(), final(fonts).lines()),
            final(fonts).lines().len() == old(fonts).lines().len(),
            final(self).base == drawn_base(old(self).base),
            final(self).scroll_width == old(self).scroll_width,
            final(self).font == old(self).font,
            final(self).lines == old(self).lines,
            final(self).scroll.base.rect == old(self).scroll.base.rect,
            same_outside(old(buf), final(buf)),
            r,
    {
        if !self.base.can_draw(force) {
            return true;
        }
        self.scroll.base.highlight = self.base.highlight;
        self.scroll.base.focus = self.base.focus;
        self.scroll.base.pressed = self.base.pressed;
        let total_height: i64 = self.base.rect.right_bottom.1 as i64 - self.base.rect.left_top.1 as i64;
        let item_height = self.get_item_height(fonts);
        let divisor: i64 = if item_height >= 1 { item_height as i64 } else { 1 };
        let item_count: i64 = div_trunc(total_height + div_trunc(item_height as i64, 2), divisor);
        self.scroll.content_size = #[verifier::truncate] ((item_count - 1) as i32);
        self.scroll.scroll_range = #[verifier::truncate] (self.lines.len() as i32);
        let ghost b0 = *buf;
        let scroll_rect = self.scroll.base.rect;
        let rect = self.base.rect;
        let lt0: i64 = scroll_rect.left_top.0 as i64 - rect.left_top.0 as i64;
        let lt1: i64 = scroll_rect.left_top.1 as i64 - rect.left_top.1 as i64;
        let rb0: i64 = scroll_rect.right_bottom.0 as i64 - rect.left_top.0 as i64;
        let rb1: i64 = scroll_rect.right_bottom.1 as i64 - rect.left_top.1 as i64;
        let mut scroll_result = true;
        if lt0 >= 0 && lt1 >= 0 && rb0 >= 0 && rb1 >= 0 {
            let lt = (lt0 as usize, lt1 as usize);
            let rb = (rb0 as usize, rb1 as usize);
            if buf.fits(lt, rb) {
                let _ = buf.get_size();
                let prev = buf.window_mut(lt, rb);
                let ghost narrowed = *buf;
                scroll_result = self.scroll.draw(buf, theme, force);
                let ghost drawn = *buf;
                buf.restore_window(prev);
                proof {
                    crate::image::lemma_window_same_outside(&b0, &narrowed, &drawn, buf);
                }
            }
        }
        let ghost b1 = *buf;
        let position0: usize = if self.scroll.scroll_position >= 0 {
            self.scroll.scroll_position as usize
        } else {
            0
        };
        let first_line = if position0 < self.lines.len() {
            position0
        } else {
            self.lines.len()
        };
        let count: usize = #[verifier::truncate] ((item_count + 1) as usize);
        let last0 = first_line.saturating_add(count);
        let last_line = if last0 < self.lines.len() {
            last0
        } else {
            self.lines.len()
        };
        let font = self.font.color(theme.font);
        draw_lines(&self.lines, first_line, last_line, &font, item_height, buf, fonts);
        proof {
            lemma_same_outside_trans(&b0, &b1, buf);
        }
        scroll_result
    }
}

impl Button {
    /// The size a button captioned `text` with the given hot-key needs, as
    /// `GuiSystem::default_size` says.
    pub fn default_size<L: FontLoader>(
        text: &str,
        hotkey: Option<Hotkey>,
        font: &Font,
        fonts: &mut FontFactory<L>,
    ) -> (r: SizeConstraints)
        requires
            old(fonts).wf(),
        ensures
            final(fonts).wf(),
            lines_grow(old(fonts).lines(), final(fonts).lines()),
            final(fonts).lines().len() == old(fonts).lines().len(),
            r == default_size_spec(text@, hotkey, font_glyphs(final(fonts).lines(), *font)),
    {
        crate::gui::system::GuiSystem::default_size(text, hotkey, font, fonts)
    }

    fn default_check_size<L: FontLoader>(
        state: ButtonCheckState,
        text: &str,
        hotkey: Option<Hotkey>,
        font: &Font,
        fonts: &mut FontFactory<L>,
    ) -> (r: SizeConstraints)
        requires
            old(fonts).wf(),
        ensures
            final(fonts).wf(),
            lines_grow(old(fonts).lines(), final(fonts).lines()),
            final(fonts).lines().len() == old(fonts).lines().len(),
            ({
                let glyphs = font_glyphs(final(fonts).lines(), *font);
                let d = default_size_spec(text@, hotkey, glyphs);
                let symbol = match state {
                    ButtonCheckState::CheckBox(_) => "V"@,
                    ButtonCheckState::RadioButton(_) => "\u{25cf}"@,
                    _ => ""@,
                };
                r == SizeConstraints(
                    SizeConstraint {
                        absolute: d.0.absolute.wrapping_add(text_size(glyphs, symbol).0 as i32),
                        ..d.0
                    },
                    d.1,
                )
            }),
    {
        let symbol = Self::default_check_symbol_of_state(state);
        let _ = font.get_size(symbol, fonts);
        let _ = Self::default_size(text, hotkey, font, fonts);
        let check = font.measure(symbol, fonts);
        let size = crate::gui::system::GuiSystem::measured_default_size(text, hotkey, font, fonts);
        let width: i32 = #[verifier::truncate] (check.0 as i32);
        SizeConstraints(
            SizeConstraint { absolute: size.0.absolute.wrapping_add(width), ..size.0 },
            size.1,
        )
    }

    /// The size a check box button needs: the default size, widened by the check mark.
    pub fn default_checkbox_size<L: FontLoader>(
        text: &str,
        hotkey: Option<Hotkey>,
        font: &Font,
        fonts: &mut FontFactory<L>,
    ) -> (r: SizeConstraints)
        requires
            old(fonts).wf(),
        ensures
            final(fonts).wf(),
            lines_grow(old(fonts).lines(), final(fonts).lines()),
            final(fonts).lines().len() == old(fonts).lines().len(),
            ({
                let glyphs = font_glyphs(final(fonts).lines(), *font);
                let d = default_size_spec(text@, hotkey, glyphs);
                r == SizeConstraints(
                    SizeConstraint {
                        absolute: d.0.absolute.wrapping_add(text_size(glyphs, "V"@).0 as i32),
                        ..d.0
                    },
                    d.1,
                )
            }),
    {
        Self::default_check_size(ButtonCheckState::CheckBox(true), text, hotkey, font, fonts)
    }

    /// The size a radio button needs: the default size, widened by the radio mark.
    pub fn default_radiobutton_size<L: FontLoader>(
        text: &str,
        hotkey: Option<Hotkey>,
        font: &Font,
        fonts: &mut FontFactory<L>,
    ) -> (r: SizeConstraints)
        requires
            old(fonts).wf(),
        ensures
            final(fonts).wf(),
            lines_grow(old(fonts).lines(), final(fonts).lines()),
            final(fonts).lines().len() == old(fonts).lines().len(),
            ({
                let glyphs = font_glyphs(final(fonts).lines(), *font);
                let d = default_size_spec(text@, hotkey, glyphs);
                r == SizeConstraints(
                    SizeConstraint {
                        absolute: d.0.absolute.wrapping_add(text_size(glyphs, "\u{25cf}"@).0 as i32),
                        ..d.0
                    },
                    d.1,
                )
            }),
    {
        Self::default_check_size(ButtonCheckState::RadioButton(true), text, hotkey, font, fonts)
    }
}

/// Selecting button number `to` of a radio group checks it, whatever was selected before.
pub proof fn law_selected_button_checked(children: Seq<Control>, buttons: Seq<usize>, from: int, to: int)
    requires
        0 <= to < buttons.len(),
        (buttons[to] as int) < children.len(),
        children[buttons[to] as int] matches Control::Button(b) && (b.check_state is RadioButton
            || b.check_state is GroupButton),
    ensures
        select_children(children, buttons, from, to)[buttons[to] as int] matches Control::Button(b)
            && spec_checked(b.check_state),
{
}

/// Selecting another button of a radio group unchecks the one selected before.
pub proof fn law_previous_button_unchecked(children: Seq<Control>, buttons: Seq<usize>, from: int, to: int)
    requires
        0 <= from < buttons.len(),
        0 <= to < buttons.len(),
        buttons[from] != buttons[to],
        (buttons[from] as int) < children.len(),
        children[buttons[from] as int] is Button,
    ensures
        select_children(children, buttons, from, to)[buttons[from] as int] matches Control::Button(b)
            && !spec_checked(b.check_state),
{
}

/// Laid out, each child of a container ends along the layout's axis where the next one
/// starts, and the first starts where the container does.
pub proof fn law_children_adjacent(cs: Seq<SizeConstraints>, layout: ContainerLayout, rect: Rect, i: int)
    ensures
        main_coord(layout_rect(cs, layout, rect, i).right_bottom, layout) == main_coord(
            layout_rect(cs, layout, rect, i + 1).left_top,
            layout,
        ),
        main_coord(layout_rect(cs, layout, rect, 0).left_top, layout) == main_coord(rect.left_top, layout),
{
}

/// The constraint along the axis the children follow each other on.
pub open spec fn main_constraint(c: SizeConstraints, layout: ContainerLayout) -> SizeConstraint {
    match layout {
        ContainerLayout::Horizontal => c.0,
        ContainerLayout::Vertical => c.1,
    }
}

/// The constraint across that axis.
pub open spec fn cross_constraint(c: SizeConstraints, layout: ContainerLayout) -> SizeConstraint {
    match layout {
        ContainerLayout::Horizontal => c.1,
        ContainerLayout::Vertical => c.0,
    }
}

/// The coordinate of `p` along the main axis.
pub open spec fn main_coord(p: Position, layout: ContainerLayout) -> int {
    match layout {
        ContainerLayout::Horizontal => p.0 as int,
        ContainerLayout::Vertical => p.1 as int,
    }
}

/// The coordinate of `p` across the main axis.
pub open spec fn cross_coord(p: Position, layout: ContainerLayout) -> int {
    match layout {
        ContainerLayout::Horizontal => p.1 as int,
        ContainerLayout::Vertical => p.0 as int,
    }
}

/// The position with main coordinate `m` and cross coordinate `c`.
pub open spec fn make_position(m: int, c: int, layout: ContainerLayout) -> Position {
    match layout {
        ContainerLayout::Horizontal => (m as i32, c as i32),
        ContainerLayout::Vertical => (c as i32, m as i32),
    }
}

/// The sum of the main-axis absolute sizes of the first `n` children.
pub open spec fn sum_absolute(cs: Seq<SizeConstraints>, layout: ContainerLayout, n: int) -> int
    decreases n,
{
    if n <= 0 {
        0
    } else {
        sum_absolute(cs, layout, n - 1) + main_constraint(cs[n - 1], layout).absolute
    }
}

/// The sum of the main-axis relative sizes of the first `n` children.
pub open spec fn sum_relative(cs: Seq<SizeConstraints>, layout: ContainerLayout, n: int) -> int
    decreases n,
{
    if n <= 0 {
        0
    } else {
        sum_relative(cs, layout, n - 1) + main_constraint(cs[n - 1], layout).relative
    }
}

/// Where, from the start of the container along the main axis, the child number `n` starts:
/// the absolute sizes before it shared out over the room, plus the relative sizes before it
/// shared out over the room the absolute sizes leave.
pub open spec fn layout_shift(cs: Seq<SizeConstraints>, layout: ContainerLayout, rect: Rect, n: int) -> int {
    let size = main_coord(rect.right_bottom, layout) - main_coord(rect.left_top, layout);
    let total_absolute0 = sum_absolute(cs, layout, cs.len() as int);
    let total_relative0 = sum_relative(cs, layout, cs.len() as int);
    let total_relative = if total_relative0 > 100 { total_relative0 } else { 100 };
    let remainder = if size > total_absolute0 { size - total_absolute0 } else { 0 };
    let total_absolute = if total_absolute0 > size { total_absolute0 } else { size };
    let total_absolute = if total_absolute > 1 { total_absolute } else { 1 };
    tdiv(sum_absolute(cs, layout, n) * size, total_absolute) + tdiv(
        sum_relative(cs, layout, n) * remainder,
        total_relative,
    )
}

/// The rectangle of the child number `i` of a container laid out in `rect`: along the main
/// axis from its shift to the next one's; across it from the container's start, as wide as
/// its absolute size plus its relative share of the room left, but no wider than the
/// container. Coordinates wrap to `i32` as `as` does.
pub open spec fn layout_rect(cs: Seq<SizeConstraints>, layout: ContainerLayout, rect: Rect, i: int) -> Rect {
    let cross_size = cross_coord(rect.right_bottom, layout) - cross_coord(rect.left_top, layout);
    let c = cross_constraint(cs[i], layout);
    let cross_end0 = cross_coord(rect.left_top, layout) + c.absolute + tdiv(
        (cross_size - c.absolute) * c.relative,
        100,
    );
    let cross_end = if cross_end0 < cross_coord(rect.right_bottom, layout) {
        cross_end0
    } else {
        cross_coord(rect.right_bottom, layout)
    };
    Rect {
        left_top: make_position(
            main_coord(rect.left_top, layout) + layout_shift(cs, layout, rect, i),
            cross_coord(rect.left_top, layout),
            layout,
        ),
        right_bottom: make_position(
            main_coord(rect.left_top, layout) + layout_shift(cs, layout, rect, i + 1),
            cross_end,
            layout,
        ),
    }
}

fn main_of(c: SizeConstraints, layout: ContainerLayout) -> (r: SizeConstraint)
    ensures
        r == main_constraint(c, layout),
{
    match layout {
        ContainerLayout::Horizontal => c.0,
        ContainerLayout::Vertical => c.1,
    }
}

fn cross_of(c: SizeConstraints, layout: ContainerLayout) -> (r: SizeConstraint)
    ensures
        r == cross_constraint(c, layout),
{
    match layout {
        ContainerLayout::Horizontal => c.1,
        ContainerLayout::Vertical => c.0,
    }
}

fn main_coord_of(p: Position, layout: ContainerLayout) -> (r: i32)
    ensures
        r == main_coord(p, layout),
{
    match layout {
        ContainerLayout::Horizontal => p.0,
        ContainerLayout::Vertical => p.1,
    }
}

fn cross_coord_of(p: Position, layout: ContainerLayout) -> (r: i32)
    ensures
        r == cross_coord(p, layout),
{
    match layout {
        ContainerLayout::Horizontal => p.1,
        ContainerLayout::Vertical => p.0,
    }
}

fn position_of(m: i128, c: i128, layout: ContainerLayout) -> (r: Position)
    ensures
        r == make_position(m as int, c as int, layout),
{
    match layout {
        ContainerLayout::Horizontal => (#[verifier::truncate] (m as i32), #[verifier::truncate] (c as i32)),
        ContainerLayout::Vertical => (#[verifier::truncate] (c as i32), #[verifier::truncate] (m as i32)),
    }
}

/// Whether every running sum of the children's main-axis absolute sizes, and of their
/// relative sizes, fits in an `i32`, as the sums are kept.
pub open spec fn layout_sums_fit(cs: Seq<SizeConstraints>, layout: ContainerLayout) -> bool {
    forall|k: int|
        0 <= k <= cs.len() ==> i32::MIN <= #[trigger] sum_absolute(cs, layout, k) <= i32::MAX && i32::MIN
            <= sum_relative(cs, layout, k) <= i32::MAX
}

/// Whether the running sums of the sizes in `cs` fit in an `i32`, as `layout_sums_fit` says.
pub fn layout_sums_fit_of(cs: &Vec<SizeConstraints>, layout: ContainerLayout) -> (r: bool)
    ensures
        r == layout_sums_fit(cs@, layout),
{
    let mut a: i128 = 0;
    let mut rel: i128 = 0;
    let mut i: usize = 0;
    while i < cs.len()
        invariant
            i <= cs.len(),
            a == sum_absolute(cs@, layout, i as int),
            rel == sum_relative(cs@, layout, i as int),
            forall|k: int|
                0 <= k <= i ==> i32::MIN <= #[trigger] sum_absolute(cs@, layout, k) <= i32::MAX && i32::MIN
                    <= sum_relative(cs@, layout, k) <= i32::MAX,
        decreases cs.len() - i,
    {
        assert(i32::MIN <= sum_absolute(cs@, layout, i as int) <= i32::MAX);
        let c = main_of(cs[i], layout);
        a = a + c.absolute as i128;
        rel = rel + c.relative as i128;
        if a < i32::MIN as i128 || a > i32::MAX as i128 || rel < i32::MIN as i128 || rel > i32::MAX as i128 {
            assert(sum_absolute(cs@, layout, i + 1) == a);
            return false;
        }
        i += 1;
    }
    true
}

/// The rectangles of the children of a container laid out in `rect` with the given layout,
/// children whose size constraints are `cs`, as `layout_rect` says.
pub fn layout_rects(rect: Rect, cs: &Vec<SizeConstraints>, layout: ContainerLayout) -> (r: Vec<Rect>)
    requires
        layout_sums_fit(cs@, layout),
    ensures
        r.len() == cs.len(),
        forall|i: int| 0 <= i < cs.len() ==> #[trigger] r@[i] == layout_rect(cs@, layout, rect, i),
{
    let n = cs.len();
    let mut total_absolute0: i128 = 0;
    let mut total_relative0: i128 = 0;
    let mut i: usize = 0;
    while i < n
        invariant
            i <= n,
            n == cs.len(),
            layout_sums_fit(cs@, layout),
            total_absolute0 == sum_absolute(cs@, layout, i as int),
            total_relative0 == sum_relative(cs@, layout, i as int),
        decreases n - i,
    {
        assert(i32::MIN <= sum_absolute(cs@, layout, i as int) <= i32::MAX);
        let c = main_of(cs[i], layout);
        total_absolute0 = total_absolute0 + c.absolute as i128;
        total_relative0 = total_relative0 + c.relative as i128;
        i += 1;
    }
    assert(i32::MIN <= sum_absolute(cs@, layout, n as int) <= i32::MAX);
    let size: i128 = main_coord_of(rect.right_bottom, layout) as i128 - main_coord_of(rect.left_top, layout) as i128;
    let cross_size: i128 = cross_coord_of(rect.right_bottom, layout) as i128 - cross_coord_of(rect.left_top, layout) as i128;
    let total_relative: i128 = if total_relative0 > 100 { total_relative0 } else { 100 };
    let remainder: i128 = if size > total_absolute0 { size - total_absolute0 } else { 0 };
    let total_absolute1: i128 = if total_absolute0 > size { total_absolute0 } else { size };
    let total_absolute: i128 = if total_absolute1 > 1 { total_absolute1 } else { 1 };
    let main_start: i128 = main_coord_of(rect.left_top, layout) as i128;
    let cross_start: i128 = cross_coord_of(rect.left_top, layout) as i128;
    let cross_limit: i128 = cross_coord_of(rect.right_bottom, layout) as i128;
    let mut result: Vec<Rect> = Vec::new();
    let mut sum_abs: i128 = 0;
    let mut sum_rel: i128 = 0;
    let mut current_shift: i128 = 0;
    let mut i: usize = 0;
    while i < n
        invariant
            i <= n,
            n == cs.len(),
            layout_sums_fit(cs@, layout),
            i32::MIN <= total_absolute0 <= i32::MAX,
            i32::MIN <= total_relative0 <= i32::MAX,
            total_absolute0 == sum_absolute(cs@, layout, n as int),
            total_relative0 == sum_relative(cs@, layout, n as int),
            size == main_coord(rect.right_bottom, layout) - main_coord(rect.left_top, layout),
            cross_size == cross_coord(rect.right_bottom, layout) - cross_coord(rect.left_top, layout),
            total_relative == (if total_relative0 > 100 { total_relative0 } else { 100 }),
            remainder == (if size > total_absolute0 { size - total_absolute0 } else { 0 }),
            total_absolute1 == (if total_absolute0 > size { total_absolute0 } else { size }),
            total_absolute == (if total_absolute1 > 1 { total_absolute1 } else { 1 }),
            main_start == main_coord(rect.left_top, layout),
            cross_start == cross_coord(rect.left_top, layout),
            cross_limit == cross_coord(rect.right_bottom, layout),
            sum_abs == sum_absolute(cs@, layout, i as int),
            sum_rel == sum_relative(cs@, layout, i as int),
            current_shift == layout_shift(cs@, layout, rect, i as int),
            -0x4_0000_0000_0000_0000_0000_0000_0000 <= current_shift <= 0x4_0000_0000_0000_0000_0000_0000_0000,
            result.len() == i,
            forall|j: int| 0 <= j < i ==> #[trigger] result@[j] == layout_rect(cs@, layout, rect, j),
        decreases n - i,
    {
        assert(i32::MIN <= sum_absolute(cs@, layout, i as int) <= i32::MAX);
        assert(i32::MIN <= sum_absolute(cs@, layout, i + 1) <= i32::MAX);
        let c_main = main_of(cs[i], layout);
        let c_cross = cross_of(cs[i], layout);
        sum_abs = sum_abs + c_main.absolute as i128;
        sum_rel = sum_rel + c_main.relative as i128;
        assert(-0x8000_0000 * 0x100_0000 <= sum_abs <= 0x7FFF_FFFF * 0x100_0000);
        assert(-0x8000_0000 * 0x100_0000 <= sum_rel <= 0x7FFF_FFFF * 0x100_0000);
        assert(-0x8000_0000 * 0x100_0000 <= total_absolute0 <= 0x7FFF_FFFF * 0x100_0000);
        assert(-0x100_0000_0000_0000_0000_0000 <= sum_abs * size <= 0x100_0000_0000_0000_0000_0000) by (nonlinear_arith)
            requires
                -0x8000_0000 * 0x100_0000 <= sum_abs <= 0x7FFF_FFFF * 0x100_0000,
                -0x1_0000_0000 <= size <= 0x1_0000_0000,
        ;
        assert(0 <= remainder <= 0x100_0000_0000_0000);
        assert(-0x1_0000_0000_0000_0000_0000_0000_0000 <= sum_rel * remainder <= 0x1_0000_0000_0000_0000_0000_0000_0000) by (nonlinear_arith)
            requires
                -0x8000_0000 * 0x100_0000 <= sum_rel <= 0x7FFF_FFFF * 0x100_0000,
                0 <= remainder <= 0x100_0000_0000_0000,
        ;
        let first = div_trunc_wide(sum_abs * size, total_absolute);
        let second = div_trunc_wide(sum_rel * remainder, total_relative);
        assert(-0x100_0000_0000_0000_0000_0000 <= first <= 0x100_0000_0000_0000_0000_0000) by (nonlinear_arith)
            requires
                -0x100_0000_0000_0000_0000_0000 <= sum_abs * size <= 0x100_0000_0000_0000_0000_0000,
                total_absolute >= 1,
                first == tdiv(sum_abs * size, total_absolute as int),
        ;
        assert(-0x1_0000_0000_0000_0000_0000_0000_0000 <= second <= 0x1_0000_0000_0000_0000_0000_0000_0000) by (nonlinear_arith)
            requires
                -0x1_0000_0000_0000_0000_0000_0000_0000 <= sum_rel * remainder <= 0x1_0000_0000_0000_0000_0000_0000_0000,
                total_relative >= 1,
                second == tdiv(sum_rel * remainder, total_relative as int),
        ;
        let next_shift = first + second;
        assert(-0x1_0000_0000_0000_0000 <= (cross_size - c_cross.absolute) * c_cross.relative <= 0x1_0000_0000_0000_0000) by (nonlinear_arith)
            requires
                -0x2_0000_0000 <= cross_size - c_cross.absolute <= 0x2_0000_0000,
                -0x8000_0000 <= c_cross.relative <= 0x7FFF_FFFF,
        ;
        let share = div_trunc_wide((cross_size - c_cross.absolute as i128) * c_cross.relative as i128, 100);
        assert(-0x1_0000_0000_0000_0000 <= share <= 0x1_0000_0000_0000_0000) by (nonlinear_arith)
            requires
                -0x1_0000_0000_0000_0000 <= (cross_size - c_cross.absolute) * c_cross.relative <= 0x1_0000_0000_0000_0000,
                share == tdiv((cross_size - c_cross.absolute) * c_cross.relative, 100),
        ;
        let cross_end0 = cross_start + c_cross.absolute as i128 + share;
        let cross_end = if cross_end0 < cross_limit { cross_end0 } else { cross_limit };
        let child_rect = Rect {
            left_top: position_of(main_start + current_shift, cross_start, layout),
            right_bottom: position_of(main_start + next_shift, cross_end, layout),
        };
        result.push(child_rect);
        current_shift = next_shift;
        i += 1;
    }
    result
}


/// A value of `i32` range keeps its value as an `i32`.
proof fn lemma_i32_cast(x: int)
    requires
        i32::MIN <= x <= i32::MAX,
    ensures
        (x as i32) as int == x,
{
}

/// With sizes that are not negative, the running sums do not decrease.
proof fn lemma_sums_grow(cs: Seq<SizeConstraints>, layout: ContainerLayout, i: int, j: int)
    requires
        0 <= i <= j <= cs.len(),
        forall|k: int|
            0 <= k < cs.len() ==> 0 <= #[trigger] main_constraint(cs[k], layout).absolute && 0
                <= main_constraint(cs[k], layout).relative,
    ensures
        0 <= sum_absolute(cs, layout, i) <= sum_absolute(cs, layout, j),
        0 <= sum_relative(cs, layout, i) <= sum_relative(cs, layout, j),
    decreases j,
{
    if j > i {
        lemma_sums_grow(cs, layout, i, j - 1);
        assert(0 <= main_constraint(cs[j - 1], layout).absolute);
    } else if i > 0 {
        lemma_sums_grow(cs, layout, i - 1, i - 1);
        assert(0 <= main_constraint(cs[i - 1], layout).absolute);
    }
}

/// The shifts of the children do not decrease, start at 0, and end at the container's size
/// when the children cover it.
proof fn lemma_shifts(cs: Seq<SizeConstraints>, layout: ContainerLayout, rect: Rect, i: int, j: int)
    requires
        0 <= i <= j <= cs.len(),
        main_coord(rect.left_top, layout) <= main_coord(rect.right_bottom, layout),
        forall|k: int|
            0 <= k < cs.len() ==> 0 <= #[trigger] main_constraint(cs[k], layout).absolute && 0
                <= main_constraint(cs[k], layout).relative,
        sum_absolute(cs, layout, cs.len() as int) >= main_coord(rect.right_bottom, layout) - main_coord(
            rect.left_top,
            layout,
        ) || sum_relative(cs, layout, cs.len() as int) >= 100,
    ensures
        layout_shift(cs, layout, rect, 0) == 0,
        0 <= layout_shift(cs, layout, rect, i) <= layout_shift(cs, layout, rect, j),
        layout_shift(cs, layout, rect, cs.len() as int) == main_coord(rect.right_bottom, layout) - main_coord(
            rect.left_top,
            layout,
        ),
{
    let n = cs.len() as int;
    let size = main_coord(rect.right_bottom, layout) - main_coord(rect.left_top, layout);
    let ta0 = sum_absolute(cs, layout, n);
    let tr0 = sum_relative(cs, layout, n);
    let tr = if tr0 > 100 { tr0 } else { 100 };
    let rem = if size > ta0 { size - ta0 } else { 0 };
    let ta1 = if ta0 > size { ta0 } else { size };
    let ta = if ta1 > 1 { ta1 } else { 1 };
    lemma_sums_grow(cs, layout, i, j);
    lemma_sums_grow(cs, layout, j, n);
    lemma_sums_grow(cs, layout, 0, 0);
    let ai = sum_absolute(cs, layout, i);
    let aj = sum_absolute(cs, layout, j);
    let ri = sum_relative(cs, layout, i);
    let rj = sum_relative(cs, layout, j);
    assert(0 <= rem);
    assert(ta >= 1 && tr >= 1);
    assert(0 <= ai * size <= aj * size) by (nonlinear_arith)
        requires
            0 <= ai <= aj,
            0 <= size,
    ;
    assert(0 <= ri * rem <= rj * rem) by (nonlinear_arith)
        requires
            0 <= ri <= rj,
            0 <= rem,
    ;
    assert((ai * size) / ta <= (aj * size) / ta) by (nonlinear_arith)
        requires
            0 <= ai * size <= aj * size,
            ta >= 1,
    ;
    assert((ri * rem) / tr <= (rj * rem) / tr) by (nonlinear_arith)
        requires
            0 <= ri * rem <= rj * rem,
            tr >= 1,
    ;
    assert(0 <= (ai * size) / ta) by (nonlinear_arith)
        requires
            0 <= ai * size,
            ta >= 1,
    ;
    assert(0 <= (ri * rem) / tr) by (nonlinear_arith)
        requires
            0 <= ri * rem,
            tr >= 1,
    ;
    if ta0 >= size {
        if ta0 >= 1 {
            assert((ta0 * size) / ta0 == size) by (nonlinear_arith)
                requires
                    ta0 >= 1,
                    size >= 0,
            ;
        } else {
            assert(size == 0);
        }
        assert(rem == 0);
    } else {
        assert(tr0 >= 100);
        assert((ta0 * size) / size == ta0) by (nonlinear_arith)
            requires
                size >= 1,
                ta0 >= 0,
        ;
        assert((tr0 * rem) / tr0 == rem) by (nonlinear_arith)
            requires
                tr0 >= 1,
                rem >= 0,
        ;
    }
}

/// The children of a container laid out in a valid rectangle, with sizes that are not
/// negative and relative sizes across of at most 100, tile it along the layout's axis when
/// they cover it (their absolute sizes add up to its size or more, or their relative sizes
/// to 100 or more): the first starts where the rectangle does, each starts where the one
/// before ends and ends no sooner than it starts, and the last ends where the rectangle
/// does; across, each starts at the rectangle's start and ends within it.
pub proof fn law_layout_tiles(cs: Seq<SizeConstraints>, layout: ContainerLayout, rect: Rect)
    requires
        cs.len() >= 1,
        main_coord(rect.left_top, layout) <= main_coord(rect.right_bottom, layout),
        cross_coord(rect.left_top, layout) <= cross_coord(rect.right_bottom, layout),
        forall|k: int|
            0 <= k < cs.len() ==> 0 <= #[trigger] main_constraint(cs[k], layout).absolute && 0
                <= main_constraint(cs[k], layout).relative && 0 <= cross_constraint(cs[k], layout).absolute
                && 0 <= cross_constraint(cs[k], layout).relative <= 100,
        sum_absolute(cs, layout, cs.len() as int) >= main_coord(rect.right_bottom, layout) - main_coord(
            rect.left_top,
            layout,
        ) || sum_relative(cs, layout, cs.len() as int) >= 100,
    ensures
        main_coord(layout_rect(cs, layout, rect, 0).left_top, layout) == main_coord(rect.left_top, layout),
        main_coord(layout_rect(cs, layout, rect, cs.len() - 1).right_bottom, layout) == main_coord(
            rect.right_bottom,
            layout,
        ),
        forall|i: int|
            0 <= i < cs.len() - 1 ==> main_coord(#[trigger] layout_rect(cs, layout, rect, i).right_bottom, layout)
                == main_coord(layout_rect(cs, layout, rect, i + 1).left_top, layout),
        forall|i: int|
            0 <= i < cs.len() ==> {
                let r = #[trigger] layout_rect(cs, layout, rect, i);
                &&& main_coord(rect.left_top, layout) <= main_coord(r.left_top, layout) <= main_coord(
                    r.right_bottom,
                    layout,
                ) <= main_coord(rect.right_bottom, layout)
                &&& cross_coord(r.left_top, layout) == cross_coord(rect.left_top, layout)
                &&& cross_coord(r.left_top, layout) <= cross_coord(r.right_bottom, layout) <= cross_coord(
                    rect.right_bottom,
                    layout,
                )
            },
{
    let n = cs.len() as int;
    let start = main_coord(rect.left_top, layout);
    let end = main_coord(rect.right_bottom, layout);
    assert forall|i: int| 0 <= i < n implies {
        let r = #[trigger] layout_rect(cs, layout, rect, i);
        &&& start <= main_coord(r.left_top, layout) <= main_coord(r.right_bottom, layout) <= end
        &&& main_coord(r.left_top, layout) == start + layout_shift(cs, layout, rect, i)
        &&& main_coord(r.right_bottom, layout) == start + layout_shift(cs, layout, rect, i + 1)
        &&& cross_coord(r.left_top, layout) == cross_coord(rect.left_top, layout)
        &&& cross_coord(r.left_top, layout) <= cross_coord(r.right_bottom, layout) <= cross_coord(
            rect.right_bottom,
            layout,
        )
    } by {
        lemma_shifts(cs, layout, rect, i, i + 1);
        lemma_shifts(cs, layout, rect, i + 1, n);
        let s0 = layout_shift(cs, layout, rect, i);
        let s1 = layout_shift(cs, layout, rect, i + 1);
        lemma_i32_cast(start + s0);
        lemma_i32_cast(start + s1);
        let cs0 = cross_coord(rect.left_top, layout);
        let ce = cross_coord(rect.right_bottom, layout);
        let c = cross_constraint(cs[i], layout);
        let x = (ce - cs0) - c.absolute;
        let q = tdiv(x * c.relative, 100);
        assert(0 <= c.absolute && 0 <= c.relative <= 100);
        if x >= 0 {
            assert(0 <= x * c.relative) by (nonlinear_arith)
                requires
                    x >= 0,
                    c.relative >= 0,
            ;
            assert(q >= 0);
        } else {
            assert(x * 100 <= x * c.relative <= 0) by (nonlinear_arith)
                requires
                    x < 0,
                    0 <= c.relative <= 100,
            ;
            assert(-(x * c.relative) <= -(x * 100));
            assert((-(x * c.relative)) / 100 <= -x) by (nonlinear_arith)
                requires
                    0 <= -(x * c.relative) <= -(x * 100),
            ;
            assert(q >= x);
        }
        let e0 = cs0 + c.absolute + q;
        let e = if e0 < ce { e0 } else { ce };
        assert(cs0 <= e <= ce);
        lemma_i32_cast(cs0);
        lemma_i32_cast(e);
    }
    lemma_shifts(cs, layout, rect, 0, n);
    lemma_shifts(cs, layout, rect, n - 1, n);
    assert(layout_rect(cs, layout, rect, 0) == layout_rect(cs, layout, rect, 0));
    assert(layout_rect(cs, layout, rect, n - 1) == layout_rect(cs, layout, rect, n - 1));
    assert forall|i: int| 0 <= i < n - 1 implies main_coord(
        #[trigger] layout_rect(cs, layout, rect, i).right_bottom,
        layout,
    ) == main_coord(layout_rect(cs, layout, rect, i + 1).left_top, layout) by {
        assert(layout_rect(cs, layout, rect, i + 1) == layout_rect(cs, layout, rect, i + 1));
    }
}


/// Relative sizes are percentages of the room that the absolute sizes leave: when the
/// children's absolute sizes along the layout's axis fit in the container and their relative
/// sizes add up to at most 100, the last child ends that many percent (rounded down) of the
/// room left after the absolute sizes, so that relative sizes under 100 in all leave the end
/// of the container empty. (Sizes are not negative and the container is not inverted.)
pub proof fn law_relative_sizes_are_percentages(
    cs: Seq<SizeConstraints>,
    layout: ContainerLayout,
    rect: Rect,
)
    requires
        cs.len() >= 1,
        main_coord(rect.left_top, layout) <= main_coord(rect.right_bottom, layout),
        forall|k: int|
            0 <= k < cs.len() ==> 0 <= #[trigger] main_constraint(cs[k], layout).absolute && 0
                <= main_constraint(cs[k], layout).relative,
        sum_absolute(cs, layout, cs.len() as int) <= main_coord(rect.right_bottom, layout)
            - main_coord(rect.left_top, layout),
        sum_relative(cs, layout, cs.len() as int) <= 100,
    ensures
        ({
            let start = main_coord(rect.left_top, layout);
            let room = main_coord(rect.right_bottom, layout) - start - sum_absolute(
                cs,
                layout,
                cs.len() as int,
            );
            let end = main_coord(layout_rect(cs, layout, rect, cs.len() - 1).right_bottom, layout);
            &&& end == start + sum_absolute(cs, layout, cs.len() as int) + sum_relative(
                cs,
                layout,
                cs.len() as int,
            ) * room / 100
            &&& sum_relative(cs, layout, cs.len() as int) < 100 && room > 0 ==> end < main_coord(
                rect.right_bottom,
                layout,
            )
        }),
{
    let n = cs.len() as int;
    let start = main_coord(rect.left_top, layout);
    let size = main_coord(rect.right_bottom, layout) - start;
    let a = sum_absolute(cs, layout, n);
    let rel = sum_relative(cs, layout, n);
    let room = size - a;
    lemma_sums_grow(cs, layout, n, n);
    assert(0 <= rel * room <= 100 * room) by (nonlinear_arith)
        requires
            0 <= rel <= 100,
            room >= 0,
    ;
    if size >= 1 {
        assert((a * size) / size == a) by (nonlinear_arith)
            requires
                size >= 1,
                a >= 0,
        ;
    } else {
        assert(a == 0 && size == 0);
    }
    assert(layout_shift(cs, layout, rect, n) == a + (rel * room) / 100);
    assert((rel * room) / 100 <= room) by (nonlinear_arith)
        requires
            0 <= rel * room <= 100 * room,
    ;
    if rel < 100 && room > 0 {
        assert(rel * room < 100 * room) by (nonlinear_arith)
            requires
                rel < 100,
                room > 0,
        ;
        assert((rel * room) / 100 < room) by (nonlinear_arith)
            requires
                0 <= rel * room < 100 * room,
        ;
    }
    lemma_i32_cast(start + a + (rel * room) / 100);
    assert(n - 1 + 1 == n);
}

} // verus!
