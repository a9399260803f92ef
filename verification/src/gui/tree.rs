//! Work on a tree of controls: the size a control needs, laying the tree out in a rectangle,
//! finding the control under a position, addressing a control by its path from the root,
//! collecting hot-keys, and handing a message to one control.

use vstd::prelude::*;
use crate::gui::gui_components::{
    Container, ContainerLayout, Control, RadioGroup, TabControl, base_of, with_base, child_count,
    child_of, layout_rect, layout_rects, layout_sums_fit, layout_sums_fit_of,
};
use crate::gui::{GuiColorTheme, GuiControlBase, GuiMessage, HotkeyCallback, MessageOutput, Rect, SizeConstraint, SizeConstraints, rect_contains, out_same};
use crate::gui::gui_components::{ListBox, RadioGroupCallback, drawn_base, select_children, button_job, button_message_post, check_box_message_post, list_scroll_rect, button_drawn, check_box_drawn, text_box_drawn};
use crate::gui::edit::edit_drawn;
use crate::gui::scroll::scroll_steps;
use crate::gui::filled_with;
use crate::gui::edit::edit_message_post;
use crate::gui::scroll::{ScrollV, scroll_message_post};
use crate::font::{FontFactory, FontLine, FontLoader, font_glyphs, lines_grow};
use crate::clipboard::ClipboardHandler;
use crate::image::{ImageSize, ImageViewMut, Position, SetPixel, same_outside, lemma_same_outside_trans, lemma_window_same_outside, in_size, fits};
use crate::keys::Hotkey;
use crate::job_system::Job;

verus! {

/// `r` made valid: its right-bottom corner is moved, along each axis where it lies before the
/// left-top one, onto the left-top one.
pub open spec fn normalize_rect(r: Rect) -> Rect {
    Rect {
        left_top: r.left_top,
        right_bottom: (
            if r.right_bottom.0 >= r.left_top.0 {
                r.right_bottom.0
            } else {
                r.left_top.0
            },
            if r.right_bottom.1 >= r.left_top.1 {
                r.right_bottom.1
            } else {
                r.left_top.1
            },
        ),
    }
}

/// The larger of two `i32`.
pub open spec fn max_i32(a: i32, b: i32) -> i32 {
    if a >= b {
        a
    } else {
        b
    }
}

/// The size constraints a control reports: its own, except that a container (that does not
/// compress) needs at least what its children need laid out, and tabs need the header's
/// width and height plus the selected tab's and a splitter line.
pub open spec fn spec_size_constraints(c: Control) -> SizeConstraints
    decreases c, 0int,
{
    match c {
        Control::Container(k) => container_constraints(k),
        Control::RadioGroup(g) => {
            proof {
                assert(decreases_to!(c => g));
                assert(decreases_to!(g => g.container));
            }
            container_constraints(g.container)
        },
        Control::TabControl(t) => {
            proof {
                assert(decreases_to!(c => t));
                assert(decreases_to!(t => t.header));
                assert(decreases_to!(t.header => t.header.container));
                assert(decreases_to!(t => t.children));
                assert(decreases_to!(t.children => t.children@));
            }
            let h = container_constraints(t.header.container);
            if t.header.selected_index < t.children@.len() {
                let tab = spec_size_constraints(t.children@[t.header.selected_index as int]);
                SizeConstraints(
                    SizeConstraint { absolute: max_i32(h.0.absolute, tab.0.absolute), ..h.0 },
                    SizeConstraint {
                        absolute: h.1.absolute.wrapping_add(tab.1.absolute).wrapping_add(1),
                        ..h.1
                    },
                )
            } else {
                SizeConstraints(h.0, SizeConstraint { absolute: h.1.absolute.wrapping_add(1), ..h.1 })
            }
        },
        _ => base_of(c).size_constraints,
    }
}

/// The size constraints a container reports: when it compresses, its own; otherwise its
/// current constraints with each absolute size raised to what its children need.
pub open spec fn container_constraints(k: Container) -> SizeConstraints
    decreases k, 0int,
{
    if k.support_compression {
        k.base.size_constraints
    } else {
        proof {
            assert(decreases_to!(k => k.children));
            assert(decreases_to!(k.children => k.children@));
        }
        let m = children_minimal(k.children@, k.layout, k.children@.len() as int);
        SizeConstraints(
            SizeConstraint {
                absolute: max_i32(k.base.size_constraints.0.absolute, m.0),
                ..k.base.current_size_constraints.0
            },
            SizeConstraint {
                absolute: max_i32(k.base.size_constraints.1.absolute, m.1),
                ..k.base.current_size_constraints.1
            },
        )
    }
}

/// What the first `n` children need laid out: along the layout's axis their absolute sizes
/// add up (wrapping as `i32` does), across it the largest counts.
pub open spec fn children_minimal(children: Seq<Control>, layout: ContainerLayout, n: int) -> (i32, i32)
    decreases children, n,
{
    if n <= 0 || n > children.len() {
        (0i32, 0i32)
    } else {
        let prev = children_minimal(children, layout, n - 1);
        let cc = spec_size_constraints(children[n - 1]);
        match layout {
            ContainerLayout::Vertical => (
                max_i32(prev.0, cc.0.absolute),
                prev.1.wrapping_add(cc.1.absolute),
            ),
            ContainerLayout::Horizontal => (
                prev.0.wrapping_add(cc.0.absolute),
                max_i32(prev.1, cc.1.absolute),
            ),
        }
    }
}

/// What reporting its size constraints does to the container `a`, giving `b`: a container
/// that compresses is left as it is; otherwise each child reports its own (as
/// `constraints_reported` says) and the container's current constraints become what it
/// reports (`container_constraints`); nothing else changes.
pub open spec fn container_reported(a: Container, b: Container) -> bool
    decreases a,
{
    if a.support_compression {
        b == a
    } else {
        proof {
            assert(decreases_to!(a => a.children));
            assert(decreases_to!(a.children => a.children@));
        }
        &&& b.base == (GuiControlBase { current_size_constraints: container_constraints(a), ..a.base })
        &&& b.layout == a.layout
        &&& b.support_compression == a.support_compression
        &&& b.children@.len() == a.children@.len()
        &&& forall|i: int|
            #![trigger b.children@[i]]
            0 <= i < a.children@.len() ==> constraints_reported(a.children@[i], b.children@[i])
    }
}

/// What reporting its size constraints does to the control `old`, giving `new`: containers
/// and radio groups as `container_reported` says; tabs have their header report, then the
/// selected tab, and their current constraints become what they report; every other
/// control is left as it is.
pub open spec fn constraints_reported(old: Control, new: Control) -> bool
    decreases old,
{
    match (old, new) {
        (Control::Container(a), Control::Container(b)) => container_reported(a, b),
        (Control::RadioGroup(a), Control::RadioGroup(b)) => {
            proof {
                assert(decreases_to!(old => a));
                assert(decreases_to!(a => a.container));
            }
            container_reported(a.container, b.container) && b == RadioGroup { container: b.container, ..a }
        },
        (Control::TabControl(a), Control::TabControl(b)) => {
            proof {
                assert(decreases_to!(old => a));
                assert(decreases_to!(a => a.header));
                assert(decreases_to!(a.header => a.header.container));
                assert(decreases_to!(a => a.children));
                assert(decreases_to!(a.children => a.children@));
            }
            &&& container_reported(a.header.container, b.header.container)
            &&& b.header == RadioGroup { container: b.header.container, ..a.header }
            &&& b.base == (GuiControlBase { current_size_constraints: spec_size_constraints(old), ..a.base })
            &&& b.height == a.height
            &&& b.font == a.font
            &&& b.children@.len() == a.children@.len()
            &&& forall|i: int|
                #![trigger b.children@[i]]
                0 <= i < a.children@.len() ==> if i == a.header.selected_index {
                    constraints_reported(a.children@[i], b.children@[i])
                } else {
                    b.children@[i] == a.children@[i]
                }
        },
        (Control::Container(_), _) => false,
        (Control::RadioGroup(_), _) => false,
        (Control::TabControl(_), _) => false,
        _ => new == old,
    }
}

/// Whether reporting its size constraints updates the control's current constraints: that of
/// a container that does not compress, and that of tabs.
pub open spec fn updates_current(c: Control) -> bool {
    match c {
        Control::Container(k) => !k.support_compression,
        Control::RadioGroup(g) => !g.container.support_compression,
        Control::TabControl(_) => true,
        _ => false,
    }
}

fn max_of(a: i32, b: i32) -> (r: i32)
    ensures
        r == max_i32(a, b),
{
    if a >= b {
        a
    } else {
        b
    }
}

impl Container {
    /// The size constraints the container reports, as `container_constraints` says; unless it
    /// compresses, they become its current constraints.
    pub fn get_size_constraints(&mut self) -> (r: SizeConstraints)
        ensures
            r == container_constraints(*old(self)),
            final(self).base == (if old(self).support_compression {
                old(self).base
            } else {
                GuiControlBase { current_size_constraints: r, ..old(self).base }
            }),
            final(self).children@.len() == old(self).children@.len(),
            final(self).layout == old(self).layout,
            final(self).support_compression == old(self).support_compression,
            container_reported(*old(self), *final(self)),
        decreases *old(self),
    {
        if self.support_compression {
            return self.base.size_constraints;
        }
        let n = self.children.len();
        let mut m: (i32, i32) = (0, 0);
        let mut i: usize = 0;
        while i < n
            invariant
                i <= n,
                n == self.children@.len(),
                n == old(self).children@.len(),
                self.base == old(self).base,
                self.layout == old(self).layout,
                self.support_compression == old(self).support_compression,
                forall|j: int| i <= j < n ==> self.children@[j] == old(self).children@[j],
                forall|j: int|
                    #![trigger self.children@[j]]
                    0 <= j < i ==> constraints_reported(old(self).children@[j], self.children@[j]),
                m == children_minimal(old(self).children@, old(self).layout, i as int),
            decreases n - i,
        {
            proof {
                assert(decreases_to!(*old(self) => old(self).children));
                assert(decreases_to!(old(self).children => old(self).children@));
                assert(decreases_to!(old(self).children@ => old(self).children@[i as int]));
            }
            let cc = self.children[i].get_size_constraints();
            m = match self.layout {
                ContainerLayout::Vertical => (max_of(m.0, cc.0.absolute), m.1.wrapping_add(cc.1.absolute)),
                ContainerLayout::Horizontal => (m.0.wrapping_add(cc.0.absolute), max_of(m.1, cc.1.absolute)),
            };
            i += 1;
        }
        let current = self.base.current_size_constraints;
        let result = SizeConstraints(
            SizeConstraint {
                absolute: max_of(self.base.size_constraints.0.absolute, m.0),
                ..current.0
            },
            SizeConstraint {
                absolute: max_of(self.base.size_constraints.1.absolute, m.1),
                ..current.1
            },
        );
        self.base.current_size_constraints = result;
        result
    }
}

impl Control {
    /// The state the control shares with every control.
    pub fn get_base(&self) -> (r: GuiControlBase)
        ensures
            r == base_of(*self),
    {
        match self {
            Control::Container(x) => x.base,
            Control::ColorBox(x) => x.base,
            Control::EmptySpace(x) => x.base,
            Control::Button(x) => x.base,
            Control::CheckBox(x) => x.base,
            Control::TextBox(x) => x.base,
            Control::Edit(x) => x.get_base(),
            Control::ScrollV(x) => x.base,
            Control::ListBox(x) => x.base,
            Control::RadioGroup(x) => x.container.base,
            Control::TabControl(x) => x.base,
        }
    }

    /// Replaces the state the control shares with every control.
    pub fn set_base(&mut self, base: GuiControlBase)
        ensures
            *final(self) == with_base(*old(self), base),
    {
        match self {
            Control::Container(x) => {
                x.base = base;
            },
            Control::ColorBox(x) => {
                x.base = base;
            },
            Control::EmptySpace(x) => {
                x.base = base;
            },
            Control::Button(x) => {
                x.base = base;
            },
            Control::CheckBox(x) => {
                x.base = base;
            },
            Control::TextBox(x) => {
                x.base = base;
            },
            Control::Edit(x) => {
                x.set_base(base);
            },
            Control::ScrollV(x) => {
                x.base = base;
            },
            Control::ListBox(x) => {
                x.base = base;
            },
            Control::RadioGroup(x) => {
                x.container.base = base;
            },
            Control::TabControl(x) => {
                x.base = base;
            },
        }
    }

    /// The size constraints the control reports, as `spec_size_constraints` says; those of
    /// containers that do not compress and of tabs become their current constraints.
    pub fn get_size_constraints(&mut self) -> (r: SizeConstraints)
        ensures
            r == spec_size_constraints(*old(self)),
            base_of(*final(self)) == (if updates_current(*old(self)) {
                GuiControlBase { current_size_constraints: r, ..base_of(*old(self)) }
            } else {
                base_of(*old(self))
            }),
            child_count(*final(self)) == child_count(*old(self)),
            constraints_reported(*old(self), *final(self)),
        decreases *old(self),
    {
        match self {
            Control::Container(k) => {
                proof {
                    assert(decreases_to!(*old(self) => old(self)->Container_0));
                }
                k.get_size_constraints()
            },
            Control::RadioGroup(g) => {
                proof {
                    assert(decreases_to!(*old(self) => old(self)->RadioGroup_0));
                    assert(decreases_to!(old(self)->RadioGroup_0 => old(self)->RadioGroup_0.container));
                }
                g.container.get_size_constraints()
            },
            Control::TabControl(t) => {
                proof {
                    assert(decreases_to!(*old(self) => old(self)->TabControl_0));
                    assert(decreases_to!(old(self)->TabControl_0 => old(self)->TabControl_0.header));
                    assert(decreases_to!(old(self)->TabControl_0.header => old(self)->TabControl_0.header.container));
                    assert(decreases_to!(old(self)->TabControl_0 => old(self)->TabControl_0.children));
                    assert(decreases_to!(old(self)->TabControl_0.children => old(self)->TabControl_0.children@));
                }
                let h = t.header.container.get_size_constraints();
                let sel = t.header.selected_index;
                let result = if sel < t.children.len() {
                    proof {
                        assert(decreases_to!(old(self)->TabControl_0.children@ => old(self)->TabControl_0.children@[sel as int]));
                    }
                    let tab = t.children[sel].get_size_constraints();
                    SizeConstraints(
                        SizeConstraint { absolute: max_of(h.0.absolute, tab.0.absolute), ..h.0 },
                        SizeConstraint {
                            absolute: h.1.absolute.wrapping_add(tab.1.absolute).wrapping_add(1),
                            ..h.1
                        },
                    )
                } else {
                    SizeConstraints(h.0, SizeConstraint { absolute: h.1.absolute.wrapping_add(1), ..h.1 })
                };
                t.base.current_size_constraints = result;
                result
            },
            Control::ColorBox(x) => x.base.size_constraints,
            Control::EmptySpace(x) => x.base.size_constraints,
            Control::Button(x) => x.base.size_constraints,
            Control::CheckBox(x) => x.base.size_constraints,
            Control::TextBox(x) => x.base.size_constraints,
            Control::Edit(x) => x.get_base().size_constraints,
            Control::ScrollV(x) => x.base.size_constraints,
            Control::ListBox(x) => x.base.size_constraints,
        }
    }
}

/// The current size constraints of each of `children`.
pub open spec fn child_currents(children: Seq<Control>) -> Seq<SizeConstraints> {
    Seq::new(children.len(), |i: int| base_of(children[i]).current_size_constraints)
}

/// The children `new` are `old` laid out in `rect` with `layout`: each is placed at the
/// rectangle `layout_rect` gives, made valid, and laid out below as `set_rect_post` says.
/// Children whose running sizes overflow an `i32` (see `layout_sums_fit`) are left as they are.
pub open spec fn laid_out(old: Seq<Control>, new: Seq<Control>, layout: ContainerLayout, rect: Rect) -> bool
    decreases old,
{
    &&& new.len() == old.len()
    &&& if layout_sums_fit(child_currents(old), layout) {
        forall|i: int|
            0 <= i < old.len() ==> {
                let r = normalize_rect(layout_rect(child_currents(old), layout, rect, i));
                &&& base_of(#[trigger] new[i]) == (GuiControlBase { rect: r, ..base_of(old[i]) })
                &&& set_rect_post(old[i], new[i], r)
            }
    } else {
        new == old
    }
}

/// The rectangle of the header of tabs laid out in `rect`: `rect` down to the line `height`.
pub open spec fn tab_header_rect(rect: Rect, height: i32) -> Rect {
    Rect { left_top: rect.left_top, right_bottom: (rect.right_bottom.0, height) }
}

/// The rectangle of the selected tab of tabs laid out in `rect`: `rect` from the line after
/// `height` down (wrapping as `i32` does).
pub open spec fn tab_page_rect(rect: Rect, height: i32) -> Rect {
    Rect { left_top: (rect.left_top.0, height.wrapping_add(1)), right_bottom: rect.right_bottom }
}

/// What laying `old` out in `rect` does below it: the children of containers and radio
/// groups are laid out; tabs lay out their header and their selected tab; a list box places
/// its scroll bar.
pub open spec fn set_rect_post(old: Control, new: Control, rect: Rect) -> bool
    decreases old,
{
    match (old, new) {
        (Control::Container(a), Control::Container(b)) => laid_out(
            a.children@,
            b.children@,
            a.layout,
            rect,
        ) && b.layout == a.layout && b.support_compression == a.support_compression,
        (Control::RadioGroup(a), Control::RadioGroup(b)) => laid_out(
            a.container.children@,
            b.container.children@,
            a.container.layout,
            rect,
        ) && b.buttons == a.buttons && b.selected_index == a.selected_index && b.callback
            == a.callback,
        (Control::TabControl(a), Control::TabControl(b)) => {
            let hr = normalize_rect(tab_header_rect(rect, a.height));
            &&& b.header.container.base == (GuiControlBase { rect: hr, ..a.header.container.base })
            &&& laid_out(
                a.header.container.children@,
                b.header.container.children@,
                a.header.container.layout,
                hr,
            )
            &&& b.header.selected_index == a.header.selected_index
            &&& b.header.buttons == a.header.buttons
            &&& b.children@.len() == a.children@.len()
            &&& forall|i: int|
                0 <= i < a.children@.len() ==> if i == a.header.selected_index {
                    &&& base_of(#[trigger] b.children@[i]) == GuiControlBase {
                        rect: normalize_rect(tab_page_rect(rect, a.height)),
                        ..base_of(a.children@[i])
                    }
                    &&& set_rect_post(a.children@[i], b.children@[i], normalize_rect(tab_page_rect(rect, a.height)))
                } else {
                    b.children@[i] == a.children@[i]
                }
            &&& b.height == a.height
        },
        (Control::ListBox(a), Control::ListBox(b)) => b == (crate::gui::gui_components::ListBox {
            base: b.base,
            scroll: crate::gui::scroll::ScrollV {
                base: GuiControlBase {
                    rect: crate::gui::gui_components::list_scroll_rect(rect, a.scroll_width),
                    ..a.scroll.base
                },
                ..a.scroll
            },
            ..a
        }),
        (Control::Container(_), _) => false,
        (Control::RadioGroup(_), _) => false,
        (Control::TabControl(_), _) => false,
        (Control::ListBox(_), _) => false,
        _ => new == with_base(old, base_of(new)),
    }
}

fn normalize(r: Rect) -> (n: Rect)
    ensures
        n == normalize_rect(r),
{
    Rect {
        left_top: r.left_top,
        right_bottom: (
            if r.right_bottom.0 >= r.left_top.0 {
                r.right_bottom.0
            } else {
                r.left_top.0
            },
            if r.right_bottom.1 >= r.left_top.1 {
                r.right_bottom.1
            } else {
                r.left_top.1
            },
        ),
    }
}

impl Container {
    /// Places the container at `rect` made valid and lays its children out in it, as
    /// `laid_out` says.
    #[verifier::spinoff_prover]
    #[verifier::rlimit(40)]
    pub fn set_rect(&mut self, rect: Rect)
        ensures
            final(self).base == (GuiControlBase { rect: normalize_rect(rect), ..old(self).base }),
            laid_out(old(self).children@, final(self).children@, old(self).layout, normalize_rect(rect)),
            final(self).layout == old(self).layout,
            final(self).support_compression == old(self).support_compression,
        decreases *old(self),
    {
        let r = normalize(rect);
        let n = self.children.len();
        {
            let mut cs: Vec<SizeConstraints> = Vec::new();
            let mut i: usize = 0;
            while i < n
                invariant
                    i <= n,
                    n == self.children@.len(),
                    self.children == old(self).children,
                    cs@ == child_currents(old(self).children@).take(i as int),
                decreases n - i,
            {
                cs.push(self.children[i].get_base().current_size_constraints);
                proof {
                    assert(cs@ =~= child_currents(old(self).children@).take(i + 1));
                }
                i += 1;
            }
            proof {
                assert(cs@ =~= child_currents(old(self).children@));
            }
            if !layout_sums_fit_of(&cs, self.layout) {
                self.base.rect = r;
                return;
            }
            let rects = layout_rects(r, &cs, self.layout);
            let mut i: usize = 0;
            while i < n
                invariant
                    i <= n,
                    n == self.children@.len(),
                    n == old(self).children@.len(),
                    layout_sums_fit(child_currents(old(self).children@), old(self).layout),
                    self.base == old(self).base,
                    self.layout == old(self).layout,
                    self.support_compression == old(self).support_compression,
                    rects@.len() == n,
                    cs@ == child_currents(old(self).children@),
                    r == normalize_rect(rect),
                    forall|j: int| 0 <= j < n ==> #[trigger] rects@[j] == layout_rect(cs@, old(self).layout, r, j),
                    forall|j: int| i <= j < n ==> self.children@[j] == old(self).children@[j],
                    forall|j: int|
                        0 <= j < i ==> {
                            let rj = normalize_rect(layout_rect(child_currents(old(self).children@), old(self).layout, r, j));
                            &&& base_of(#[trigger] self.children@[j]) == (GuiControlBase { rect: rj, ..base_of(old(self).children@[j]) })
                            &&& set_rect_post(old(self).children@[j], self.children@[j], rj)
                        },
                decreases n - i,
            {
                proof {
                    assert(decreases_to!(*old(self) => old(self).children));
                    assert(decreases_to!(old(self).children => old(self).children@));
                    assert(decreases_to!(old(self).children@ => old(self).children@[i as int]));
                }
                self.children[i].set_rect(rects[i]);
                i += 1;
            }
        }
        self.base.rect = r;
    }
}

impl TabControl {
    /// Places the tabs at `rect` made valid: the header is laid out in `tab_header_rect`, the
    /// selected tab in `tab_page_rect`.
    #[verifier::spinoff_prover]
    pub fn set_rect(&mut self, rect: Rect)
        ensures
            final(self).base == (GuiControlBase { rect: normalize_rect(rect), ..old(self).base }),
            set_rect_post(Control::TabControl(*old(self)), Control::TabControl(*final(self)), normalize_rect(rect)),
            final(self).header.container.layout == old(self).header.container.layout,
            final(self).header.container.support_compression == old(self).header.container.support_compression,
            final(self).header.callback == old(self).header.callback,
            final(self).font == old(self).font,
        decreases *old(self),
    {
        let r = normalize(rect);
        let header_rect = Rect { left_top: r.left_top, right_bottom: (r.right_bottom.0, self.height) };
        proof {
            assert(decreases_to!(*old(self) => old(self).header));
            assert(decreases_to!(old(self).header => old(self).header.container));
        }
        self.header.container.set_rect(header_rect);
        let sel = self.header.selected_index;
        if sel < self.children.len() {
            proof {
                assert(decreases_to!(*old(self) => old(self).children));
                assert(decreases_to!(old(self).children => old(self).children@));
                assert(decreases_to!(old(self).children@ => old(self).children@[sel as int]));
            }
            let page = Rect { left_top: (r.left_top.0, self.height.wrapping_add(1)), right_bottom: r.right_bottom };
            self.children[sel].set_rect(page);
        }
        self.base.rect = r;
    }
}

impl Control {
    /// Places the control at `rect` made valid, and lays out what is below it as
    /// `set_rect_post` says.
    pub fn set_rect(&mut self, rect: Rect)
        ensures
            base_of(*final(self)) == (GuiControlBase { rect: normalize_rect(rect), ..base_of(*old(self)) }),
            set_rect_post(*old(self), *final(self), normalize_rect(rect)),
            child_count(*final(self)) == child_count(*old(self)),
        decreases *old(self),
    {
        match self {
            Control::Container(k) => {
                proof {
                    assert(decreases_to!(*old(self) => old(self)->Container_0));
                }
                k.set_rect(rect);
            },
            Control::RadioGroup(g) => {
                proof {
                    assert(decreases_to!(*old(self) => old(self)->RadioGroup_0));
                    assert(decreases_to!(old(self)->RadioGroup_0 => old(self)->RadioGroup_0.container));
                }
                g.container.set_rect(rect);
            },
            Control::TabControl(t) => {
                proof {
                    assert(decreases_to!(*old(self) => old(self)->TabControl_0));
                }
                t.set_rect(rect);
            },
            Control::ListBox(l) => {
                let r = normalize(rect);
                l.base.rect = r;
                l.on_message(&crate::gui::GuiMessage::RectUpdated);
            },
            _ => {
                let mut base = self.get_base();
                base.rect = normalize(rect);
                self.set_base(base);
                proof {
                    crate::gui::gui_components::lemma_base_of_with_base(*old(self), base);
                }
            },
        }
    }
}

/// The control reached from `c` by following `path`: each step picks the child of that
/// number (for tabs, `0` is the header and `i + 1` the tab `i`); none if a step has no child.
pub open spec fn control_at(c: Control, path: Seq<usize>) -> Option<Control>
    decreases path.len(),
{
    if path.len() == 0 {
        Some(c)
    } else if path[0] < child_count(c) {
        control_at(child_of(c, path[0] as int), path.drop_first())
    } else {
        None
    }
}

/// `new` is `old` with child number `i` replaced (by `child_of(new, i)`), and nothing else
/// changed.
pub open spec fn same_except_child(old: Control, new: Control, i: int) -> bool {
    match (old, new) {
        (Control::Container(a), Control::Container(b)) => b == (Container { children: b.children, ..a })
            && b.children@.len() == a.children@.len() && forall|j: int|
            0 <= j < a.children@.len() && j != i ==> #[trigger] b.children@[j] == a.children@[j],
        (Control::RadioGroup(a), Control::RadioGroup(b)) => b == (RadioGroup {
            container: Container { children: b.container.children, ..a.container },
            ..a
        }) && b.container.children@.len() == a.container.children@.len() && forall|j: int|
            0 <= j < a.container.children@.len() && j != i ==> #[trigger] b.container.children@[j]
                == a.container.children@[j],
        (Control::TabControl(a), Control::TabControl(b)) => if i == 0 {
            b == (TabControl { header: b.header, ..a })
        } else {
            b == (TabControl { children: b.children, ..a }) && b.children@.len() == a.children@.len()
                && forall|j: int|
                0 <= j < a.children@.len() && j != i - 1 ==> #[trigger] b.children@[j]
                    == a.children@[j]
        },
        _ => false,
    }
}

/// `new` is `old` with the control at `path` replaced by `x`, and nothing else changed; when
/// `path` leads nowhere, `new` is `old`.
pub open spec fn replaced_at(old: Control, new: Control, path: Seq<usize>, x: Control) -> bool
    decreases path.len(),
{
    if path.len() == 0 {
        new == x
    } else if path[0] < child_count(old) {
        &&& same_except_child(old, new, path[0] as int)
        &&& child_count(new) == child_count(old)
        &&& replaced_at(child_of(old, path[0] as int), child_of(new, path[0] as int), path.drop_first(), x)
    } else {
        new == old
    }
}

/// What a control does itself on message `m`, turning `old` into `new`, the output `o` into
/// `n`, and returning `r`, with `lines` the font lines afterwards: buttons, check boxes,
/// edits, scroll bars and list boxes react as their own handlers say; the other controls
/// take no message.
pub open spec fn input_post(
    old: Control,
    new: Control,
    m: GuiMessage,
    o: MessageOutput,
    n: MessageOutput,
    r: bool,
    lines: Seq<FontLine>,
) -> bool {
    match (old, new) {
        (Control::Button(a), Control::Button(b)) => button_message_post(a, b, m, o, n, r),
        (Control::CheckBox(a), Control::CheckBox(b)) => check_box_message_post(a, b, m, r) && out_same(o, n),
        (Control::Edit(a), Control::Edit(b)) => edit_message_post(
            a,
            b,
            m,
            o,
            n,
            r,
            font_glyphs(lines, a.spec_font()),
        ),
        (Control::ScrollV(a), Control::ScrollV(b)) => scroll_message_post(a, b, m, r) && out_same(o, n),
        (Control::ListBox(a), Control::ListBox(b)) => out_same(o, n) && match m {
            GuiMessage::RectUpdated => r && b == (ListBox {
                scroll: ScrollV {
                    base: GuiControlBase { rect: list_scroll_rect(a.base.rect, a.scroll_width), ..a.scroll.base },
                    ..a.scroll
                },
                ..a
            }),
            _ => b == (ListBox { scroll: b.scroll, ..a }) && scroll_message_post(a.scroll, b.scroll, m, r),
        },
        (Control::Button(_), _) => false,
        (Control::CheckBox(_), _) => false,
        (Control::Edit(_), _) => false,
        (Control::ScrollV(_), _) => false,
        (Control::ListBox(_), _) => false,
        _ => !r && new == old && out_same(o, n),
    }
}

/// The search gives a number from `i` to the number of children, and the child it gives
/// contains the position.
pub proof fn lemma_first_containing(children: Seq<Control>, position: Position, i: int)
    requires
        0 <= i <= children.len(),
    ensures
        i <= first_containing(children, position, i) <= children.len(),
        first_containing(children, position, i) < children.len() ==> rect_contains(
            base_of(children[first_containing(children, position, i)]).rect,
            position,
        ),
    decreases children.len() - i,
{
    if i < children.len() && !rect_contains(base_of(children[i]).rect, position) {
        lemma_first_containing(children, position, i + 1);
    }
}

/// The first of `children`, from number `i` on, whose rectangle contains `position`, or the
/// number of children if none does.
pub open spec fn first_containing(children: Seq<Control>, position: Position, i: int) -> int
    decreases children.len() - i,
{
    if i >= children.len() || i < 0 {
        children.len() as int
    } else if rect_contains(base_of(children[i]).rect, position) {
        i
    } else {
        first_containing(children, position, i + 1)
    }
}

/// The path from `c` to the control under `position`: into the first child whose rectangle
/// contains it, and on from there; tabs look in the selected tab first, then in the header.
pub open spec fn find_path(c: Control, position: Position) -> Seq<usize>
    decreases c,
{
    match c {
        Control::Container(k) => {
            let i = first_containing(k.children@, position, 0);
            if i < k.children@.len() {
                proof {
                    lemma_first_containing(k.children@, position, 0);
                    assert(decreases_to!(c => k));
                    assert(decreases_to!(k => k.children));
                    assert(decreases_to!(k.children => k.children@));
                    assert(decreases_to!(k.children@ => k.children@[i]));
                }
                seq![i as usize] + find_path(k.children@[i], position)
            } else {
                Seq::empty()
            }
        },
        Control::RadioGroup(g) => {
            let i = first_containing(g.container.children@, position, 0);
            if i < g.container.children@.len() {
                proof {
                    lemma_first_containing(g.container.children@, position, 0);
                    assert(decreases_to!(c => g));
                    assert(decreases_to!(g => g.container));
                    assert(decreases_to!(g.container => g.container.children));
                    assert(decreases_to!(g.container.children => g.container.children@));
                    assert(decreases_to!(g.container.children@ => g.container.children@[i]));
                }
                seq![i as usize] + find_path(g.container.children@[i], position)
            } else {
                Seq::empty()
            }
        },
        Control::TabControl(t) => {
            let sel = t.header.selected_index as int;
            proof {
                assert(decreases_to!(c => t));
                assert(decreases_to!(t => t.children));
                assert(decreases_to!(t.children => t.children@));
                assert(decreases_to!(t => t.header));
                assert(decreases_to!(t.header => t.header.container));
                assert(decreases_to!(t.header.container => t.header.container.children));
                assert(decreases_to!(t.header.container.children => t.header.container.children@));
            }
            if sel < t.children@.len() && rect_contains(base_of(t.children@[sel]).rect, position) {
                proof {
                    assert(decreases_to!(t.children@ => t.children@[sel]));
                }
                seq![(sel + 1) as usize] + find_path(t.children@[sel], position)
            } else {
                let j = first_containing(t.header.container.children@, position, 0);
                if j < t.header.container.children@.len() {
                    proof {
                        lemma_first_containing(t.header.container.children@, position, 0);
                        assert(decreases_to!(t.header.container.children@ => t.header.container.children@[j]));
                    }
                    seq![0usize, j as usize] + find_path(t.header.container.children@[j], position)
                } else {
                    Seq::empty()
                }
            }
        },
        _ => Seq::empty(),
    }
}

/// What handling message `m` at the end of `path` does to the tree `old`, giving `new`,
/// the output `n` from `o`, and returning `r`: the control there reacts as `input_post`
/// says and nothing else changes; when the path leads nowhere nothing happens.
pub open spec fn delivered(
    old: Control,
    new: Control,
    path: Seq<usize>,
    m: GuiMessage,
    o: MessageOutput,
    n: MessageOutput,
    r: bool,
    lines: Seq<FontLine>,
) -> bool {
    match control_at(old, path) {
        Some(x) => control_at(new, path) matches Some(y) && replaced_at(old, new, path, y)
            && input_post(x, y, m, o, n, r, lines),
        None => !r && new == old && out_same(o, n),
    }
}

/// One step along a path: the control at it is found, and a control replaced at it, in the
/// child the step leads to.
pub proof fn lemma_path_step(c: Control, path: Seq<usize>, depth: int)
    requires
        0 <= depth < path.len(),
    ensures
        path.skip(depth)[0] == path[depth],
        path.skip(depth).drop_first() == path.skip(depth + 1),
        path[depth] < child_count(c) ==> control_at(c, path.skip(depth)) == control_at(
            child_of(c, path[depth] as int),
            path.skip(depth + 1),
        ),
        path[depth] >= child_count(c) ==> control_at(c, path.skip(depth)) is None,
        forall|new: Control, x: Control|
            #[trigger] replaced_at(c, new, path.skip(depth), x) == (if path[depth] < child_count(c) {
                same_except_child(c, new, path[depth] as int) && child_count(new) == child_count(c)
                    && replaced_at(
                    child_of(c, path[depth] as int),
                    child_of(new, path[depth] as int),
                    path.skip(depth + 1),
                    x,
                )
            } else {
                new == c
            }),
{
    assert(path.skip(depth).drop_first() =~= path.skip(depth + 1));
}

/// The end of a path: the control at it is the control itself.
pub proof fn lemma_path_end(c: Control, path: Seq<usize>, depth: int)
    requires
        depth == path.len(),
    ensures
        control_at(c, path.skip(depth)) == Some(c),
        forall|new: Control, x: Control|
            #[trigger] replaced_at(c, new, path.skip(depth), x) == (new == x),
{
    assert(path.skip(depth).len() == 0);
}

fn prepend(i: usize, rest: Vec<usize>) -> (r: Vec<usize>)
    ensures
        r@ == seq![i] + rest@,
{
    let mut r: Vec<usize> = Vec::new();
    r.push(i);
    let mut rest = rest;
    r.append(&mut rest);
    r
}

impl Container {
    /// The number of the first child whose rectangle contains `position`, or the number of
    /// children if none does.
    pub fn find_child(&self, position: Position) -> (r: usize)
        ensures
            r == first_containing(self.children@, position, 0),
    {
        let mut i: usize = 0;
        while i < self.children.len()
            invariant
                i <= self.children@.len(),
                first_containing(self.children@, position, i as int) == first_containing(self.children@, position, 0),
            decreases self.children@.len() - i,
        {
            if self.children[i].get_base().rect.contains(position) {
                return i;
            }
            i += 1;
        }
        i
    }
}

impl RadioGroup {
    /// Hands `m` to the control at `path` from number `depth` on, taking the group as the
    /// control `Control::RadioGroup(self)`, as `delivered` says.
    fn deliver_from<L: FontLoader, C: ClipboardHandler>(
        &mut self,
        path: &Vec<usize>,
        depth: usize,
        m: &GuiMessage,
        out: &mut MessageOutput,
        fonts: &mut FontFactory<L>,
        clipboard: &C,
    ) -> (r: bool)
        requires
            old(fonts).wf(),
            depth <= path@.len(),
            control_at(Control::RadioGroup(*old(self)), path@.skip(depth as int)) is Some,
        ensures
            final(fonts).wf(),
            lines_grow(old(fonts).lines(), final(fonts).lines()),
            final(fonts).lines().len() == old(fonts).lines().len(),
            delivered(
                Control::RadioGroup(*old(self)),
                Control::RadioGroup(*final(self)),
                path@.skip(depth as int),
                *m,
                *old(out),
                *final(out),
                r,
                final(fonts).lines(),
            ),
        decreases path@.len() - depth, 0int,
    {
        if depth >= path.len() {
            proof {
                lemma_path_end(Control::RadioGroup(*old(self)), path@, depth as int);
            }
            return false;
        }
        let i = path[depth];
        proof {
            lemma_path_step(Control::RadioGroup(*old(self)), path@, depth as int);
        }
        let r = if i < self.container.children.len() {
            self.container.children[i].deliver_from(path, depth + 1, m, out, fonts, clipboard)
        } else {
            false
        };
        proof {
            lemma_path_step(Control::RadioGroup(*old(self)), path@, depth as int);
            lemma_path_step(Control::RadioGroup(*self), path@, depth as int);
        }
        r
    }

    /// Replaces the shared state of the control at `path` from number `depth` on, taking the
    /// group as the control `Control::RadioGroup(self)`; whether there is such a control.
    fn set_base_from(&mut self, path: &Vec<usize>, depth: usize, base: GuiControlBase) -> (r: bool)
        requires
            depth <= path@.len(),
            control_at(Control::RadioGroup(*old(self)), path@.skip(depth as int)) is Some,
        ensures
            match control_at(Control::RadioGroup(*old(self)), path@.skip(depth as int)) {
                Some(x) => r && replaced_at(
                    Control::RadioGroup(*old(self)),
                    Control::RadioGroup(*final(self)),
                    path@.skip(depth as int),
                    with_base(x, base),
                ),
                None => !r && *final(self) == *old(self),
            },
        decreases path@.len() - depth, 0int,
    {
        if depth >= path.len() {
            proof {
                lemma_path_end(Control::RadioGroup(*old(self)), path@, depth as int);
            }
            self.container.base = base;
            return true;
        }
        let i = path[depth];
        proof {
            lemma_path_step(Control::RadioGroup(*old(self)), path@, depth as int);
        }
        let r = if i < self.container.children.len() {
            self.container.children[i].set_base_from(path, depth + 1, base)
        } else {
            false
        };
        proof {
            lemma_path_step(Control::RadioGroup(*old(self)), path@, depth as int);
            lemma_path_step(Control::RadioGroup(*self), path@, depth as int);
        }
        r
    }
}

impl Control {
    /// What the control does itself on `m`, as `input_post` says.
    pub fn on_input<L: FontLoader, C: ClipboardHandler>(
        &mut self,
        m: &GuiMessage,
        out: &mut MessageOutput,
        fonts: &mut FontFactory<L>,
        clipboard: &C,
    ) -> (r: bool)
        requires
            old(fonts).wf(),
        ensures
            final(fonts).wf(),
            lines_grow(old(fonts).lines(), final(fonts).lines()),
            final(fonts).lines().len() == old(fonts).lines().len(),
            input_post(*old(self), *final(self), *m, *old(out), *final(out), r, final(fonts).lines()),
    {
        match self {
            Control::Button(b) => b.on_message(m, out),
            Control::CheckBox(c) => c.on_message(m),
            Control::Edit(e) => e.on_message(m, out, fonts, clipboard),
            Control::ScrollV(v) => v.on_message(m),
            Control::ListBox(l) => l.on_message(m),
            _ => false,
        }
    }

    /// Hands `m` to the control at `path` from number `depth` on, as `delivered` says.
    fn deliver_from<L: FontLoader, C: ClipboardHandler>(
        &mut self,
        path: &Vec<usize>,
        depth: usize,
        m: &GuiMessage,
        out: &mut MessageOutput,
        fonts: &mut FontFactory<L>,
        clipboard: &C,
    ) -> (r: bool)
        requires
            old(fonts).wf(),
            depth <= path@.len(),
            control_at(*old(self), path@.skip(depth as int)) is Some,
        ensures
            final(fonts).wf(),
            lines_grow(old(fonts).lines(), final(fonts).lines()),
            final(fonts).lines().len() == old(fonts).lines().len(),
            delivered(
                *old(self),
                *final(self),
                path@.skip(depth as int),
                *m,
                *old(out),
                *final(out),
                r,
                final(fonts).lines(),
            ),
        decreases path@.len() - depth, 1int,
    {
        if depth >= path.len() {
            proof {
                lemma_path_end(*old(self), path@, depth as int);
            }
            let r = self.on_input(m, out, fonts, clipboard);
            proof {
                lemma_path_end(*self, path@, depth as int);
            }
            return r;
        }
        let i = path[depth];
        proof {
            lemma_path_step(*old(self), path@, depth as int);
        }
        let r = match self {
            Control::Container(k) => {
                if i < k.children.len() {
                    k.children[i].deliver_from(path, depth + 1, m, out, fonts, clipboard)
                } else {
                    false
                }
            },
            Control::RadioGroup(g) => g.deliver_from(path, depth, m, out, fonts, clipboard),
            Control::TabControl(t) => {
                if i == 0 {
                    t.header.deliver_from(path, depth + 1, m, out, fonts, clipboard)
                } else if i - 1 < t.children.len() {
                    t.children[i - 1].deliver_from(path, depth + 1, m, out, fonts, clipboard)
                } else {
                    false
                }
            },
            _ => false,
        };
        proof {
            lemma_path_step(*old(self), path@, depth as int);
            lemma_path_step(*self, path@, depth as int);
        }
        r
    }

    /// The shared state of the control at `path` from number `depth` on, if there is one.
    pub fn base_at(&self, path: &Vec<usize>, depth: usize) -> (r: Option<GuiControlBase>)
        requires
            depth <= path@.len(),
        ensures
            r == match control_at(*self, path@.skip(depth as int)) {
                Some(x) => Some(base_of(x)),
                None => None,
            },
        decreases path@.len() - depth,
    {
        if depth >= path.len() {
            proof {
                lemma_path_end(*self, path@, depth as int);
            }
            return Some(self.get_base());
        }
        proof {
            lemma_path_step(*self, path@, depth as int);
        }
        let i = path[depth];
        match self {
            Control::Container(k) => {
                if i < k.children.len() {
                    k.children[i].base_at(path, depth + 1)
                } else {
                    None
                }
            },
            Control::RadioGroup(g) => {
                if i < g.container.children.len() {
                    g.container.children[i].base_at(path, depth + 1)
                } else {
                    None
                }
            },
            Control::TabControl(t) => {
                if i == 0 {
                    if depth + 1 >= path.len() {
                        proof {
                            lemma_path_end(Control::RadioGroup(t.header), path@, depth + 1);
                        }
                        Some(t.header.container.base)
                    } else {
                        let j = path[depth + 1];
                        proof {
                            lemma_path_step(Control::RadioGroup(t.header), path@, depth + 1);
                        }
                        if j < t.header.container.children.len() {
                            t.header.container.children[j].base_at(path, depth + 2)
                        } else {
                            None
                        }
                    }
                } else if i - 1 < t.children.len() {
                    t.children[i - 1].base_at(path, depth + 1)
                } else {
                    None
                }
            },
            _ => None,
        }
    }

    /// Replaces the shared state of the control at `path` from number `depth` on; whether
    /// there is such a control.
    fn set_base_from(&mut self, path: &Vec<usize>, depth: usize, base: GuiControlBase) -> (r: bool)
        requires
            depth <= path@.len(),
            control_at(*old(self), path@.skip(depth as int)) is Some,
        ensures
            match control_at(*old(self), path@.skip(depth as int)) {
                Some(x) => r && replaced_at(*old(self), *final(self), path@.skip(depth as int), with_base(x, base)),
                None => !r && *final(self) == *old(self),
            },
        decreases path@.len() - depth, 1int,
    {
        if depth >= path.len() {
            proof {
                lemma_path_end(*old(self), path@, depth as int);
            }
            self.set_base(base);
            return true;
        }
        let i = path[depth];
        proof {
            lemma_path_step(*old(self), path@, depth as int);
        }
        let r = match self {
            Control::Container(k) => {
                if i < k.children.len() {
                    k.children[i].set_base_from(path, depth + 1, base)
                } else {
                    false
                }
            },
            Control::RadioGroup(g) => g.set_base_from(path, depth, base),
            Control::TabControl(t) => {
                if i == 0 {
                    t.header.set_base_from(path, depth + 1, base)
                } else if i - 1 < t.children.len() {
                    t.children[i - 1].set_base_from(path, depth + 1, base)
                } else {
                    false
                }
            },
            _ => false,
        };
        proof {
            lemma_path_step(*old(self), path@, depth as int);
            lemma_path_step(*self, path@, depth as int);
        }
        r
    }

    /// Hands `m` to the control at `path`, as `delivered` says.
    pub fn deliver<L: FontLoader, C: ClipboardHandler>(
        &mut self,
        path: &Vec<usize>,
        m: &GuiMessage,
        out: &mut MessageOutput,
        fonts: &mut FontFactory<L>,
        clipboard: &C,
    ) -> (r: bool)
        requires
            old(fonts).wf(),
        ensures
            final(fonts).wf(),
            lines_grow(old(fonts).lines(), final(fonts).lines()),
            final(fonts).lines().len() == old(fonts).lines().len(),
            delivered(*old(self), *final(self), path@, *m, *old(out), *final(out), r, final(fonts).lines()),
    {
        proof {
            assert(path@.skip(0) =~= path@);
        }
        if self.base_at(path, 0).is_some() {
            self.deliver_from(path, 0, m, out, fonts, clipboard)
        } else {
            false
        }
    }

    /// Replaces the shared state of the control at `path`; whether there is such a control.
    pub fn set_base_at(&mut self, path: &Vec<usize>, base: GuiControlBase) -> (r: bool)
        ensures
            match control_at(*old(self), path@) {
                Some(x) => r && replaced_at(*old(self), *final(self), path@, with_base(x, base)),
                None => !r && *final(self) == *old(self),
            },
    {
        proof {
            assert(path@.skip(0) =~= path@);
        }
        if self.base_at(path, 0).is_some() {
            self.set_base_from(path, 0, base)
        } else {
            false
        }
    }

    /// The path to the control under `position`, as `find_path` says.
    pub fn find_destination(&self, position: Position) -> (r: Vec<usize>)
        ensures
            r@ == find_path(*self, position),
        decreases *self,
    {
        match self {
            Control::Container(k) => {
                let i = k.find_child(position);
                proof {
                    lemma_first_containing(k.children@, position, 0);
                }
                if i < k.children.len() {
                    proof {
                        assert(decreases_to!(*self => *k));
                        assert(decreases_to!(*k => k.children));
                        assert(decreases_to!(k.children => k.children@));
                        assert(decreases_to!(k.children@ => k.children@[i as int]));
                    }
                    prepend(i, k.children[i].find_destination(position))
                } else {
                    Vec::new()
                }
            },
            Control::RadioGroup(g) => {
                let i = g.container.find_child(position);
                proof {
                    lemma_first_containing(g.container.children@, position, 0);
                }
                if i < g.container.children.len() {
                    proof {
                        assert(decreases_to!(*self => *g));
                        assert(decreases_to!(*g => g.container));
                        assert(decreases_to!(g.container => g.container.children));
                        assert(decreases_to!(g.container.children => g.container.children@));
                        assert(decreases_to!(g.container.children@ => g.container.children@[i as int]));
                    }
                    prepend(i, g.container.children[i].find_destination(position))
                } else {
                    Vec::new()
                }
            },
            Control::TabControl(t) => {
                let sel = t.header.selected_index;
                proof {
                    assert(decreases_to!(*self => *t));
                    assert(decreases_to!(*t => t.children));
                    assert(decreases_to!(t.children => t.children@));
                    assert(decreases_to!(*t => t.header));
                    assert(decreases_to!(t.header => t.header.container));
                    assert(decreases_to!(t.header.container => t.header.container.children));
                    assert(decreases_to!(t.header.container.children => t.header.container.children@));
                }
                if sel < t.children.len() && t.children[sel].get_base().rect.contains(position) {
                    proof {
                        assert(decreases_to!(t.children@ => t.children@[sel as int]));
                    }
                    prepend(sel + 1, t.children[sel].find_destination(position))
                } else {
                    let j = t.header.container.find_child(position);
                    proof {
                        lemma_first_containing(t.header.container.children@, position, 0);
                    }
                    if j < t.header.container.children.len() {
                        proof {
                            assert(decreases_to!(t.header.container.children@ => t.header.container.children@[j as int]));
                        }
                        let rest = prepend(j, t.header.container.children[j].find_destination(position));
                        let r = prepend(0, rest);
                        assert(r@ =~= seq![0usize, j] + find_path(t.header.container.children@[j as int], position));
                        r
                    } else {
                        Vec::new()
                    }
                }
            },
            _ => Vec::new(),
        }
    }
}

/// The hot-keys `c` offers when it is `active` or not, in the order they are collected: a
/// button with a hot-key and a callback offers them when active or when its hot-key is
/// global; a container asks its children, each active if the container is active and
/// visible and the child is visible; tabs ask their header, and each tab, which is active
/// only when selected.
pub open spec fn spec_hotkeys(c: Control, active: bool) -> Seq<(Hotkey, HotkeyCallback)>
    decreases c, 0int,
{
    match c {
        Control::Button(b) => match (b.hotkey, button_job(b)) {
            (Some(h), Some(job)) => if b.hotkey_is_global || active {
                seq![(h, HotkeyCallback(job))]
            } else {
                Seq::empty()
            },
            _ => Seq::empty(),
        },
        Control::Container(k) => {
            proof {
                assert(decreases_to!(c => k));
                assert(decreases_to!(k => k.children));
                assert(decreases_to!(k.children => k.children@));
            }
            children_hotkeys(k.children@, active && k.base.visible, k.children@.len() as int)
        },
        Control::RadioGroup(g) => {
            proof {
                assert(decreases_to!(c => g));
                assert(decreases_to!(g => g.container));
                assert(decreases_to!(g.container => g.container.children));
                assert(decreases_to!(g.container.children => g.container.children@));
            }
            children_hotkeys(
                g.container.children@,
                active && g.container.base.visible,
                g.container.children@.len() as int,
            )
        },
        Control::TabControl(t) => {
            proof {
                assert(decreases_to!(c => t));
                assert(decreases_to!(t => t.header));
                assert(decreases_to!(t.header => t.header.container));
                assert(decreases_to!(t.header.container => t.header.container.children));
                assert(decreases_to!(t.header.container.children => t.header.container.children@));
                assert(decreases_to!(t => t.children));
                assert(decreases_to!(t.children => t.children@));
            }
            let header_active = active && t.base.visible && t.header.container.base.visible;
            children_hotkeys(
                t.header.container.children@,
                header_active && t.header.container.base.visible,
                t.header.container.children@.len() as int,
            ) + tab_hotkeys(
                t.children@,
                active && t.base.visible,
                t.header.selected_index as int,
                t.children@.len() as int,
            )
        },
        _ => Seq::empty(),
    }
}

/// The hot-keys of the first `n` children, each asked as active if `active` and it is
/// visible.
pub open spec fn children_hotkeys(children: Seq<Control>, active: bool, n: int) -> Seq<(Hotkey, HotkeyCallback)>
    decreases children, n,
{
    if n <= 0 || n > children.len() {
        Seq::empty()
    } else {
        children_hotkeys(children, active, n - 1) + spec_hotkeys(
            children[n - 1],
            active && base_of(children[n - 1]).visible,
        )
    }
}

/// The hot-keys of the first `n` tabs, each asked as active if `active`, it is visible and
/// it is the tab `selected`.
pub open spec fn tab_hotkeys(children: Seq<Control>, active: bool, selected: int, n: int) -> Seq<(Hotkey, HotkeyCallback)>
    decreases children, n,
{
    if n <= 0 || n > children.len() {
        Seq::empty()
    } else {
        tab_hotkeys(children, active, selected, n - 1) + spec_hotkeys(
            children[n - 1],
            active && base_of(children[n - 1]).visible && n - 1 == selected,
        )
    }
}

impl Container {
    fn collect_hotkeys(&self, active: bool, out: &mut Vec<(Hotkey, HotkeyCallback)>)
        ensures
            final(out)@ == old(out)@ + children_hotkeys(self.children@, active, self.children@.len() as int),
        decreases *self,
    {
        let mut i: usize = 0;
        while i < self.children.len()
            invariant
                i <= self.children@.len(),
                out@ == old(out)@ + children_hotkeys(self.children@, active, i as int),
            decreases self.children@.len() - i,
        {
            proof {
                assert(decreases_to!(*self => self.children));
                assert(decreases_to!(self.children => self.children@));
                assert(decreases_to!(self.children@ => self.children@[i as int]));
            }
            let child_active = active && self.children[i].get_base().visible;
            let ghost before = out@;
            self.children[i].get_hotkeys(child_active, out);
            proof {
                assert(out@ =~= old(out)@ + children_hotkeys(self.children@, active, i + 1));
            }
            i += 1;
        }
    }
}

impl TabControl {
    fn collect_tab_hotkeys(&self, tab_active: bool, out: &mut Vec<(Hotkey, HotkeyCallback)>)
        ensures
            final(out)@ == old(out)@ + tab_hotkeys(
                self.children@,
                tab_active,
                self.header.selected_index as int,
                self.children@.len() as int,
            ),
        decreases *self,
    {
        let sel = self.header.selected_index;
        let mut i: usize = 0;
        while i < self.children.len()
            invariant
                i <= self.children@.len(),
                out@ == old(out)@ + tab_hotkeys(self.children@, tab_active, sel as int, i as int),
                sel == self.header.selected_index,
            decreases self.children@.len() - i,
        {
            proof {
                assert(decreases_to!(*self => self.children));
                assert(decreases_to!(self.children => self.children@));
                assert(decreases_to!(self.children@ => self.children@[i as int]));
            }
            let child_active = tab_active && self.children[i].get_base().visible && i == sel;
            self.children[i].get_hotkeys(child_active, out);
            proof {
                assert(out@ =~= old(out)@ + tab_hotkeys(self.children@, tab_active, sel as int, i + 1));
            }
            i += 1;
        }
    }
}

impl Control {
    /// Appends to `out` the hot-keys the control offers, as `spec_hotkeys` says.
    pub fn get_hotkeys(&self, active: bool, out: &mut Vec<(Hotkey, HotkeyCallback)>)
        ensures
            final(out)@ == old(out)@ + spec_hotkeys(*self, active),
        decreases *self,
    {
        match self {
            Control::Button(b) => {
                match (b.hotkey, b.job()) {
                    (Some(h), Some(job)) => {
                        if b.hotkey_is_global || active {
                            out.push((h, HotkeyCallback(job)));
                        }
                    },
                    _ => {},
                }
                assert(out@ =~= old(out)@ + spec_hotkeys(*self, active));
            },
            Control::Container(k) => {
                proof {
                    assert(decreases_to!(*self => *k));
                }
                k.collect_hotkeys(active && k.base.visible, out);
            },
            Control::RadioGroup(g) => {
                proof {
                    assert(decreases_to!(*self => *g));
                    assert(decreases_to!(*g => g.container));
                }
                g.container.collect_hotkeys(active && g.container.base.visible, out);
            },
            Control::TabControl(t) => {
                proof {
                    assert(decreases_to!(*self => *t));
                    assert(decreases_to!(*t => t.header));
                    assert(decreases_to!(t.header => t.header.container));
                }
                let header_active = active && t.base.visible && t.header.container.base.visible;
                t.header.container.collect_hotkeys(header_active && t.header.container.base.visible, out);
                t.collect_tab_hotkeys(active && t.base.visible, out);
                assert(out@ =~= old(out)@ + spec_hotkeys(*self, active));
            },
            _ => {
                assert(out@ =~= old(out)@ + spec_hotkeys(*self, active));
            },
        }
    }
}

/// The position, among the buttons of a radio group, of its child number `i`, from
/// position `k` on.
pub open spec fn button_position(buttons: Seq<usize>, i: usize, k: int) -> Option<usize>
    decreases buttons.len() - k,
{
    if k < 0 || k >= buttons.len() {
        None
    } else if buttons[k] == i {
        Some(k as usize)
    } else {
        button_position(buttons, i, k + 1)
    }
}

/// `y` is the radio group `x` with button number `j` selected, and `r` the job its callback
/// asks for.
pub open spec fn radio_selected(x: Control, y: Control, j: usize, r: Option<Job>) -> bool {
    match (x, y) {
        (Control::RadioGroup(a), Control::RadioGroup(b)) => {
            &&& b.container.children@ == select_children(
                a.container.children@,
                a.buttons@,
                a.selected_index as int,
                j as int,
            )
            &&& b.selected_index == j
            &&& b.buttons == a.buttons
            &&& b.callback == a.callback
            &&& b.container.base == a.container.base
            &&& b.container.layout == a.container.layout
            &&& b.container.support_compression == a.container.support_compression
            &&& r == match a.callback {
                Some(RadioGroupCallback(id)) => Some(Job::RadioGroup(id, j)),
                None => None,
            }
        },
        _ => false,
    }
}

/// After a click on the control at `path`: when it is a button of a radio group, the group
/// selects it, which is all that changes, and `r` is the group's job; otherwise nothing
/// changes.
pub open spec fn clicked_post(old: Control, new: Control, path: Seq<usize>, r: Option<Job>) -> bool {
    if path.len() == 0 {
        new == old && r is None
    } else {
        match control_at(old, path.drop_last()) {
            Some(Control::RadioGroup(g)) => match button_position(g.buttons@, path.last(), 0) {
                Some(j) => control_at(new, path.drop_last()) matches Some(y) && replaced_at(
                    old,
                    new,
                    path.drop_last(),
                    y,
                ) && radio_selected(Control::RadioGroup(g), y, j, r),
                None => new == old && r is None,
            },
            _ => new == old && r is None,
        }
    }
}

impl RadioGroup {
    /// The position among the buttons of child number `i`, if it is a button.
    pub fn button_index(&self, i: usize) -> (r: Option<usize>)
        ensures
            r == button_position(self.buttons@, i, 0),
    {
        let mut k: usize = 0;
        while k < self.buttons.len()
            invariant
                k <= self.buttons@.len(),
                button_position(self.buttons@, i, k as int) == button_position(self.buttons@, i, 0),
            decreases self.buttons@.len() - k,
        {
            if self.buttons[k] == i {
                return Some(k);
            }
            k += 1;
        }
        None
    }

    fn select_from(&mut self, path: &Vec<usize>, depth: usize, j: usize) -> (r: Option<Job>)
        requires
            depth <= path@.len(),
            control_at(Control::RadioGroup(*old(self)), path@.skip(depth as int)) matches Some(
                Control::RadioGroup(_),
            ),
        ensures
            control_at(Control::RadioGroup(*old(self)), path@.skip(depth as int)) matches Some(x)
                && control_at(Control::RadioGroup(*final(self)), path@.skip(depth as int)) matches Some(y)
                && replaced_at(Control::RadioGroup(*old(self)), Control::RadioGroup(*final(self)), path@.skip(depth as int), y)
                && radio_selected(x, y, j, r),
        decreases path@.len() - depth, 0int,
    {
        if depth >= path.len() {
            proof {
                lemma_path_end(Control::RadioGroup(*old(self)), path@, depth as int);
            }
            let r = self.set_index(j);
            proof {
                lemma_path_end(Control::RadioGroup(*self), path@, depth as int);
            }
            return r;
        }
        let i = path[depth];
        proof {
            lemma_path_step(Control::RadioGroup(*old(self)), path@, depth as int);
        }
        let r = if i < self.container.children.len() {
            self.container.children[i].select_from(path, depth + 1, j)
        } else {
            None
        };
        proof {
            lemma_path_step(Control::RadioGroup(*self), path@, depth as int);
        }
        r
    }

    fn button_index_at(&self, path: &Vec<usize>, depth: usize, button: usize) -> (r: Option<usize>)
        requires
            depth <= path@.len(),
        ensures
            r == match control_at(Control::RadioGroup(*self), path@.skip(depth as int)) {
                Some(Control::RadioGroup(g)) => button_position(g.buttons@, button, 0),
                _ => None,
            },
        decreases path@.len() - depth, 0int,
    {
        if depth >= path.len() {
            proof {
                lemma_path_end(Control::RadioGroup(*self), path@, depth as int);
            }
            return self.button_index(button);
        }
        proof {
            lemma_path_step(Control::RadioGroup(*self), path@, depth as int);
        }
        let i = path[depth];
        if i < self.container.children.len() {
            self.container.children[i].button_index_at(path, depth + 1, button)
        } else {
            None
        }
    }
}

impl Control {
    fn select_from(&mut self, path: &Vec<usize>, depth: usize, j: usize) -> (r: Option<Job>)
        requires
            depth <= path@.len(),
            control_at(*old(self), path@.skip(depth as int)) matches Some(Control::RadioGroup(_)),
        ensures
            control_at(*old(self), path@.skip(depth as int)) matches Some(x)
                && control_at(*final(self), path@.skip(depth as int)) matches Some(y)
                && replaced_at(*old(self), *final(self), path@.skip(depth as int), y)
                && radio_selected(x, y, j, r),
        decreases path@.len() - depth, 1int,
    {
        if depth >= path.len() {
            proof {
                lemma_path_end(*old(self), path@, depth as int);
            }
            let r = match self {
                Control::RadioGroup(g) => g.set_index(j),
                _ => None,
            };
            proof {
                lemma_path_end(*self, path@, depth as int);
            }
            return r;
        }
        let i = path[depth];
        proof {
            lemma_path_step(*old(self), path@, depth as int);
        }
        let r = match self {
            Control::Container(k) => {
                if i < k.children.len() {
                    k.children[i].select_from(path, depth + 1, j)
                } else {
                    None
                }
            },
            Control::RadioGroup(g) => g.select_from(path, depth, j),
            Control::TabControl(t) => {
                if i == 0 {
                    t.header.select_from(path, depth + 1, j)
                } else if i - 1 < t.children.len() {
                    t.children[i - 1].select_from(path, depth + 1, j)
                } else {
                    None
                }
            },
            _ => None,
        };
        proof {
            lemma_path_step(*self, path@, depth as int);
        }
        r
    }

    fn button_index_at(&self, path: &Vec<usize>, depth: usize, button: usize) -> (r: Option<usize>)
        requires
            depth <= path@.len(),
        ensures
            r == match control_at(*self, path@.skip(depth as int)) {
                Some(Control::RadioGroup(g)) => button_position(g.buttons@, button, 0),
                _ => None,
            },
        decreases path@.len() - depth, 1int,
    {
        if depth >= path.len() {
            proof {
                lemma_path_end(*self, path@, depth as int);
            }
            return match self {
                Control::RadioGroup(g) => g.button_index(button),
                _ => None,
            };
        }
        proof {
            lemma_path_step(*self, path@, depth as int);
        }
        let i = path[depth];
        match self {
            Control::Container(k) => {
                if i < k.children.len() {
                    k.children[i].button_index_at(path, depth + 1, button)
                } else {
                    None
                }
            },
            Control::RadioGroup(g) => g.button_index_at(path, depth, button),
            Control::TabControl(t) => {
                if i == 0 {
                    t.header.button_index_at(path, depth + 1, button)
                } else if i - 1 < t.children.len() {
                    t.children[i - 1].button_index_at(path, depth + 1, button)
                } else {
                    None
                }
            },
            _ => None,
        }
    }

    /// After a click on the control at `path`: a button of a radio group gets selected in
    /// it, as `clicked_post` says; gives the group's job.
    pub fn select_clicked(&mut self, path: &Vec<usize>) -> (r: Option<Job>)
        ensures
            clicked_post(*old(self), *final(self), path@, r),
    {
        if path.len() == 0 {
            return None;
        }
        let mut group_path = path.clone();
        let button = group_path.pop().unwrap();
        proof {
            assert(group_path@ =~= path@.drop_last());
            assert(group_path@.skip(0) =~= group_path@);
        }
        match self.button_index_at(&group_path, 0, button) {
            Some(j) => self.select_from(&group_path, 0, j),
            None => None,
        }
    }
}

/// The shared state of `c` after it was asked to draw: the redraw request is cleared, except
/// for check boxes, and for containers and tabs that are not visible.
pub open spec fn spec_drawn_base(c: Control) -> GuiControlBase {
    match c {
        Control::CheckBox(x) => x.base,
        Control::Container(x) => if x.base.visible {
            drawn_base(x.base)
        } else {
            x.base
        },
        Control::RadioGroup(x) => if x.container.base.visible {
            drawn_base(x.container.base)
        } else {
            x.container.base
        },
        Control::TabControl(x) => if x.base.visible {
            drawn_base(x.base)
        } else {
            x.base
        },
        _ => drawn_base(base_of(c)),
    }
}

/// The corners, relative to `parent`'s left-top corner, of the rectangle `r`, when neither
/// lies before it on either axis.
pub open spec fn window_of(parent: Rect, r: Rect) -> Option<(ImageSize, ImageSize)> {
    let lt0 = r.left_top.0 - parent.left_top.0;
    let lt1 = r.left_top.1 - parent.left_top.1;
    let rb0 = r.right_bottom.0 - parent.left_top.0;
    let rb1 = r.right_bottom.1 - parent.left_top.1;
    if lt0 >= 0 && lt1 >= 0 && rb0 >= 0 && rb1 >= 0 {
        Some(((lt0 as usize, lt1 as usize), (rb0 as usize, rb1 as usize)))
    } else {
        None
    }
}

/// The part of the window of a control at `parent` that the rectangle `r` covers, when it
/// starts at or after the parent's left-top corner.
fn relative_window(parent: Rect, r: Rect) -> (w: Option<(ImageSize, ImageSize)>)
    ensures
        w == window_of(parent, r),
{
    let lt0: i64 = r.left_top.0 as i64 - parent.left_top.0 as i64;
    let lt1: i64 = r.left_top.1 as i64 - parent.left_top.1 as i64;
    let rb0: i64 = r.right_bottom.0 as i64 - parent.left_top.0 as i64;
    let rb1: i64 = r.right_bottom.1 as i64 - parent.left_top.1 as i64;
    if lt0 >= 0 && lt1 >= 0 && rb0 >= 0 && rb1 >= 0 {
        Some(((lt0 as usize, lt1 as usize), (rb0 as usize, rb1 as usize)))
    } else {
        None
    }
}

/// Whether erasing the rectangle `r` of a control at `parent` paints the pixel `(x, y)` of a
/// window of `size`: the rectangle lies in the window and covers the pixel.
pub open spec fn erased_at(size: ImageSize, parent: Rect, r: Rect, x: int, y: int) -> bool {
    match window_of(parent, r) {
        Some((lt, rb)) => lt.0 <= rb.0 <= size.0 && lt.1 <= rb.1 <= size.1 && lt.0 <= x < rb.0 && lt.1
            <= y < rb.1,
        None => false,
    }
}

/// Paints, in the theme's background colour, the part of the window of a control at
/// `parent` that `r` covers, if it lies in the window.
fn erase_rect(buf: &mut ImageViewMut<u32>, parent: Rect, r: Rect, theme: &GuiColorTheme)
    ensures
        same_outside(old(buf), final(buf)),
        forall|x: int, y: int|
            #![trigger final(buf).spec_at(x, y)]
            in_size(old(buf).spec_size(), x, y) ==> final(buf).spec_at(x, y) == if erased_at(
                old(buf).spec_size(),
                parent,
                r,
                x,
                y,
            ) {
                theme.background
            } else {
                old(buf).spec_at(x, y)
            },
{
    match relative_window(parent, r) {
        Some((lt, rb)) => buf.fill_part(lt, rb, &SetPixel(theme.background)),
        None => {},
    }
}

/// Whether drawing the control `c` (`force` redrawing it even if it did not ask for it)
/// turns the window `before` into `after` and the font lines `l0` into `lf`, as each kind of
/// control draws itself: boxes and spaces fill their window, buttons, check boxes, text
/// boxes, edits and scroll bars as their own specs say, containers and radio groups as
/// `container_drawn` says, tabs as `tabs_drawn` says; of a list, only that nothing outside
/// its window changes.
pub open spec fn drawn_by(
    c: Control,
    theme: GuiColorTheme,
    force: bool,
    before: ImageViewMut<u32>,
    after: ImageViewMut<u32>,
    l0: Seq<FontLine>,
    lf: Seq<FontLine>,
) -> bool
    decreases c, 0int,
{
    match c {
        Control::Container(k) => container_drawn(k, theme, force, before, after, l0, lf),
        Control::RadioGroup(g) => container_drawn(g.container, theme, force, before, after, l0, lf),
        Control::TabControl(t) => tabs_drawn(t, theme, force, before, after, l0, lf),
        Control::ColorBox(x) => lf == l0 && if x.base.visible && (x.base.need_redraw || force) {
            filled_with(before, after, theme.splitter)
        } else {
            after == before
        },
        Control::EmptySpace(x) => lf == l0 && if x.base.visible && (x.base.need_redraw || force) {
            filled_with(before, after, theme.background)
        } else {
            after == before
        },
        Control::Button(x) => button_drawn(x, theme, force, before, after, l0, lf),
        Control::CheckBox(x) => check_box_drawn(x, before, after, l0, lf),
        Control::TextBox(x) => text_box_drawn(x, theme, force, before, after, l0, lf),
        Control::Edit(x) => edit_drawn(x, theme, force, before, after, l0, lf),
        Control::ScrollV(x) => lf == l0 && exists|i1: ImageViewMut<u32>, i2: ImageViewMut<u32>|
            #[trigger] scroll_steps(x, theme, force, before, after, i1, i2),
        Control::ListBox(_) => same_outside(&before, &after) && lines_grow(l0, lf),
    }
}

/// Whether drawing `child` in the part of the window `before` that its rectangle covers,
/// relative to the parent at `parent`, gives `after`: when the rectangle lies in the window,
/// the part is what drawing the child in it gives (`drawn_by`), and the rest stays; otherwise
/// nothing changes.
pub open spec fn child_drawn_in(
    child: Control,
    parent: Rect,
    theme: GuiColorTheme,
    force: bool,
    before: ImageViewMut<u32>,
    after: ImageViewMut<u32>,
    l0: Seq<FontLine>,
    lf: Seq<FontLine>,
) -> bool
    decreases child, 1int,
{
    if child_window_fits(before, parent, child) {
        let v = window_of(parent, base_of(child).rect)->0;
        &&& same_outside(&before, &after)
        &&& exists|w: ImageViewMut<u32>|
            #![trigger w.spec_size()]
            {
                &&& drawn_by(child, theme, force, before.spec_window(v.0, v.1), w, l0, lf)
                &&& forall|x: int, y: int|
                    #![trigger after.spec_at(x, y)]
                    in_size(before.spec_size(), x, y) ==> after.spec_at(x, y) == if v.0.0 <= x < v.1.0 && v.0.1
                        <= y < v.1.1 {
                        w.spec_at(x - v.0.0, y - v.0.1)
                    } else {
                        before.spec_at(x, y)
                    }
            }
    } else {
        after == before && lf == l0
    }
}

/// Whether drawing the container `k` turns `before` into `after` and the font lines `l0`
/// into `lf`: nothing happens when it is hidden; else each child is drawn in turn in its
/// rectangle (`child_drawn_in`, forced when the container is to be redrawn), going through
/// the windows `imgs` and the lines `ls`, and then the space no child covers is painted in
/// the background colour (`empty_space_at`, over the children `kids` as drawing left them,
/// in the same rectangles).
pub open spec fn container_drawn(
    k: Container,
    theme: GuiColorTheme,
    force: bool,
    before: ImageViewMut<u32>,
    after: ImageViewMut<u32>,
    l0: Seq<FontLine>,
    lf: Seq<FontLine>,
) -> bool
    decreases k, 2int,
{
    if !k.base.visible {
        after == before && lf == l0
    } else {
        exists|imgs: Seq<ImageViewMut<u32>>, ls: Seq<Seq<FontLine>>, kids: Seq<Control>|
            #![trigger imgs.len(), ls.len(), kids.len()]
            container_steps(k, theme, force, before, after, l0, lf, imgs, ls, kids)
    }
}

/// The steps of `container_drawn` for a visible container `k`, through the windows `imgs`
/// and the font lines `ls` its children are drawn over, the children being `kids` after.
pub open spec fn container_steps(
    k: Container,
    theme: GuiColorTheme,
    force: bool,
    before: ImageViewMut<u32>,
    after: ImageViewMut<u32>,
    l0: Seq<FontLine>,
    lf: Seq<FontLine>,
    imgs: Seq<ImageViewMut<u32>>,
    ls: Seq<Seq<FontLine>>,
    kids: Seq<Control>,
) -> bool
    decreases k, 1int,
{
    let n = k.children@.len();
    let need_force = k.base.need_redraw || force;
    &&& imgs.len() == n + 1
    &&& ls.len() == n + 1
    &&& kids.len() == n
    &&& imgs[0] == before
    &&& ls[0] == l0
    &&& ls[n as int] == lf
    &&& forall|i: int|
        #![trigger k.children@[i]]
        0 <= i < n ==> child_drawn_in(
            k.children@[i],
            k.base.rect,
            theme,
            need_force,
            imgs[i],
            imgs[i + 1],
            ls[i],
            ls[i + 1],
        )
    &&& forall|i: int| 0 <= i < n ==> #[trigger] base_of(kids[i]).rect == base_of(k.children@[i]).rect
    &&& same_outside(&imgs[n as int], &after)
    &&& forall|x: int, y: int|
        #![trigger after.spec_at(x, y)]
        in_size(before.spec_size(), x, y) ==> after.spec_at(x, y) == if empty_space_at(
            before.spec_size(),
            k.layout,
            k.base.rect,
            kids,
            x,
            y,
        ) {
            theme.background
        } else {
            imgs[n as int].spec_at(x, y)
        }
}

/// Whether drawing the tabs `t` turns `before` into `after` and the font lines `l0` into
/// `lf`: nothing happens when they are hidden; else the header is drawn as a container
/// (`i1`, lines `la`), then the selected tab in its rectangle (`i2`), forced when the tabs
/// are to be redrawn; last only the row under the header may change.
pub open spec fn tabs_drawn(
    t: TabControl,
    theme: GuiColorTheme,
    force: bool,
    before: ImageViewMut<u32>,
    after: ImageViewMut<u32>,
    l0: Seq<FontLine>,
    lf: Seq<FontLine>,
) -> bool
    decreases t, 2int,
{
    if !t.base.visible {
        after == before && lf == l0
    } else {
        exists|i1: ImageViewMut<u32>, i2: ImageViewMut<u32>, la: Seq<FontLine>|
            #![trigger i1.spec_size(), i2.spec_size(), la.len()]
            tabs_steps(t, theme, force, before, after, l0, lf, i1, i2, la)
    }
}

/// The steps of `tabs_drawn` for visible tabs `t`.
pub open spec fn tabs_steps(
    t: TabControl,
    theme: GuiColorTheme,
    force: bool,
    before: ImageViewMut<u32>,
    after: ImageViewMut<u32>,
    l0: Seq<FontLine>,
    lf: Seq<FontLine>,
    i1: ImageViewMut<u32>,
    i2: ImageViewMut<u32>,
    la: Seq<FontLine>,
) -> bool
    decreases t, 1int,
{
    let need_force = t.base.need_redraw || force;
    let sel = t.header.selected_index;
    &&& container_drawn(t.header.container, theme, need_force, before, i1, l0, la)
    &&& if sel < t.children@.len() {
        child_drawn_in(t.children@[sel as int], t.base.rect, theme, need_force, i1, i2, la, lf)
    } else {
        i2 == i1 && lf == la
    }
    &&& same_outside(&i2, &after)
    &&& forall|x: int, y: int|
        #![trigger after.spec_at(x, y)]
        in_size(before.spec_size(), x, y) && y != t.height ==> after.spec_at(x, y) == i2.spec_at(x, y)
}

/// What drawing a control gives: `false` for buttons, check boxes and text boxes, `true`
/// for the others.
pub open spec fn spec_draw_result(c: Control) -> bool {
    match c {
        Control::Button(_) => false,
        Control::CheckBox(_) => false,
        Control::TextBox(_) => false,
        _ => true,
    }
}

/// Whether the rectangle of `c`, relative to the parent at `parent`, lies in the window of
/// `buf`.
pub open spec fn child_window_fits(buf: ImageViewMut<u32>, parent: Rect, c: Control) -> bool {
    window_of(parent, base_of(c).rect) matches Some(v) && fits(&buf, v.0, v.1)
}

/// Draws `child` in the part of `buf`'s window that its rectangle covers, relative to the
/// parent at `parent`; a child whose rectangle does not lie in the window is not drawn.
fn draw_child<L: FontLoader>(
    child: &mut Control,
    parent: Rect,
    buf: &mut ImageViewMut<u32>,
    theme: &GuiColorTheme,
    force: bool,
    fonts: &mut FontFactory<L>,
) -> (r: bool)
    requires
        old(fonts).wf(),
    ensures
        final(fonts).wf(),
        lines_grow(old(fonts).lines(), final(fonts).lines()),
        final(fonts).lines().len() == old(fonts).lines().len(),
        same_outside(old(buf), final(buf)),
        child_count(*final(child)) == child_count(*old(child)),
        child_window_fits(*old(buf), parent, *old(child)) ==> r == spec_draw_result(*old(child)) && base_of(
            *final(child),
        ) == spec_drawn_base(*old(child)),
        !child_window_fits(*old(buf), parent, *old(child)) ==> !r && *final(child) == *old(child) && *final(buf)
            == *old(buf),
        child_drawn_in(*old(child), parent, *theme, force, *old(buf), *final(buf), old(fonts).lines(), final(fonts).lines()),
    decreases *old(child), 2int,
{
    let rect = child.get_base().rect;
    match relative_window(parent, rect) {
        Some((lt, rb)) => {
            if buf.fits(lt, rb) {
                let _ = buf.get_size();
                let ghost before = *buf;
                let prev = buf.window_mut(lt, rb);
                let ghost narrowed = *buf;
                let r = child.draw(buf, theme, force, fonts);
                let ghost drawn = *buf;
                buf.restore_window(prev);
                proof {
                    lemma_window_same_outside(&before, &narrowed, &drawn, buf);
                    assert(drawn_by(*old(child), *theme, force, before.spec_window(lt, rb), drawn, old(fonts).lines(), fonts.lines()));
                    assert forall|x: int, y: int| in_size(before.spec_size(), x, y) implies buf.spec_at(x, y) == if lt.0 <= x < rb.0
                        && lt.1 <= y < rb.1 {
                        drawn.spec_at(x - lt.0, y - lt.1)
                    } else {
                        before.spec_at(x, y)
                    } by {
                        if lt.0 <= x < rb.0 && lt.1 <= y < rb.1 {
                            assert(drawn.spec_at(x - lt.0, y - lt.1) == buf.spec_at(x, y));
                        } else {
                            let ax = before.spec_left_top().0 + x;
                            let ay = before.spec_left_top().1 + y;
                            assert(drawn.spec_image().spec_at(ax, ay) == narrowed.spec_image().spec_at(ax, ay));
                        }
                    }
                    assert(child_window_fits(before, parent, *old(child)));
                    assert(window_of(parent, base_of(*old(child)).rect)->0 == (lt, rb));
                    assert(same_outside(&before, buf));
                    let v = window_of(parent, base_of(*old(child)).rect)->0;
                    let after = *buf;
                    assert(exists|w: ImageViewMut<u32>|
                        {
                            &&& #[trigger] drawn_by(*old(child), *theme, force, before.spec_window(v.0, v.1), w, old(fonts).lines(), fonts.lines())
                            &&& forall|x: int, y: int|
                                #![trigger after.spec_at(x, y)]
                                in_size(before.spec_size(), x, y) ==> after.spec_at(x, y) == if v.0.0 <= x < v.1.0 && v.0.1
                                    <= y < v.1.1 {
                                    w.spec_at(x - v.0.0, y - v.0.1)
                                } else {
                                    before.spec_at(x, y)
                                }
                        });
                    assert(drawn.spec_size() == drawn.spec_size());
                    assert(child_drawn_in(*old(child), parent, *theme, force, before, *buf, old(fonts).lines(), fonts.lines()));
                }
                r
            } else {
                false
            }
        },
        None => false,
    }
}

/// The strip beside a child whose rectangle is `r`, across the layout's axis, up to the
/// edge of the container at `rect`.
pub open spec fn beside_rect(layout: ContainerLayout, rect: Rect, r: Rect) -> Rect {
    match layout {
        ContainerLayout::Vertical => Rect {
            left_top: (r.right_bottom.0, r.left_top.1),
            right_bottom: (rect.right_bottom.0, r.right_bottom.1),
        },
        ContainerLayout::Horizontal => Rect {
            left_top: (r.left_top.0, r.right_bottom.1),
            right_bottom: (r.right_bottom.0, rect.right_bottom.1),
        },
    }
}

/// Where the first `n` children end along the layout's axis, at least where the container
/// at `rect` starts.
pub open spec fn children_end(layout: ContainerLayout, rect: Rect, children: Seq<Control>, n: int) -> i32
    decreases n,
{
    if n <= 0 {
        match layout {
            ContainerLayout::Vertical => rect.left_top.1,
            ContainerLayout::Horizontal => rect.left_top.0,
        }
    } else {
        let m = children_end(layout, rect, children, n - 1);
        let r = base_of(children[n - 1]).rect;
        let e = match layout {
            ContainerLayout::Vertical => r.right_bottom.1,
            ContainerLayout::Horizontal => r.right_bottom.0,
        };
        if e > m {
            e
        } else {
            m
        }
    }
}

/// The part of the container at `rect` after position `end` along the layout's axis.
pub open spec fn rest_rect(layout: ContainerLayout, rect: Rect, end: i32) -> Rect {
    match layout {
        ContainerLayout::Vertical => Rect { left_top: (rect.left_top.0, end), right_bottom: rect.right_bottom },
        ContainerLayout::Horizontal => Rect { left_top: (end, rect.left_top.1), right_bottom: rect.right_bottom },
    }
}

/// Whether the strip beside child `j` paints the pixel `(x, y)` of a window of `size`.
pub open spec fn beside_at(
    size: ImageSize,
    layout: ContainerLayout,
    rect: Rect,
    children: Seq<Control>,
    j: int,
    x: int,
    y: int,
) -> bool {
    erased_at(size, rect, beside_rect(layout, rect, base_of(children[j]).rect), x, y)
}

/// Whether the strip beside one of the first `n` children paints the pixel `(x, y)`.
pub open spec fn beside_any(
    size: ImageSize,
    layout: ContainerLayout,
    rect: Rect,
    children: Seq<Control>,
    n: int,
    x: int,
    y: int,
) -> bool {
    exists|j: int| 0 <= j < n && #[trigger] beside_at(size, layout, rect, children, j, x, y)
}

/// Whether filling the empty space of a container at `rect` with these children paints the
/// pixel `(x, y)` of a window of `size`: a strip beside a child covers it, or the part after
/// the last child's end does.
pub open spec fn empty_space_at(
    size: ImageSize,
    layout: ContainerLayout,
    rect: Rect,
    children: Seq<Control>,
    x: int,
    y: int,
) -> bool {
    ||| beside_any(size, layout, rect, children, children.len() as int, x, y)
    ||| erased_at(
        size,
        rect,
        rest_rect(layout, rect, children_end(layout, rect, children, children.len() as int)),
        x,
        y,
    )
}

impl Container {
    /// Paints the parts of the container no child covers in the background colour: beside
    /// each child across the layout's axis, and after the last child along it.
    fn fill_empty_space(&self, buf: &mut ImageViewMut<u32>, theme: &GuiColorTheme)
        ensures
            same_outside(old(buf), final(buf)),
            forall|x: int, y: int|
                #![trigger final(buf).spec_at(x, y)]
                in_size(old(buf).spec_size(), x, y) ==> final(buf).spec_at(x, y) == if empty_space_at(
                    old(buf).spec_size(),
                    self.layout,
                    self.base.rect,
                    self.children@,
                    x,
                    y,
                ) {
                    theme.background
                } else {
                    old(buf).spec_at(x, y)
                },
    {
        let rect = self.base.rect;
        let ghost b0 = *buf;
        let mut max_pos: i32 = match self.layout {
            ContainerLayout::Vertical => rect.left_top.1,
            ContainerLayout::Horizontal => rect.left_top.0,
        };
        let mut i: usize = 0;
        while i < self.children.len()
            invariant
                i <= self.children@.len(),
                same_outside(&b0, buf),
                rect == self.base.rect,
                max_pos == children_end(self.layout, rect, self.children@, i as int),
                forall|x: int, y: int|
                    #![trigger buf.spec_at(x, y)]
                    in_size(b0.spec_size(), x, y) ==> buf.spec_at(x, y) == if beside_any(
                        b0.spec_size(),
                        self.layout,
                        rect,
                        self.children@,
                        i as int,
                        x,
                        y,
                    ) {
                        theme.background
                    } else {
                        b0.spec_at(x, y)
                    },
            decreases self.children@.len() - i,
        {
            let r = self.children[i].get_base().rect;
            let ghost before = *buf;
            match self.layout {
                ContainerLayout::Vertical => {
                    if r.right_bottom.1 > max_pos {
                        max_pos = r.right_bottom.1;
                    }
                    let fill = Rect {
                        left_top: (r.right_bottom.0, r.left_top.1),
                        right_bottom: (rect.right_bottom.0, r.right_bottom.1),
                    };
                    erase_rect(buf, rect, fill, theme);
                },
                ContainerLayout::Horizontal => {
                    if r.right_bottom.0 > max_pos {
                        max_pos = r.right_bottom.0;
                    }
                    let fill = Rect {
                        left_top: (r.left_top.0, r.right_bottom.1),
                        right_bottom: (r.right_bottom.0, rect.right_bottom.1),
                    };
                    erase_rect(buf, rect, fill, theme);
                },
            }
            proof {
                lemma_same_outside_trans(&b0, &before, buf);
                assert forall|x: int, y: int| in_size(b0.spec_size(), x, y) implies buf.spec_at(x, y) == if beside_any(
                    b0.spec_size(),
                    self.layout,
                    rect,
                    self.children@,
                    i + 1,
                    x,
                    y,
                ) {
                    theme.background
                } else {
                    b0.spec_at(x, y)
                } by {
                    assert(before.spec_at(x, y) == if beside_any(
                        b0.spec_size(),
                        self.layout,
                        rect,
                        self.children@,
                        i as int,
                        x,
                        y,
                    ) {
                        theme.background
                    } else {
                        b0.spec_at(x, y)
                    });
                    if beside_at(b0.spec_size(), self.layout, rect, self.children@, i as int, x, y) {
                        assert(beside_any(b0.spec_size(), self.layout, rect, self.children@, i + 1, x, y));
                    }
                    if beside_any(b0.spec_size(), self.layout, rect, self.children@, i as int, x, y) {
                        let j = choose|j: int|
                            0 <= j < i && #[trigger] beside_at(b0.spec_size(), self.layout, rect, self.children@, j, x, y);
                        assert(beside_any(b0.spec_size(), self.layout, rect, self.children@, i + 1, x, y));
                    }
                    if beside_any(b0.spec_size(), self.layout, rect, self.children@, i + 1, x, y) {
                        let j = choose|j: int|
                            0 <= j < i + 1 && #[trigger] beside_at(b0.spec_size(), self.layout, rect, self.children@, j, x, y);
                        if j < i {
                            assert(beside_any(b0.spec_size(), self.layout, rect, self.children@, i as int, x, y));
                        }
                    }
                }
            }
            i += 1;
        }
        let rest = match self.layout {
            ContainerLayout::Vertical => Rect { left_top: (rect.left_top.0, max_pos), right_bottom: rect.right_bottom },
            ContainerLayout::Horizontal => Rect { left_top: (max_pos, rect.left_top.1), right_bottom: rect.right_bottom },
        };
        assert(rest == rest_rect(self.layout, rect, max_pos));
        let ghost b1 = *buf;
        erase_rect(buf, rect, rest, theme);
        proof {
            lemma_same_outside_trans(&b0, &b1, buf);
            assert forall|x: int, y: int| in_size(b0.spec_size(), x, y) implies buf.spec_at(x, y) == if empty_space_at(
                b0.spec_size(),
                self.layout,
                self.base.rect,
                self.children@,
                x,
                y,
            ) {
                theme.background
            } else {
                b0.spec_at(x, y)
            } by {
                assert(b1.spec_at(x, y) == if beside_any(
                    b0.spec_size(),
                    self.layout,
                    rect,
                    self.children@,
                    self.children@.len() as int,
                    x,
                    y,
                ) {
                    theme.background
                } else {
                    b0.spec_at(x, y)
                });
            }
        }
    }

    /// When the container is visible: draws each child in its rectangle (all of them forced
    /// when the container is to be drawn), then paints the space no child covers.
    pub fn draw<L: FontLoader>(
        &mut self,
        buf: &mut ImageViewMut<u32>,
        theme: &GuiColorTheme,
        force: bool,
        fonts: &mut FontFactory<L>,
    ) -> (r: bool)
        requires
            old(fonts).wf(),
        ensures
            r,
            final(fonts).wf(),
            lines_grow(old(fonts).lines(), final(fonts).lines()),
            final(fonts).lines().len() == old(fonts).lines().len(),
            same_outside(old(buf), final(buf)),
            final(self).base == (if old(self).base.visible {
                drawn_base(old(self).base)
            } else {
                old(self).base
            }),
            final(self).children@.len() == old(self).children@.len(),
            final(self).layout == old(self).layout,
            final(self).support_compression == old(self).support_compression,
            container_drawn(*old(self), *theme, force, *old(buf), *final(buf), old(fonts).lines(), final(fonts).lines()),
        decreases *old(self), 1int,
    {
        if !self.base.visible {
            return true;
        }
        let need_force = self.base.can_draw(force);
        let rect = self.base.rect;
        let ghost b0 = *buf;
        let ghost mut imgs: Seq<ImageViewMut<u32>> = seq![*buf];
        let ghost mut ls: Seq<Seq<FontLine>> = seq![fonts.lines()];
        let n = self.children.len();
        let mut i: usize = 0;
        while i < n
            invariant
                i <= n,
                n == self.children@.len(),
                n == old(self).children@.len(),
                self.base == drawn_base(old(self).base),
                rect == old(self).base.rect,
                need_force == (old(self).base.need_redraw || force),
                self.layout == old(self).layout,
                self.support_compression == old(self).support_compression,
                forall|j: int| i <= j < n ==> self.children@[j] == old(self).children@[j],
                forall|j: int| 0 <= j < i ==> #[trigger] base_of(self.children@[j]).rect == base_of(old(self).children@[j]).rect,
                fonts.wf(),
                lines_grow(old(fonts).lines(), fonts.lines()),
                fonts.lines().len() == old(fonts).lines().len(),
                same_outside(&b0, buf),
                imgs.len() == i + 1,
                ls.len() == i + 1,
                imgs[0] == b0,
                ls[0] == old(fonts).lines(),
                imgs[i as int] == *buf,
                ls[i as int] == fonts.lines(),
                forall|j: int|
                    #![trigger old(self).children@[j]]
                    0 <= j < i ==> child_drawn_in(
                        old(self).children@[j],
                        rect,
                        *theme,
                        need_force,
                        imgs[j],
                        imgs[j + 1],
                        ls[j],
                        ls[j + 1],
                    ),
            decreases n - i,
        {
            proof {
                assert(decreases_to!(*old(self) => old(self).children));
                assert(decreases_to!(old(self).children => old(self).children@));
                assert(decreases_to!(old(self).children@ => old(self).children@[i as int]));
            }
            let ghost before = *buf;
            let ghost lb = fonts.lines();
            draw_child(&mut self.children[i], rect, buf, theme, need_force, fonts);
            proof {
                lemma_same_outside_trans(&b0, &before, buf);
                imgs = imgs.push(*buf);
                ls = ls.push(fonts.lines());
                assert(child_drawn_in(old(self).children@[i as int], rect, *theme, need_force, imgs[i as int], imgs[i + 1], ls[i as int], ls[i + 1]));
                assert(base_of(self.children@[i as int]).rect == base_of(old(self).children@[i as int]).rect);
            }
            i += 1;
        }
        let ghost b1 = *buf;
        self.fill_empty_space(buf, theme);
        proof {
            lemma_same_outside_trans(&b0, &b1, buf);
            let kids = self.children@;
            assert(imgs.len() == imgs.len() && ls.len() == ls.len() && kids.len() == kids.len());
            assert(container_steps(*old(self), *theme, force, b0, *buf, old(fonts).lines(), fonts.lines(), imgs, ls, kids));
        }
        true
    }
}

impl TabControl {
    /// When the tabs are visible: draws the header and the selected tab; when forced, or when
    /// the selected tab's header button asked for a redraw, draws the line under the header:
    /// in the button's colour under it, in the splitter colour elsewhere.
    pub fn draw<L: FontLoader>(
        &mut self,
        buf: &mut ImageViewMut<u32>,
        theme: &GuiColorTheme,
        force: bool,
        fonts: &mut FontFactory<L>,
    ) -> (r: bool)
        requires
            old(fonts).wf(),
        ensures
            r,
            final(fonts).wf(),
            lines_grow(old(fonts).lines(), final(fonts).lines()),
            final(fonts).lines().len() == old(fonts).lines().len(),
            same_outside(old(buf), final(buf)),
            final(self).base == (if old(self).base.visible {
                drawn_base(old(self).base)
            } else {
                old(self).base
            }),
            final(self).children@.len() == old(self).children@.len(),
            final(self).header.container.children@.len() == old(self).header.container.children@.len(),
            tabs_drawn(*old(self), *theme, force, *old(buf), *final(buf), old(fonts).lines(), final(fonts).lines()),
        decreases *old(self), 1int,
    {
        if !self.base.visible {
            return true;
        }
        let need_force = self.base.can_draw(force);
        let sel = self.header.selected_index;
        let button_index: Option<usize> = if sel < self.header.buttons.len() {
            Some(self.header.buttons[sel])
        } else {
            None
        };
        let has_button_updates = match button_index {
            Some(bi) => {
                if bi < self.header.container.children.len() {
                    match &self.header.container.children[bi] {
                        Control::Button(b) => b.base.need_redraw,
                        _ => false,
                    }
                } else {
                    false
                }
            },
            None => false,
        };
        let ghost b0 = *buf;
        proof {
            assert(decreases_to!(*old(self) => old(self).header));
            assert(decreases_to!(old(self).header => old(self).header.container));
        }
        self.header.container.draw(buf, theme, need_force, fonts);
        let ghost b1 = *buf;
        let ghost la = fonts.lines();
        let rect = self.base.rect;
        if sel < self.children.len() {
            proof {
                assert(decreases_to!(*old(self) => old(self).children));
                assert(decreases_to!(old(self).children => old(self).children@));
                assert(decreases_to!(old(self).children@ => old(self).children@[sel as int]));
            }
            draw_child(&mut self.children[sel], rect, buf, theme, need_force, fonts);
        }
        let ghost b2 = *buf;
        proof {
            lemma_same_outside_trans(&b0, &b1, &b2);
        }
        let size = buf.get_size();
        let height = self.height;
        if (need_force || has_button_updates) && (height as i64) < ((#[verifier::truncate] (size.1 as i32)) as i64) {
            match button_index {
                Some(bi) => {
                    if bi < self.header.container.children.len() {
                        let found: Option<(u32, Rect)> = match &self.header.container.children[bi] {
                            Control::Button(b) => Some((b.get_background_color(theme), b.base.rect)),
                            _ => None,
                        };
                        match found {
                            Some((color, button_rect)) => {
                                let x1: i64 = button_rect.left_top.0 as i64 - rect.left_top.0 as i64;
                                let x2: i64 = button_rect.right_bottom.0 as i64 - rect.left_top.0 as i64;
                                let w: i64 = (#[verifier::truncate] (size.0 as i32)) as i64;
                                if x1 >= 0 && x1 <= x2 && x2 <= w && height >= 0 && height < i32::MAX {
                                    let top = height as usize;
                                    let bottom = (height + 1) as usize;
                                    let ghost c0 = *buf;
                                    buf.fill_part((x1 as usize, top), (x2 as usize, bottom), &SetPixel(color));
                                    let ghost c1 = *buf;
                                    buf.fill_part((0, top), (x1 as usize, bottom), &SetPixel(theme.splitter));
                                    let ghost c2 = *buf;
                                    buf.fill_part((x2 as usize, top), (w as usize, bottom), &SetPixel(theme.splitter));
                                    proof {
                                        lemma_same_outside_trans(&c0, &c1, &c2);
                                        lemma_same_outside_trans(&c0, &c2, buf);
                                        assert forall|x: int, y: int| in_size(c0.spec_size(), x, y) && y != height implies #[trigger] buf.spec_at(x, y)
                                            == c0.spec_at(x, y) by {
                                            assert(c1.spec_at(x, y) == c0.spec_at(x, y));
                                            assert(c2.spec_at(x, y) == c1.spec_at(x, y));
                                        }
                                    }
                                }
                            },
                            None => {},
                        }
                    }
                },
                None => {},
            }
        }
        proof {
            lemma_same_outside_trans(&b0, &b2, buf);
            assert(la.len() == la.len() && b1.spec_size() == b1.spec_size() && b2.spec_size() == b2.spec_size());
            assert(tabs_steps(*old(self), *theme, force, b0, *buf, old(fonts).lines(), fonts.lines(), b1, b2, la));
        }
        true
    }
}

impl Control {
    /// Draws the control into the window of `buf` (`force` redraws it even if it did not ask
    /// for a redraw); nothing outside the window changes, and the control's redraw request is
    /// cleared as `spec_drawn_base` says. The result is what the control's drawing gave.
    pub fn draw<L: FontLoader>(
        &mut self,
        buf: &mut ImageViewMut<u32>,
        theme: &GuiColorTheme,
        force: bool,
        fonts: &mut FontFactory<L>,
    ) -> (r: bool)
        requires
            old(fonts).wf(),
        ensures
            final(fonts).wf(),
            lines_grow(old(fonts).lines(), final(fonts).lines()),
            final(fonts).lines().len() == old(fonts).lines().len(),
            same_outside(old(buf), final(buf)),
            base_of(*final(self)) == spec_drawn_base(*old(self)),
            child_count(*final(self)) == child_count(*old(self)),
            r == spec_draw_result(*old(self)),
            drawn_by(*old(self), *theme, force, *old(buf), *final(buf), old(fonts).lines(), final(fonts).lines()),
        decreases *old(self), 1int,
    {
        match self {
            Control::Container(k) => {
                proof {
                    assert(decreases_to!(*old(self) => old(self)->Container_0));
                }
                k.draw(buf, theme, force, fonts)
            },
            Control::RadioGroup(g) => {
                proof {
                    assert(decreases_to!(*old(self) => old(self)->RadioGroup_0));
                    assert(decreases_to!(old(self)->RadioGroup_0 => old(self)->RadioGroup_0.container));
                }
                g.container.draw(buf, theme, force, fonts)
            },
            Control::TabControl(t) => {
                proof {
                    assert(decreases_to!(*old(self) => old(self)->TabControl_0));
                }
                t.draw(buf, theme, force, fonts)
            },
            Control::ColorBox(x) => x.draw(buf, theme, force),
            Control::EmptySpace(x) => x.draw(buf, theme, force),
            Control::Button(x) => x.draw(buf, theme, force, fonts),
            Control::CheckBox(x) => x.draw(buf, fonts),
            Control::TextBox(x) => x.draw(buf, theme, force, fonts),
            Control::Edit(x) => x.draw(buf, theme, force, fonts),
            Control::ScrollV(x) => x.draw(buf, theme, force),
            Control::ListBox(x) => x.draw(buf, theme, force, fonts),
        }
    }
}

/// Whether `a` and `b` have the same children.
pub open spec fn same_children(a: Control, b: Control) -> bool {
    &&& child_count(a) == child_count(b)
    &&& forall|i: int| 0 <= i < child_count(a) ==> #[trigger] child_of(a, i) == child_of(b, i)
}

/// Replacing the shared state of a control keeps its children.
pub proof fn lemma_with_base_same_children(c: Control, base: GuiControlBase)
    ensures
        same_children(c, with_base(c, base)),
        base_of(with_base(c, base)) == base,
{
    crate::gui::gui_components::lemma_base_of_with_base(c, base);
}

/// A control replaced at a path is found there afterwards.
pub proof fn lemma_replaced_found(old: Control, new: Control, p: Seq<usize>, x: Control)
    requires
        replaced_at(old, new, p, x),
        control_at(old, p) is Some,
    ensures
        control_at(new, p) == Some(x),
    decreases p.len(),
{
    if p.len() > 0 {
        lemma_replaced_found(child_of(old, p[0] as int), child_of(new, p[0] as int), p.drop_first(), x);
    }
}

/// Replacing the control at `p` by one with the same children leaves every other control
/// found where it was, with the shared state it had (the controls below `p` are the same).
pub proof fn lemma_replaced_elsewhere(old: Control, new: Control, p: Seq<usize>, x: Control, q: Seq<usize>)
    requires
        replaced_at(old, new, p, x),
        control_at(old, p) matches Some(n) && same_children(n, x),
        control_at(old, q) is Some,
        q != p,
    ensures
        control_at(new, q) is Some,
        base_of(control_at(new, q)->0) == base_of(control_at(old, q)->0),
    decreases p.len(),
{
    if p.len() == 0 {
        let n = control_at(old, p)->0;
        assert(n == old);
        if q.len() == 0 {
            assert(q =~= p);
        }
        assert(child_of(x, q[0] as int) == child_of(old, q[0] as int));
    } else if q.len() == 0 {
    } else if p[0] != q[0] {
        assert(child_of(new, q[0] as int) == child_of(old, q[0] as int));
    } else {
        assert(p.drop_first() != q.drop_first()) by {
            if p.drop_first() == q.drop_first() {
                assert(p =~= seq![p[0]] + p.drop_first());
                assert(q =~= seq![q[0]] + q.drop_first());
            }
        }
        lemma_replaced_elsewhere(
            child_of(old, p[0] as int),
            child_of(new, p[0] as int),
            p.drop_first(),
            x,
            q.drop_first(),
        );
    }
}

/// Replacing the control at `p` by one with the same children finds no control where there
/// was none.
pub proof fn lemma_replaced_absent(old: Control, new: Control, p: Seq<usize>, x: Control, q: Seq<usize>)
    requires
        replaced_at(old, new, p, x),
        control_at(old, p) matches Some(n) && same_children(n, x),
        control_at(old, q) is None,
    ensures
        control_at(new, q) is None,
    decreases p.len(),
{
    if p.len() == 0 {
        let n = control_at(old, p)->0;
        assert(n == old);
        if (q[0] as int) < child_count(old) {
            assert(child_of(x, q[0] as int) == child_of(old, q[0] as int));
        }
    } else if q.len() == 0 {
    } else if p[0] != q[0] {
        if (q[0] as int) < child_count(old) {
            assert(child_of(new, q[0] as int) == child_of(old, q[0] as int));
        }
    } else {
        lemma_replaced_absent(
            child_of(old, p[0] as int),
            child_of(new, p[0] as int),
            p.drop_first(),
            x,
            q.drop_first(),
        );
    }
}

/// What a control does itself on a message keeps its shared state and its children.
pub proof fn lemma_input_keeps_base(
    x: Control,
    y: Control,
    m: GuiMessage,
    o: MessageOutput,
    n: MessageOutput,
    r: bool,
    lines: Seq<FontLine>,
)
    requires
        input_post(x, y, m, o, n, r, lines),
    ensures
        base_of(y) == base_of(x),
        same_children(x, y),
{
    match (x, y) {
        (Control::Edit(a), Control::Edit(b)) => {
            crate::gui::edit::lemma_message_keeps_base(a, b, m, o, n, r, font_glyphs(lines, a.spec_font()));
        },
        _ => {},
    }
}

/// Whether a control takes presses and releases of the mouse button: buttons, check boxes,
/// edits, scroll bars and list boxes do.
pub open spec fn takes_clicks(c: Control) -> bool {
    match c {
        Control::Button(_) => true,
        Control::CheckBox(_) => true,
        Control::Edit(_) => true,
        Control::ScrollV(_) => true,
        Control::ListBox(_) => true,
        _ => false,
    }
}

/// A press or a release of the mouse button is taken exactly by the controls that take
/// clicks.
pub proof fn lemma_click_taken(
    x: Control,
    y: Control,
    m: GuiMessage,
    o: MessageOutput,
    n: MessageOutput,
    r: bool,
    lines: Seq<FontLine>,
)
    requires
        input_post(x, y, m, o, n, r, lines),
        m is MouseDown || m is MouseUp,
    ensures
        r == takes_clicks(x),
{
}

/// The path `find_path` gives leads to a control.
#[verifier::spinoff_prover]
#[verifier::rlimit(60)]
pub proof fn lemma_find_path_valid(c: Control, position: Position)
    ensures
        control_at(c, find_path(c, position)) is Some,
    decreases c,
{
    let p = find_path(c, position);
    match c {
        Control::Container(k) => {
            lemma_first_containing(k.children@, position, 0);
            let i = first_containing(k.children@, position, 0);
            if i < k.children@.len() {
                assert(decreases_to!(c => k));
                assert(decreases_to!(k => k.children));
                assert(decreases_to!(k.children => k.children@));
                assert(decreases_to!(k.children@ => k.children@[i]));
                lemma_find_path_valid(k.children@[i], position);
                assert(k.children@.len() == k.children.len());
                assert(i as usize as int == i);
                assert(p.drop_first() =~= find_path(k.children@[i], position));
                assert(control_at(c, p) == control_at(child_of(c, i), p.drop_first()));
            }
        },
        Control::RadioGroup(g) => {
            lemma_first_containing(g.container.children@, position, 0);
            let i = first_containing(g.container.children@, position, 0);
            if i < g.container.children@.len() {
                assert(decreases_to!(c => g));
                assert(decreases_to!(g => g.container));
                assert(decreases_to!(g.container => g.container.children));
                assert(decreases_to!(g.container.children => g.container.children@));
                assert(decreases_to!(g.container.children@ => g.container.children@[i]));
                lemma_find_path_valid(g.container.children@[i], position);
                assert(g.container.children@.len() == g.container.children.len());
                assert(i as usize as int == i);
                assert(p.drop_first() =~= find_path(g.container.children@[i], position));
                assert(control_at(c, p) == control_at(child_of(c, i), p.drop_first()));
            }
        },
        Control::TabControl(t) => {
            let sel = t.header.selected_index as int;
            assert(decreases_to!(c => t));
            assert(decreases_to!(t => t.children));
            assert(decreases_to!(t.children => t.children@));
            assert(decreases_to!(t => t.header));
            assert(decreases_to!(t.header => t.header.container));
            assert(decreases_to!(t.header.container => t.header.container.children));
            assert(decreases_to!(t.header.container.children => t.header.container.children@));
            if sel < t.children@.len() && rect_contains(base_of(t.children@[sel]).rect, position) {
                assert(decreases_to!(t.children@ => t.children@[sel]));
                lemma_find_path_valid(t.children@[sel], position);
                assert(t.children@.len() == t.children.len());
                assert((sel + 1) as usize as int == sel + 1);
                assert(p.drop_first() =~= find_path(t.children@[sel], position));
                assert(control_at(c, p) == control_at(child_of(c, sel + 1), p.drop_first()));
            } else {
                lemma_first_containing(t.header.container.children@, position, 0);
                let j = first_containing(t.header.container.children@, position, 0);
                if j < t.header.container.children@.len() {
                    assert(decreases_to!(t.header.container.children@ => t.header.container.children@[j]));
                    lemma_find_path_valid(t.header.container.children@[j], position);
                    let h = Control::RadioGroup(t.header);
                    assert(p.drop_first() =~= seq![j as usize] + find_path(t.header.container.children@[j], position));
                    assert(p.drop_first().drop_first() =~= find_path(t.header.container.children@[j], position));
                    assert(child_of(c, 0) == h);
                    assert(child_of(h, j) == t.header.container.children@[j]);
                    assert(t.header.container.children@.len() == t.header.container.children.len());
                    assert(j as usize as int == j);
                    assert(p.drop_first()[0] == j as usize);
                    assert(control_at(h, p.drop_first()) == control_at(child_of(h, j), p.drop_first().drop_first()));
                    assert(control_at(c, p) == control_at(h, p.drop_first()));
                }
            }
        },
        _ => {},
    }
}

/// Writing a control's shared state at a path is read back there, and every other control
/// keeps its shared state.
pub proof fn law_base_write_read(old: Control, new: Control, p: Seq<usize>, base: GuiControlBase, q: Seq<usize>)
    requires
        control_at(old, p) is Some,
        replaced_at(old, new, p, with_base(control_at(old, p)->0, base)),
    ensures
        control_at(new, p) matches Some(y) && base_of(y) == base,
        q != p && control_at(old, q) is Some ==> control_at(new, q) is Some && base_of(
            control_at(new, q)->0,
        ) == base_of(control_at(old, q)->0),
{
    let x = control_at(old, p)->0;
    lemma_replaced_found(old, new, p, with_base(x, base));
    lemma_with_base_same_children(x, base);
    if q != p && control_at(old, q) is Some {
        lemma_replaced_elsewhere(old, new, p, with_base(x, base), q);
    }
}

/// Whether the control holds other controls: containers, radio groups and tabs.
pub open spec fn is_group(c: Control) -> bool {
    c is Container || c is RadioGroup || c is TabControl
}

/// Whether the control offers a hot-key of its own: a button with a hot-key and a callback.
pub open spec fn offers_hotkey(c: Control) -> bool {
    c matches Control::Button(b) && b.hotkey is Some && button_job(b) is Some
}

/// `n` is `o` with its size constraints replaced by `c`.
pub open spec fn out_with_constraints(o: MessageOutput, n: MessageOutput, c: SizeConstraints) -> bool {
    &&& n.jobs@ == o.jobs@
    &&& n.unfocus == o.unfocus
    &&& n.use_default_keydown == o.use_default_keydown
    &&& n.hotkeys@ == o.hotkeys@
    &&& n.size_constraints == c
    &&& n.clicked == o.clicked
}

/// Handling `m` turns `old` into `new`, the output `o` into `n`, and returns `r`, with
/// `lines` the font lines afterwards: a group reports its size constraints and lays out
/// its children in its rectangle; every control appends the hot-keys it offers; showing,
/// hiding, making and destroying change nothing (groups answer that they took them); any
/// other message is the control's own, as `input_post` says.
pub open spec fn message_post(
    old: Control,
    new: Control,
    m: GuiMessage,
    o: MessageOutput,
    n: MessageOutput,
    r: bool,
    lines: Seq<FontLine>,
) -> bool {
    match m {
        GuiMessage::UpdateSizeConstraints => if is_group(old) {
            &&& r
            &&& out_with_constraints(o, n, spec_size_constraints(old))
            &&& base_of(new) == (if updates_current(old) {
                GuiControlBase { current_size_constraints: spec_size_constraints(old), ..base_of(old) }
            } else {
                base_of(old)
            })
        } else {
            !r && new == old && out_same(o, n)
        },
        GuiMessage::RectUpdated => if is_group(old) {
            &&& r
            &&& out_same(o, n)
            &&& base_of(new) == (GuiControlBase { rect: normalize_rect(base_of(old).rect), ..base_of(old) })
            &&& set_rect_post(old, new, normalize_rect(base_of(old).rect))
        } else {
            input_post(old, new, m, o, n, r, lines)
        },
        GuiMessage::GetHotkeys(active) => {
            &&& new == old
            &&& r == offers_hotkey(old)
            &&& n.hotkeys@ == o.hotkeys@ + spec_hotkeys(old, active)
            &&& n.jobs@ == o.jobs@
            &&& n.unfocus == o.unfocus
            &&& n.use_default_keydown == o.use_default_keydown
            &&& n.size_constraints == o.size_constraints
            &&& n.clicked == o.clicked
        },
        GuiMessage::Show => new == old && out_same(o, n) && r == is_group(old),
        GuiMessage::Hide => new == old && out_same(o, n) && r == is_group(old),
        GuiMessage::Create => new == old && out_same(o, n) && r == is_group(old),
        GuiMessage::Destroy => new == old && out_same(o, n) && r == is_group(old),
        _ => input_post(old, new, m, o, n, r, lines),
    }
}

impl Control {
    fn is_group(&self) -> (r: bool)
        ensures
            r == is_group(*self),
    {
        match self {
            Control::Container(_) => true,
            Control::RadioGroup(_) => true,
            Control::TabControl(_) => true,
            _ => false,
        }
    }

    /// Handles a message about the control's life (`Show`, `Hide`, `Create`, `Destroy`), as
    /// `message_post` says: containers, radio groups and tabs take it (they hand it on to
    /// their children, which take no such message), and it leaves every control as it is.
    pub fn on_lifecycle(&mut self, m: &GuiMessage) -> (r: bool)
        requires
            *m is Show || *m is Hide || *m is Create || *m is Destroy,
        ensures
            *final(self) == *old(self),
            r == is_group(*old(self)),
            forall|o: MessageOutput, lines: Seq<FontLine>|
                #![trigger message_post(*old(self), *final(self), *m, o, o, r, lines)]
                message_post(*old(self), *final(self), *m, o, o, r, lines),
    {
        self.is_group()
    }

    /// Handles `m`, as `message_post` says.
    pub fn on_message<L: FontLoader, C: ClipboardHandler>(
        &mut self,
        m: &GuiMessage,
        out: &mut MessageOutput,
        fonts: &mut FontFactory<L>,
        clipboard: &C,
    ) -> (r: bool)
        requires
            old(fonts).wf(),
        ensures
            final(fonts).wf(),
            lines_grow(old(fonts).lines(), final(fonts).lines()),
            final(fonts).lines().len() == old(fonts).lines().len(),
            message_post(*old(self), *final(self), *m, *old(out), *final(out), r, final(fonts).lines()),
    {
        match m {
            GuiMessage::UpdateSizeConstraints => {
                if self.is_group() {
                    out.size_constraints = self.get_size_constraints();
                    true
                } else {
                    false
                }
            },
            GuiMessage::RectUpdated => {
                if self.is_group() {
                    let rect = self.get_base().rect;
                    self.set_rect(rect);
                    true
                } else {
                    self.on_input(m, out, fonts, clipboard)
                }
            },
            GuiMessage::GetHotkeys(active) => {
                self.get_hotkeys(*active, &mut out.hotkeys);
                match self {
                    Control::Button(b) => b.hotkey.is_some() && b.job().is_some(),
                    _ => false,
                }
            },
            GuiMessage::Show => self.is_group(),
            GuiMessage::Hide => self.is_group(),
            GuiMessage::Create => self.is_group(),
            GuiMessage::Destroy => self.is_group(),
            _ => self.on_input(m, out, fonts, clipboard),
        }
    }
}

/// What every control offers: its shared state, and the handling of messages.
pub trait GuiControl {
    /// The state the control shares with every control.
    fn get_base(&self) -> GuiControlBase;

    /// Replaces the state the control shares with every control.
    fn set_base(&mut self, base: GuiControlBase);

    /// Handles `m`; whether the control took it.
    fn on_message<L: FontLoader, C: ClipboardHandler>(
        &mut self,
        m: &GuiMessage,
        out: &mut MessageOutput,
        fonts: &mut FontFactory<L>,
        clipboard: &C,
    ) -> bool
        requires
            old(fonts).wf(),
    ;
}

impl GuiControl for Control {
    fn get_base(&self) -> (r: GuiControlBase)
        ensures
            r == base_of(*self),
    {
        Control::get_base(self)
    }

    fn set_base(&mut self, base: GuiControlBase)
        ensures
            *final(self) == with_base(*old(self), base),
    {
        Control::set_base(self, base)
    }

    fn on_message<L: FontLoader, C: ClipboardHandler>(
        &mut self,
        m: &GuiMessage,
        out: &mut MessageOutput,
        fonts: &mut FontFactory<L>,
        clipboard: &C,
    ) -> (r: bool)
        ensures
            final(fonts).wf(),
            lines_grow(old(fonts).lines(), final(fonts).lines()),
            final(fonts).lines().len() == old(fonts).lines().len(),
            message_post(*old(self), *final(self), *m, *old(out), *final(out), r, final(fonts).lines()),
    {
        Control::on_message(self, m, out, fonts, clipboard)
    }
}

} // verus!
