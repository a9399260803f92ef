//! The panel at the bottom of the editor: check boxes for the grid and for what the cursor
//! snaps to, and what their callbacks do to the settings.

use vstd::prelude::*;
use crate::config::{Config, SnapOptions};
use crate::font::{Font, FontFactory, FontLine, FontLoader, lines_grow, text_size, font_glyphs};
use crate::gui::gui_components::{
    Button, ButtonCallback, ButtonCheckState, ColorBox, Container, ContainerLayout, Control, EmptySpace,
};
use crate::gui::{SizeConstraint, SizeConstraints, new_base, tdiv};
use crate::gui_helper::{create_default_size_check_button, create_default_size_text_box};
use crate::job_system::Job;

verus! {

/// The callbacks of the check boxes of the bottom panel.
#[derive(PartialEq, Eq, Structural, Copy, Clone, Debug)]
pub struct BottomPanelIds {
    pub show_grid: usize,
    pub snap_grid: usize,
    pub snap_endpoints: usize,
    pub snap_crosses: usize,
    pub snap_centers: usize,
}

/// Whether `c` is a check box captioned `text`, checked as `checked` says, whose clicks ask
/// for the callback `id`.
pub open spec fn is_check_box(c: Control, text: Seq<char>, checked: bool, id: usize) -> bool {
    match c {
        Control::Button(b) => {
            &&& b.text@ == text
            &&& b.check_state == ButtonCheckState::CheckBox(checked)
            &&& b.callback == Some(ButtonCallback(id))
            &&& b.callback_with_check
        },
        _ => false,
    }
}

/// Whether `panel` is the bottom panel for the settings `config`: the grid check box, a
/// one pixel wide separator, the caption of the snapping options, and their four check
/// boxes with gaps of half a digit's width between them.
pub open spec fn bottom_panel_shape(panel: Container, config: Config, ids: BottomPanelIds, gap: i32) -> bool {
    let c = panel.children@;
    &&& panel.layout == ContainerLayout::Horizontal
    &&& c.len() == 10
    &&& is_check_box(c[0], "Показать сетку"@, config.show_grid, ids.show_grid)
    &&& c[1] matches Control::ColorBox(b) && b.base == new_base(
        SizeConstraints(SizeConstraint { absolute: 1, relative: 0 }, SizeConstraint { absolute: 0, relative: 100 }),
    )
    &&& c[2] matches Control::TextBox(t) && t.text@ == "Привязки:"@
    &&& is_check_box(c[3], "Узлы сетки"@, config.snap_options.snap_grid, ids.snap_grid)
    &&& is_gap(c[4], gap)
    &&& is_check_box(c[5], "Концы"@, config.snap_options.snap_endpoints, ids.snap_endpoints)
    &&& is_gap(c[6], gap)
    &&& is_check_box(c[7], "Пересечения"@, config.snap_options.snap_crosses, ids.snap_crosses)
    &&& is_gap(c[8], gap)
    &&& is_check_box(c[9], "Центры дуг"@, config.snap_options.snap_centers, ids.snap_centers)
}

/// Whether `c` is empty space `width` pixels wide.
pub open spec fn is_gap(c: Control, width: i32) -> bool {
    c matches Control::EmptySpace(e) && e.base == new_base(
        SizeConstraints(SizeConstraint { absolute: width, relative: 0 }, SizeConstraint { absolute: 0, relative: 100 }),
    )
}

/// A check box captioned `text`, checked as `checked` says, asking for the callback `id`.
fn check_box<L: FontLoader>(text: &str, checked: bool, id: usize, font: &Font, fonts: &mut FontFactory<L>) -> (r: Button)
    requires
        old(fonts).wf(),
    ensures
        final(fonts).wf(),
        lines_grow(old(fonts).lines(), final(fonts).lines()),
        final(fonts).lines().len() == old(fonts).lines().len(),
        is_check_box(Control::Button(r), text@, checked, id),
{
    create_default_size_check_button(text, *font, fonts).check_box(checked).checkbox_callback(ButtonCallback(id))
}

/// The bottom panel's own size constraints and gap for the glyphs `glyphs`: stretching
/// across, as high as a digit plus 2 pixels (wrapping as `as` does), and gaps half a digit
/// wide.
pub open spec fn bottom_panel_sized(panel: Container, config: Config, ids: BottomPanelIds, glyphs: Map<char, crate::font::Glyph>) -> bool {
    let d = text_size(glyphs, "8"@);
    &&& panel.base == new_base(
        SizeConstraints(
            SizeConstraint { absolute: 0, relative: 100 },
            SizeConstraint { absolute: (d.1 as i32).wrapping_add(2), relative: 0 },
        ),
    )
    &&& bottom_panel_shape(panel, config, ids, tdiv((d.0 as i32) as int, 2) as i32)
}

/// Adds the bottom panel for the settings `config` to `root`, its check boxes asking for
/// the callbacks `ids`; the panel is as high as a digit plus 2 pixels. Gives the panel's
/// index among the children of `root`.
pub fn create_bottom_panel<L: FontLoader>(
    root: &mut Container,
    font: &Font,
    fonts: &mut FontFactory<L>,
    config: &Config,
    ids: &BottomPanelIds,
) -> (r: usize)
    requires
        old(fonts).wf(),
    ensures
        final(fonts).wf(),
        lines_grow(old(fonts).lines(), final(fonts).lines()),
        final(fonts).lines().len() == old(fonts).lines().len(),
        r == old(root).children@.len(),
        final(root).children@.len() == old(root).children@.len() + 1,
        final(root).children@.drop_last() == old(root).children@,
        final(root).layout == old(root).layout,
        final(root).children@.last() matches Control::Container(panel) && exists|gap: i32|
            bottom_panel_shape(panel, *config, *ids, gap),
        final(root).children@.last() matches Control::Container(panel) && exists|l: Seq<FontLine>|
            #![trigger font_glyphs(l, *font)]
            lines_grow(old(fonts).lines(), l) && lines_grow(l, final(fonts).lines()) && bottom_panel_sized(
                panel,
                *config,
                *ids,
                font_glyphs(l, *font),
            ),
{
    let symbol = font.get_size("8", fonts);
    let ghost l1 = fonts.lines();
    let height: i32 = (#[verifier::truncate] (symbol.1 as i32)).wrapping_add(2);
    let gap: i32 = (#[verifier::truncate] (symbol.0 as i32)) / 2;
    let mut panel = Container::new(
        SizeConstraints(SizeConstraint::flexible(0), SizeConstraint::fixed(height)),
        ContainerLayout::Horizontal,
    );
    let b = check_box("Показать сетку", config.show_grid, ids.show_grid, font, fonts);
    panel.add_child(Control::Button(b));
    panel.add_child(
        Control::ColorBox(ColorBox::new(SizeConstraints(SizeConstraint::fixed(1), SizeConstraint::flexible(0)))),
    );
    let t = create_default_size_text_box("Привязки:", *font, fonts);
    panel.add_child(Control::TextBox(t));
    let snap = config.snap_options;
    let b = check_box("Узлы сетки", snap.snap_grid, ids.snap_grid, font, fonts);
    panel.add_child(Control::Button(b));
    panel.add_child(
        Control::EmptySpace(EmptySpace::new(SizeConstraints(SizeConstraint::fixed(gap), SizeConstraint::flexible(0)))),
    );
    let b = check_box("Концы", snap.snap_endpoints, ids.snap_endpoints, font, fonts);
    panel.add_child(Control::Button(b));
    panel.add_child(
        Control::EmptySpace(EmptySpace::new(SizeConstraints(SizeConstraint::fixed(gap), SizeConstraint::flexible(0)))),
    );
    let b = check_box("Пересечения", snap.snap_crosses, ids.snap_crosses, font, fonts);
    panel.add_child(Control::Button(b));
    panel.add_child(
        Control::EmptySpace(EmptySpace::new(SizeConstraints(SizeConstraint::fixed(gap), SizeConstraint::flexible(0)))),
    );
    let b = check_box("Центры дуг", snap.snap_centers, ids.snap_centers, font, fonts);
    panel.add_child(Control::Button(b));
    let ghost p = panel;
    assert(bottom_panel_shape(p, *config, *ids, gap));
    assert(bottom_panel_sized(p, *config, *ids, font_glyphs(l1, *font)));
    let r = root.add_child(Control::Container(panel));
    assert(root.children@.drop_last() =~= old(root).children@);
    r
}

/// What a check box of the bottom panel does to the settings: the job of the check box
/// with callback `id`, told `checked`, sets the setting it stands for to `checked`; other
/// jobs change nothing.
pub open spec fn bottom_panel_job_post(old: Config, new: Config, ids: BottomPanelIds, job: Job) -> bool {
    match job {
        Job::CheckBox(id, checked) => if id == ids.show_grid {
            new == Config { show_grid: checked, ..old }
        } else if id == ids.snap_grid {
            new == Config { snap_options: SnapOptions { snap_grid: checked, ..old.snap_options }, ..old }
        } else if id == ids.snap_endpoints {
            new == Config { snap_options: SnapOptions { snap_endpoints: checked, ..old.snap_options }, ..old }
        } else if id == ids.snap_crosses {
            new == Config { snap_options: SnapOptions { snap_crosses: checked, ..old.snap_options }, ..old }
        } else if id == ids.snap_centers {
            new == Config { snap_options: SnapOptions { snap_centers: checked, ..old.snap_options }, ..old }
        } else {
            new == old
        },
        _ => new == old,
    }
}

/// Runs the callback of a check box of the bottom panel that `job` asks for.
pub fn apply_bottom_panel_job(config: &mut Config, ids: &BottomPanelIds, job: &Job)
    ensures
        bottom_panel_job_post(*old(config), *final(config), *ids, *job),
{
    match job {
        Job::CheckBox(id, checked) => {
            if *id == ids.show_grid {
                config.show_grid = *checked;
            } else if *id == ids.snap_grid {
                config.snap_options.snap_grid = *checked;
            } else if *id == ids.snap_endpoints {
                config.snap_options.snap_endpoints = *checked;
            } else if *id == ids.snap_crosses {
                config.snap_options.snap_crosses = *checked;
            } else if *id == ids.snap_centers {
                config.snap_options.snap_centers = *checked;
            }
        },
        _ => {},
    }
}

} // verus!
