//! The GUI system: the root of the control tree, which controls have the focus, the
//! highlight and the pressed mouse, and the handling of the window's input events.

use vstd::prelude::*;
use crate::clipboard::ClipboardHandler;
use crate::font::{FontFactory, FontLine, FontLoader, lines_grow};
use crate::gui::gui_components::{Control, base_of, with_base, child_count, child_of};
use crate::gui::tree::{control_at, find_path, takes_clicks, lemma_click_taken, lemma_find_path_valid, spec_hotkeys, lemma_replaced_found, lemma_replaced_elsewhere, lemma_replaced_absent, lemma_input_keeps_base, lemma_with_base_same_children, delivered, clicked_post, button_position, set_rect_post, normalize_rect, drawn_by, spec_drawn_base};
use crate::gui::{GuiColorTheme, GuiControlBase, GuiMessage, HotkeyCallback, MessageOutput, Rect, SizeConstraint, SizeConstraints, light_theme, light_theme_spec};
use crate::image::{Position, image_size_to_position, same_outside};
use crate::draw_context::DrawContext;
use crate::font::Font;
use crate::keys::spec_hotkey_text;
use crate::font::{text_size, font_glyphs};
use crate::keys::Key;
use crate::job_system::same_job;
use crate::job_system::{Job, JobSystem};
use crate::keys::Hotkey;

verus! {

/// One of the flags the system keeps on exactly the control it points to.
#[derive(PartialEq, Eq, Structural, Copy, Clone)]
pub enum ControlFlag {
    Focus,
    Highlight,
    Pressed,
}

/// The value of flag `f` in `b`.
pub open spec fn flag_of(b: GuiControlBase, f: ControlFlag) -> bool {
    match f {
        ControlFlag::Focus => b.focus,
        ControlFlag::Highlight => b.highlight,
        ControlFlag::Pressed => b.pressed,
    }
}

/// `b` with flag `f` set to `v`, asking for a redraw.
pub open spec fn with_flag(b: GuiControlBase, f: ControlFlag, v: bool) -> GuiControlBase {
    match f {
        ControlFlag::Focus => GuiControlBase { focus: v, need_redraw: true, ..b },
        ControlFlag::Highlight => GuiControlBase { highlight: v, need_redraw: true, ..b },
        ControlFlag::Pressed => GuiControlBase { pressed: v, need_redraw: true, ..b },
    }
}

/// The shared state of the control at `p` in the tree `root`, if there is one.
pub open spec fn base_at_path(root: Option<Control>, p: Seq<usize>) -> Option<GuiControlBase> {
    match root {
        Some(r) => match control_at(r, p) {
            Some(x) => Some(base_of(x)),
            None => None,
        },
        None => None,
    }
}

/// The control at `p` in the tree `root` has flag `f` equal to `v` and asks for a redraw.
pub open spec fn flagged_at(root: Option<Control>, p: Seq<usize>, f: ControlFlag, v: bool) -> bool {
    base_at_path(root, p) matches Some(b) && flag_of(b, f) == v && b.need_redraw
}

/// Every control of `a` other than the one at `p` is found in `b` with the same shared state.
pub open spec fn bases_kept_except(a: Option<Control>, b: Option<Control>, p: Seq<usize>) -> bool {
    forall|q: Seq<usize>|
        q != p && base_at_path(a, q) is Some ==> #[trigger] base_at_path(b, q) == base_at_path(a, q)
}

/// Every control of `a` is found in `b` with the same shared state.
pub open spec fn bases_kept(a: Option<Control>, b: Option<Control>) -> bool {
    forall|q: Seq<usize>| base_at_path(a, q) is Some ==> #[trigger] base_at_path(b, q) == base_at_path(a, q)
}

/// No path that leads to no control in `a` leads to one in `b`.
pub open spec fn no_control_added(a: Option<Control>, b: Option<Control>) -> bool {
    forall|z: Seq<usize>| base_at_path(a, z) is None ==> #[trigger] base_at_path(b, z) is None
}

/// `p` as a sequence, if there is one.
pub open spec fn path_view(p: Option<Vec<usize>>) -> Option<Seq<usize>> {
    match p {
        Some(v) => Some(v@),
        None => None,
    }
}

/// What setting flag `f` on the control at `p` (none: clearing it) does to the system
/// `old`, giving `new` and returning `r`: a control that already has the flag only asks for
/// a redraw, and nothing else happens; otherwise the control that had it (if it is another
/// one) loses it, the new one gets it and the system points to it; clearing takes the flag
/// from the control that has it. Every control that gains or loses the flag asks for a
/// redraw; the shared state of every other control stays.
pub open spec fn set_flag_post(old: GuiSystem, new: GuiSystem, f: ControlFlag, p: Option<Seq<usize>>, r: bool) -> bool {
    match p {
        Some(p) => match base_at_path(old.root, p) {
            Some(b) => if flag_of(b, f) {
                &&& !r
                &&& new.flag_path(f) == old.flag_path(f)
                &&& base_at_path(new.root, p) == Some(GuiControlBase { need_redraw: true, ..b })
                &&& bases_kept_except(old.root, new.root, p)
            } else {
                &&& r
                &&& new.flag_path(f) == Some(p)
                &&& base_at_path(new.root, p) == Some(with_flag(b, f, true))
                &&& match old.flag_path(f) {
                    Some(q) => if q != p && base_at_path(old.root, q) is Some {
                        &&& base_at_path(new.root, q) == Some(with_flag(base_at_path(old.root, q)->0, f, false))
                        &&& forall|z: Seq<usize>|
                            z != p && z != q && base_at_path(old.root, z) is Some ==> #[trigger] base_at_path(
                                new.root,
                                z,
                            ) == base_at_path(old.root, z)
                    } else {
                        bases_kept_except(old.root, new.root, p)
                    },
                    None => bases_kept_except(old.root, new.root, p),
                }
            },
            None => !r && new.flag_path(f) == old.flag_path(f) && new.root == old.root,
        },
        None => match old.flag_path(f) {
            Some(q) => if base_at_path(old.root, q) is Some {
                &&& r
                &&& new.flag_path(f) is None
                &&& base_at_path(new.root, q) == Some(with_flag(base_at_path(old.root, q)->0, f, false))
                &&& bases_kept_except(old.root, new.root, q)
            } else {
                !r && new.flag_path(f) == old.flag_path(f) && new.root == old.root
            },
            None => !r && new.flag_path(f) == old.flag_path(f) && new.root == old.root,
        },
    }
}

/// Clearing a flag keeps every control of the tree.
proof fn lemma_set_flag_keeps_controls(old: GuiSystem, new: GuiSystem, f: ControlFlag, q: Seq<usize>)
    requires
        set_flag_post(old, new, f, None, true) || set_flag_post(old, new, f, None, false),
        base_at_path(old.root, q) is Some,
    ensures
        base_at_path(new.root, q) is Some,
{
}

/// `o` is a fresh output around the job queue `jobs`: no flag set, no hot-key, no size
/// constraint computed.
pub open spec fn fresh_output(o: MessageOutput, jobs: JobSystem) -> bool {
    &&& o.jobs == jobs
    &&& !o.unfocus
    &&& !o.use_default_keydown
    &&& o.hotkeys@ == Seq::<(Hotkey, HotkeyCallback)>::empty()
    &&& o.size_constraints == SizeConstraints(
        SizeConstraint { absolute: 0, relative: 0 },
        SizeConstraint { absolute: 0, relative: 0 },
    )
    &&& !o.clicked
}

/// The tree `b` is `a` with the control at `path` asking for a redraw, when `r` says the
/// control took the message; `a` itself otherwise.
pub open spec fn redrawn_if(a: Option<Control>, b: Option<Control>, path: Seq<usize>, r: bool) -> bool {
    if r {
        &&& b is Some
        &&& base_at_path(a, path) matches Some(x) ==> base_at_path(b, path) == Some(
            GuiControlBase { need_redraw: true, ..x },
        )
        &&& base_at_path(a, path) is None ==> b == a
        &&& bases_kept_except(a, b, path)
    } else {
        b == a
    }
}

/// `s1` is `s0` after the control at `path` was handed `m` with a fresh output, gave `r`
/// (as `delivered` says, with the font lines `lines`), and asked for a redraw if it took the
/// message; the jobs it asked for are queued.
pub open spec fn handled_at(
    s0: GuiSystem,
    s1: GuiSystem,
    path: Seq<usize>,
    m: GuiMessage,
    r: bool,
    lines: Seq<FontLine>,
) -> bool {
    exists|t: Control, o: MessageOutput, n: MessageOutput|
        #![trigger delivered(s0.root->0, t, path, m, o, n, r, lines)]
        fresh_output(o, s0.job_system) && delivered(s0.root->0, t, path, m, o, n, r, lines)
            && s1.job_system == n.jobs && redrawn_if(Some(t), s1.root, path, r)
}

/// `s1` is `s0` after the focused control, at `q`, was handed the key `k` going down with a
/// fresh output (the font lines being `l` then, between `before` and `after`) and gave `r`:
/// if it kept the focus, its jobs are queued and it asks for a redraw if it took the key; if
/// it gave the focus up, the focus is taken from it and the layout and hot-keys are to be
/// refreshed.
pub open spec fn key_down_handled(
    s0: GuiSystem,
    s1: GuiSystem,
    k: Key,
    r: bool,
    before: Seq<FontLine>,
    after: Seq<FontLine>,
) -> bool {
    let q = s0.flag_path(ControlFlag::Focus)->0;
    exists|t: Control, o: MessageOutput, n: MessageOutput, l: Seq<FontLine>|
        #![trigger delivered(s0.root->0, t, q, GuiMessage::KeyDown(k), o, n, r, l)]
        {
            &&& fresh_output(o, s0.job_system)
            &&& delivered(s0.root->0, t, q, GuiMessage::KeyDown(k), o, n, r, l)
            &&& lines_grow(before, l)
            &&& lines_grow(l, after)
            &&& !n.unfocus ==> s1.job_system == n.jobs && redrawn_if(Some(t), s1.root, q, r)
            &&& n.unfocus ==> s1.flag_path(ControlFlag::Focus) is None && !s1.updated && !s1.updated_hotkeys
                && (base_at_path(s1.root, q) matches Some(b) && !b.focus && b.need_redraw) && s1.job_system
                == n.jobs
        }
}

/// `s1` is `s0` once the control at `path` was handed `m` with a fresh output, leaving the
/// output `n` and giving `r`, with the font lines `lines`: the tree is the one the delivery
/// left, the jobs asked for are queued, and nothing else changes.
pub open spec fn delivered_in(
    s0: GuiSystem,
    s1: GuiSystem,
    path: Seq<usize>,
    m: GuiMessage,
    n: MessageOutput,
    r: bool,
    lines: Seq<FontLine>,
) -> bool {
    exists|t: Control, o: MessageOutput|
        #![trigger delivered(s0.root->0, t, path, m, o, n, r, lines)]
        fresh_output(o, s0.job_system) && delivered(s0.root->0, t, path, m, o, n, r, lines) && s1
            == GuiSystem { root: Some(t), job_system: n.jobs, ..s0 }
}

/// `s1` is `s0` with the control at `path` asking for a redraw when `r` holds; nothing else
/// changes.
pub open spec fn marked_if(s0: GuiSystem, s1: GuiSystem, path: Seq<usize>, r: bool) -> bool {
    &&& redrawn_if(s0.root, s1.root, path, r)
    &&& s1 == GuiSystem { root: s1.root, ..s0 }
}

/// `s1` is `s0` with only the flag `f` moved, as `set_flag_post` says, giving `r`, without
/// telling any control: no job is queued and the refresh flags stay.
pub open spec fn flag_moved(s0: GuiSystem, s1: GuiSystem, f: ControlFlag, p: Option<Seq<usize>>, r: bool) -> bool {
    &&& set_flag_post(s0, s1, f, p, r)
    &&& forall|g: ControlFlag| g != f ==> #[trigger] s1.flag_path(g) == s0.flag_path(g)
    &&& s1.job_system == s0.job_system
    &&& s1.color_theme == s0.color_theme
    &&& s1.updated == s0.updated
    &&& s1.updated_hotkeys == s0.updated_hotkeys
    &&& s1.hotkeys == s0.hotkeys
}

/// `s1` is `s0` after the mouse moved to `position` (the font lines going from `before` to
/// `after`): the control `handler_path` picks was handed the move (giving `h`, the lines
/// being `l` then), then got the highlight (the flag moving when `ch`), and asked for a
/// redraw if it took the move; the result `r` says whether it took the move or the highlight
/// moved.
pub open spec fn mouse_move_steps(
    s0: GuiSystem,
    s1: GuiSystem,
    position: Position,
    r: bool,
    before: Seq<FontLine>,
    after: Seq<FontLine>,
    mid: GuiSystem,
    s2: GuiSystem,
    n: MessageOutput,
    h: bool,
    ch: bool,
    l: Seq<FontLine>,
) -> bool {
    let p = handler_path(s0, position);
    &&& delivered_in(s0, mid, p, GuiMessage::MouseMove(position), n, h, l)
    &&& lines_grow(before, l)
    &&& l == after
    &&& flag_moved(mid, s2, ControlFlag::Highlight, Some(p), ch)
    &&& marked_if(s2, s1, p, h)
    &&& r == (h || ch)
}

/// The steps of taking flag `f` from the control at `q` in `s0`, giving `s1`: the control's
/// shared state changes only in that flag and its redraw request (`sa`); when `handle_lose`,
/// it is then handed the loss of the focus with a fresh output (leaving `n` and giving `h`,
/// the lines going from `l0` to `l1`, the jobs it asks for queued, `sb`), and if it took it
/// the layout and hot-keys are to be refreshed.
pub open spec fn flag_taken_steps(
    s0: GuiSystem,
    s1: GuiSystem,
    q: Seq<usize>,
    f: ControlFlag,
    handle_lose: bool,
    l0: Seq<FontLine>,
    l1: Seq<FontLine>,
    sa: GuiSystem,
    sb: GuiSystem,
    n: MessageOutput,
    h: bool,
) -> bool {
    &&& base_at_path(s0.root, q) matches Some(b) && base_at_path(sa.root, q) == Some(with_flag(b, f, false))
    &&& bases_kept_except(s0.root, sa.root, q)
    &&& sa.root is Some
    &&& sa == GuiSystem { root: sa.root, ..s0 }
    &&& if handle_lose {
        &&& delivered_in(sa, sb, q, GuiMessage::FocusLose, n, h, l1)
        &&& lines_grow(l0, l1)
        &&& s1 == if h {
            GuiSystem { updated: false, updated_hotkeys: false, ..sb }
        } else {
            sb
        }
    } else {
        s1 == sa && l1 == l0
    }
}

/// Flag `f` taken from the control at `q`, as `flag_taken_steps` says.
pub open spec fn flag_taken(
    s0: GuiSystem,
    s1: GuiSystem,
    q: Seq<usize>,
    f: ControlFlag,
    handle_lose: bool,
    l0: Seq<FontLine>,
    l1: Seq<FontLine>,
) -> bool {
    exists|sa: GuiSystem, sb: GuiSystem, n: MessageOutput, h: bool|
        #![trigger flag_taken_steps(s0, s1, q, f, handle_lose, l0, l1, sa, sb, n, h)]
        flag_taken_steps(s0, s1, q, f, handle_lose, l0, l1, sa, sb, n, h)
}

/// The first step of setting flag `f` on the control at `new` (none: clearing it) in `s0`:
/// when that moves the flag away from another live control (or clears it from one), the flag
/// is taken from that control, as `flag_taken` says (`s1`, the lines going from `l0` to
/// `l1`); otherwise nothing happens.
pub open spec fn flag_lose_step(
    s0: GuiSystem,
    s1: GuiSystem,
    f: ControlFlag,
    new: Option<Seq<usize>>,
    handle_lose: bool,
    l0: Seq<FontLine>,
    l1: Seq<FontLine>,
) -> bool {
    let takes = match new {
        Some(p) => (base_at_path(s0.root, p) matches Some(b) && !flag_of(b, f)) && (s0.flag_path(f) matches Some(
            q,
        ) && q != p && base_at_path(s0.root, q) is Some),
        None => flag_live(s0, f),
    };
    if takes {
        flag_taken(s0, s1, s0.flag_path(f)->0, f, handle_lose, l0, l1)
    } else {
        s1 == s0 && l1 == l0
    }
}

/// Setting flag `f` on the control at `new` (none: clearing it) turns `s0` into `s1` and
/// the lines `l0` into `l1`, giving `r`: first the flag is taken from the control that had it
/// (`flag_lose_step`, which tells it of the loss when `handle_lose`), then it moves as
/// `flag_moved` says.
pub open spec fn flag_set_told(
    s0: GuiSystem,
    s1: GuiSystem,
    f: ControlFlag,
    new: Option<Seq<usize>>,
    handle_lose: bool,
    r: bool,
    l0: Seq<FontLine>,
    l1: Seq<FontLine>,
) -> bool {
    exists|sl: GuiSystem|
        #![trigger flag_lose_step(s0, sl, f, new, handle_lose, l0, l1)]
        flag_lose_step(s0, sl, f, new, handle_lose, l0, l1) && flag_moved(sl, s1, f, new, r)
}

/// `s1` is `s0` after the mouse button went down at `position` (the font lines going from
/// `before` to `after`): the control under it was handed the press (giving `h`, the lines
/// being `l` then). If it took it, it got the focus (the flag moving when `cf`; the control
/// that loses the focus is told, as `flag_set_told` says) and then the pressed flag (moving
/// when `cp`) and asked for a redraw, and `r` says whether a flag moved; otherwise the focus
/// was taken from whatever had it (which is told), and `r` says whether it moved.
pub open spec fn mouse_down_steps(
    s0: GuiSystem,
    s1: GuiSystem,
    position: Position,
    r: bool,
    before: Seq<FontLine>,
    after: Seq<FontLine>,
    mid: GuiSystem,
    s2: GuiSystem,
    s3: GuiSystem,
    n: MessageOutput,
    h: bool,
    cf: bool,
    cp: bool,
    l: Seq<FontLine>,
) -> bool {
    let p = find_path(s0.root->0, position);
    &&& delivered_in(s0, mid, p, GuiMessage::MouseDown(position), n, h, l)
    &&& lines_grow(before, l)
    &&& lines_grow(l, after)
    &&& h ==> {
        &&& flag_set_told(mid, s2, ControlFlag::Focus, Some(p), true, cf, l, after)
        &&& flag_moved(s2, s3, ControlFlag::Pressed, Some(p), cp)
        &&& marked_if(s3, s1, p, true)
        &&& r == (cf || cp)
    }
    &&& !h ==> flag_set_told(mid, s1, ControlFlag::Focus, None, true, r, l, after)
}

/// `s1` is `s0` after the mouse button went up at `position` (the font lines going from
/// `before` to `after`): the control `handler_path` picks was handed the release (leaving
/// the output `n`, its jobs queued, and giving `h`, the lines being `l` then). If it did not
/// take it, nothing more happens and `r` is false. If it took it, the layout and hot-keys
/// are to be refreshed and it asks for a redraw (`s2`); a click on a button of a radio group
/// then selects it and queues the group's job `job` (`s3`); last the pressed flag is taken
/// from whatever had it, and `r` says whether it moved.
pub open spec fn mouse_up_steps(
    s0: GuiSystem,
    s1: GuiSystem,
    position: Position,
    r: bool,
    before: Seq<FontLine>,
    after: Seq<FontLine>,
    mid: GuiSystem,
    s2: GuiSystem,
    s3: GuiSystem,
    n: MessageOutput,
    h: bool,
    job: Option<Job>,
    l: Seq<FontLine>,
) -> bool {
    let p = handler_path(s0, position);
    &&& delivered_in(s0, mid, p, GuiMessage::MouseUp(position), n, h, l)
    &&& lines_grow(before, l)
    &&& l == after
    &&& !h ==> !r && s1 == mid
    &&& h ==> {
        &&& marked_if(GuiSystem { updated: false, updated_hotkeys: false, ..mid }, s2, p, true)
        &&& if n.clicked {
            &&& s2.root matches Some(t2) && s3.root matches Some(t3) && clicked_post(t2, t3, p, job)
            &&& s3.job_system@ == match job {
                Some(j) => s2.job_system@.push(j),
                None => s2.job_system@,
            }
            &&& s3 == GuiSystem { root: s3.root, job_system: s3.job_system, ..s2 }
        } else {
            s3 == s2
        }
        &&& flag_moved(s3, s1, ControlFlag::Pressed, None, r)
    }
}

/// The tree `r0` as it is drawn on a surface of `size`: when the layout is up to date, as
/// it is; otherwise first laid out (`laid_out_root`) over the whole surface, as
/// `set_rect_post` says, and asked for a redraw.
pub open spec fn root_to_draw(r0: Control, updated: bool, size: crate::image::ImageSize, laid: Control) -> bool {
    if updated {
        laid == r0
    } else {
        let full = normalize_rect(Rect { left_top: (0i32, 0i32), right_bottom: (size.0 as i32, size.1 as i32) });
        exists|m: Control|
            #![trigger set_rect_post(r0, m, full)]
            set_rect_post(r0, m, full) && base_of(m) == (GuiControlBase { rect: full, ..base_of(r0) }) && laid
                == with_base(m, GuiControlBase { need_redraw: true, ..base_of(m) })
    }
}

/// Flag `f` points to a control of the tree of `s`.
pub open spec fn flag_live(s: GuiSystem, f: ControlFlag) -> bool {
    s.flag_path(f) matches Some(q) && base_at_path(s.root, q) is Some
}

/// Clearing a flag keeps every other flag clear on every control.
proof fn lemma_flag_stays_clear(a: GuiSystem, b: GuiSystem, g: ControlFlag, q: Seq<usize>, f: ControlFlag, r: bool)
    requires
        set_flag_post(a, b, g, None, r),
        base_at_path(a.root, q) matches Some(x) && !flag_of(x, f),
    ensures
        base_at_path(b.root, q) matches Some(y) && !flag_of(y, f),
{
}

/// `s` with the hot-keys `hotkeys`, marked up to date.
pub open spec fn with_hotkeys(s: GuiSystem, hotkeys: Vec<(Hotkey, HotkeyCallback)>) -> GuiSystem {
    GuiSystem { hotkeys, updated_hotkeys: true, ..s }
}

/// `s1` is `s0`, whose hot-keys are up to date, after the focused control was handed the
/// hot-key `k` (leaving the output `n` and giving `h`, the font lines being `l` then, between
/// `before` and `after`): if it took it, it asks for a redraw and `r` holds; if it wants the
/// hot-key handled as a key, nothing more happens and `r` is false; else the job of the last
/// collected hot-key that is `k` is queued and the layout and hot-keys are to be refreshed
/// (`r` holds), or, with no such hot-key, nothing more happens and `r` is false.
pub open spec fn hotkey_focus_steps(
    s0: GuiSystem,
    s1: GuiSystem,
    k: Hotkey,
    r: bool,
    before: Seq<FontLine>,
    after: Seq<FontLine>,
    mid: GuiSystem,
    n: MessageOutput,
    h: bool,
    l: Seq<FontLine>,
) -> bool {
    let q = s0.flag_path(ControlFlag::Focus)->0;
    &&& delivered_in(s0, mid, q, GuiMessage::Hotkey(k), n, h, l)
    &&& lines_grow(before, l)
    &&& l == after
    &&& h ==> r && marked_if(mid, s1, q, true)
    &&& !h && n.use_default_keydown ==> !r && s1 == mid
    &&& !h && !n.use_default_keydown ==> match find_hotkey(mid.hotkeys@, k) {
        Some(job) => {
            &&& r
            &&& s1.job_system@.len() == mid.job_system@.len() + 1
            &&& s1.job_system@.drop_last() == mid.job_system@
            &&& same_job(s1.job_system@.last(), job)
            &&& s1 == GuiSystem { job_system: s1.job_system, updated: false, updated_hotkeys: false, ..mid }
        },
        None => !r && s1 == mid,
    }
}

/// The pressed flag points to a control of the tree.
pub open spec fn pressed_control_exists(s: GuiSystem) -> bool {
    match s.flag_path(ControlFlag::Pressed) {
        Some(q) => base_at_path(s.root, q) is Some,
        None => false,
    }
}

/// Selecting the clicked button of a radio group keeps a control at the clicked path.
proof fn lemma_clicked_keeps_control(old: Control, new: Control, path: Seq<usize>, r: Option<Job>)
    requires
        clicked_post(old, new, path, r),
        control_at(old, path) is Some,
    ensures
        control_at(new, path) is Some,
{
    if path.len() > 0 {
        let gp = path.drop_last();
        assert(path =~= gp.push(path.last()));
        lemma_control_at_push(old, gp, path.last());
        lemma_control_at_push(new, gp, path.last());
        match control_at(old, gp) {
            Some(Control::RadioGroup(g)) => match button_position(g.buttons@, path.last(), 0) {
                Some(j) => {
                    let y = control_at(new, gp)->0;
                    lemma_replaced_found(old, new, gp, y);
                    assert(child_count(y) == child_count(Control::RadioGroup(g)));
                },
                None => {},
            },
            _ => {},
        }
    }
}

/// The control at a path one step longer is a child of the control at the path.
proof fn lemma_control_at_push(c: Control, p: Seq<usize>, i: usize)
    ensures
        control_at(c, p.push(i)) == match control_at(c, p) {
            Some(z) => if (i as int) < child_count(z) { Some(child_of(z, i as int)) } else { None },
            None => None,
        },
    decreases p.len(),
{
    let pi = p.push(i);
    if p.len() == 0 {
        assert(pi.drop_first() =~= Seq::<usize>::empty());
        assert(pi[0] == i);
        assert(control_at(c, p) == Some(c));
        if (i as int) < child_count(c) {
            assert(control_at(child_of(c, i as int), pi.drop_first()) == Some(child_of(c, i as int)));
        }
    } else {
        assert(pi.drop_first() =~= p.drop_first().push(i));
        assert(pi[0] == p[0]);
        if p[0] < child_count(c) {
            lemma_control_at_push(child_of(c, p[0] as int), p.drop_first(), i);
        }
    }
}

/// The control that mouse events at `position` go to: the pressed one while there is one,
/// else the one under the position.
pub open spec fn handler_path(s: GuiSystem, position: Position) -> Seq<usize> {
    match s.flag_path(ControlFlag::Pressed) {
        Some(p) => if base_at_path(s.root, p) is Some {
            p
        } else {
            find_path(s.root->0, position)
        },
        None => find_path(s.root->0, position),
    }
}

/// The control at `p`, whose shared state was `b0`, has the focus and the pressed flag and
/// asks for a redraw; the system points to it for each flag it did not have.
pub open spec fn focused_and_pressed(s: GuiSystem, p: Seq<usize>, b0: GuiControlBase) -> bool {
    &&& base_at_path(s.root, p) matches Some(b) && b.focus && b.pressed && b.need_redraw
    &&& !b0.focus ==> s.flag_path(ControlFlag::Focus) == Some(p)
    &&& !b0.pressed ==> s.flag_path(ControlFlag::Pressed) == Some(p)
}

/// The control that had the focus in `old` (if it is still there) lost it in `new`, and
/// the system points to none.
pub open spec fn focus_taken(old: GuiSystem, new: GuiSystem) -> bool {
    match old.flag_path(ControlFlag::Focus) {
        Some(q) => base_at_path(old.root, q) is Some ==> new.flag_path(ControlFlag::Focus) is None
            && flagged_at(new.root, q, ControlFlag::Focus, false),
        None => new.flag_path(ControlFlag::Focus) is None,
    }
}

/// The size a button captioned `text` with the given hot-key needs, its glyphs being
/// `glyphs`: the caption's width plus a line's height (plus the hot-key's width and half a
/// line more with a hot-key), and the line's height plus 2; sizes wrap to `i32` as `as`
/// does.
pub open spec fn default_size_spec(text: Seq<char>, hotkey: Option<crate::keys::Hotkey>, glyphs: Map<char, crate::font::Glyph>) -> SizeConstraints {
    let t = text_size(glyphs, text);
    match hotkey {
        Some(h) => {
            let hs = text_size(glyphs, spec_hotkey_text(h));
            SizeConstraints(
                SizeConstraint { absolute: ((t.0 + hs.0 + t.1 * 3 / 2) as u128) as i32, relative: 0 },
                SizeConstraint { absolute: (t.1 as i32).wrapping_add(2), relative: 0 },
            )
        },
        None => SizeConstraints(
            SizeConstraint { absolute: ((t.0 + t.1) as u128) as i32, relative: 0 },
            SizeConstraint { absolute: (t.1 as i32).wrapping_add(2), relative: 0 },
        ),
    }
}

/// The job of the last hot-key in `hotkeys` that is `h` (a later one takes precedence).
pub open spec fn find_hotkey(hotkeys: Seq<(Hotkey, HotkeyCallback)>, h: Hotkey) -> Option<Job>
    decreases hotkeys.len(),
{
    if hotkeys.len() == 0 {
        None
    } else if hotkeys.last().0 == h {
        Some(hotkeys.last().1.0)
    } else {
        find_hotkey(hotkeys.drop_last(), h)
    }
}

/// A hot-key collected later takes precedence over the same one collected before.
pub proof fn law_last_hotkey_wins(hotkeys: Seq<(Hotkey, HotkeyCallback)>, h: Hotkey, callback: HotkeyCallback)
    ensures
        find_hotkey(hotkeys.push((h, callback)), h) == Some(callback.0),
{
}

/// The state of the GUI: the control tree, the paths of the controls that have the focus,
/// the highlight and the pressed mouse, the colour theme, whether the layout and the
/// hot-keys are up to date, and the hot-keys collected.
pub struct GuiSystem {
    pub job_system: JobSystem,
    pub root: Option<Control>,
    pub focus: Option<Vec<usize>>,
    pub highlight: Option<Vec<usize>>,
    pub pressed: Option<Vec<usize>>,
    pub color_theme: GuiColorTheme,
    pub updated: bool,
    pub updated_hotkeys: bool,
    pub hotkeys: Vec<(Hotkey, HotkeyCallback)>,
}

/// Whether two paths are the same.
fn paths_equal(a: &Vec<usize>, b: &Vec<usize>) -> (r: bool)
    ensures
        r == (a@ == b@),
{
    if a.len() != b.len() {
        return false;
    }
    let mut i: usize = 0;
    while i < a.len()
        invariant
            i <= a@.len(),
            a@.len() == b@.len(),
            forall|j: int| 0 <= j < i ==> a@[j] == b@[j],
        decreases a@.len() - i,
    {
        if a[i] != b[i] {
            return false;
        }
        i += 1;
    }
    assert(a@ =~= b@);
    true
}

impl GuiSystem {
    /// The path kept for flag `f`.
    pub open spec fn flag_path(self, f: ControlFlag) -> Option<Seq<usize>> {
        match f {
            ControlFlag::Focus => path_view(self.focus),
            ControlFlag::Highlight => path_view(self.highlight),
            ControlFlag::Pressed => path_view(self.pressed),
        }
    }

    /// A system with no control, in the light theme, that asks the job system for the
    /// callbacks.
    pub fn new(job_system: JobSystem) -> (r: Self)
        ensures
            r.job_system == job_system,
            r.root is None,
            r.focus is None,
            r.highlight is None,
            r.pressed is None,
            r.color_theme == light_theme_spec(),
            !r.updated,
            !r.updated_hotkeys,
            r.hotkeys@.len() == 0,
    {
        GuiSystem {
            job_system,
            root: None,
            focus: None,
            highlight: None,
            pressed: None,
            color_theme: light_theme(),
            updated: false,
            updated_hotkeys: false,
            hotkeys: Vec::new(),
        }
    }

    fn root_base_at(&self, path: &Vec<usize>) -> (r: Option<GuiControlBase>)
        ensures
            r == base_at_path(self.root, path@),
    {
        proof {
            assert(path@.skip(0) =~= path@);
        }
        match &self.root {
            Some(root) => root.base_at(path, 0),
            None => None,
        }
    }

    /// Replaces the shared state of the control at `path`, if there is one; no other control
    /// changes its shared state.
    fn set_base_at_root(&mut self, path: &Vec<usize>, base: GuiControlBase)
        ensures
            base_at_path(old(self).root, path@) is Some ==> base_at_path(final(self).root, path@) == Some(base),
            base_at_path(old(self).root, path@) is None ==> final(self).root == old(self).root,
            bases_kept_except(old(self).root, final(self).root, path@),
            no_control_added(old(self).root, final(self).root),
            final(self).root is Some == old(self).root is Some,
            final(self).job_system == old(self).job_system,
            final(self).focus == old(self).focus,
            final(self).highlight == old(self).highlight,
            final(self).pressed == old(self).pressed,
            final(self).color_theme == old(self).color_theme,
            final(self).updated == old(self).updated,
            final(self).updated_hotkeys == old(self).updated_hotkeys,
            final(self).hotkeys == old(self).hotkeys,
    {
        match &mut self.root {
            Some(root) => {
                root.set_base_at(path, base);
            },
            None => {},
        }
        let ghost final_root = self.root;
        proof {
            match (old(self).root, final_root) {
                (Some(r0), Some(r1)) => {
                    match control_at(r0, path@) {
                        Some(x) => {
                            lemma_replaced_found(r0, r1, path@, with_base(x, base));
                            lemma_with_base_same_children(x, base);
                            assert forall|q: Seq<usize>|
                                q != path@ && base_at_path(Some(r0), q) is Some implies #[trigger] base_at_path(
                                Some(r1),
                                q,
                            ) == base_at_path(Some(r0), q) by {
                                lemma_replaced_elsewhere(r0, r1, path@, with_base(x, base), q);
                            }
                            assert forall|q: Seq<usize>| base_at_path(Some(r0), q) is None implies #[trigger] base_at_path(
                                Some(r1),
                                q,
                            ) is None by {
                                lemma_replaced_absent(r0, r1, path@, with_base(x, base), q);
                            }
                        },
                        None => {},
                    }
                },
                _ => {},
            }
        }
    }

    /// Sets flag `f` of the control at `path` to `v` and asks it for a redraw, if there is
    /// such a control.
    fn set_flag_at(&mut self, path: &Vec<usize>, f: ControlFlag, v: bool)
        ensures
            base_at_path(old(self).root, path@) matches Some(b) ==> base_at_path(final(self).root, path@)
                == Some(with_flag(b, f, v)),
            base_at_path(old(self).root, path@) is None ==> final(self).root == old(self).root,
            bases_kept_except(old(self).root, final(self).root, path@),
            no_control_added(old(self).root, final(self).root),
            final(self).root is Some == old(self).root is Some,
            final(self).job_system == old(self).job_system,
            final(self).focus == old(self).focus,
            final(self).highlight == old(self).highlight,
            final(self).pressed == old(self).pressed,
            final(self).color_theme == old(self).color_theme,
            final(self).updated == old(self).updated,
            final(self).updated_hotkeys == old(self).updated_hotkeys,
            final(self).hotkeys == old(self).hotkeys,
    {
        match self.root_base_at(path) {
            Some(b) => {
                let mut nb = b;
                nb.need_redraw = true;
                match f {
                    ControlFlag::Focus => {
                        nb.focus = v;
                    },
                    ControlFlag::Highlight => {
                        nb.highlight = v;
                    },
                    ControlFlag::Pressed => {
                        nb.pressed = v;
                    },
                }
                self.set_base_at_root(path, nb);
            },
            None => {},
        }
    }

    /// Asks the control at `path`, if there is one, for a redraw.
    fn mark_at(&mut self, path: &Vec<usize>)
        ensures
            base_at_path(old(self).root, path@) matches Some(b) ==> base_at_path(final(self).root, path@)
                == Some(GuiControlBase { need_redraw: true, ..b }),
            base_at_path(old(self).root, path@) is None ==> final(self).root == old(self).root,
            bases_kept_except(old(self).root, final(self).root, path@),
            no_control_added(old(self).root, final(self).root),
            final(self).root is Some == old(self).root is Some,
            final(self).job_system == old(self).job_system,
            final(self).focus == old(self).focus,
            final(self).highlight == old(self).highlight,
            final(self).pressed == old(self).pressed,
            final(self).color_theme == old(self).color_theme,
            final(self).updated == old(self).updated,
            final(self).updated_hotkeys == old(self).updated_hotkeys,
            final(self).hotkeys == old(self).hotkeys,
    {
        match self.root_base_at(path) {
            Some(b) => {
                let mut nb = b;
                nb.need_redraw = true;
                self.set_base_at_root(path, nb);
            },
            None => {},
        }
    }

    /// Hands `m` to the control at `path`, with the system's job queue collecting the jobs;
    /// no control's shared state changes.
    fn deliver_at<L: FontLoader, C: ClipboardHandler>(
        &mut self,
        path: &Vec<usize>,
        m: &GuiMessage,
        out: &mut MessageOutput,
        fonts: &mut FontFactory<L>,
        clipboard: &C,
    ) -> (r: bool)
        requires
            old(fonts).wf(),
        ensures
            final(fonts).wf(),
            lines_grow(old(fonts).lines(), final(fonts).lines()),
            final(fonts).lines().len() == old(fonts).lines().len(),
            match old(self).root {
                Some(r0) => final(self).root matches Some(r1) && delivered(
                    r0,
                    r1,
                    path@,
                    *m,
                    MessageOutput { jobs: old(self).job_system, ..*old(out) },
                    MessageOutput { jobs: final(self).job_system, ..*final(out) },
                    r,
                    final(fonts).lines(),
                ),
                None => !r && final(self).root is None && final(self).job_system == old(self).job_system
                    && *final(out) == *old(out),
            },
            bases_kept(old(self).root, final(self).root),
            final(out).jobs == old(out).jobs,
            final(self).focus == old(self).focus,
            final(self).highlight == old(self).highlight,
            final(self).pressed == old(self).pressed,
            final(self).color_theme == old(self).color_theme,
            final(self).updated == old(self).updated,
            final(self).updated_hotkeys == old(self).updated_hotkeys,
            final(self).hotkeys == old(self).hotkeys,
    {
        std::mem::swap(&mut out.jobs, &mut self.job_system);
        let r = match &mut self.root {
            Some(root) => root.deliver(path, m, out, fonts, clipboard),
            None => false,
        };
        std::mem::swap(&mut out.jobs, &mut self.job_system);
        let ghost final_root = self.root;
        proof {
            match (old(self).root, final_root) {
                (Some(r0), Some(r1)) => {
                    match control_at(r0, path@) {
                        Some(x) => {
                            let y = control_at(r1, path@)->0;
                            lemma_replaced_found(r0, r1, path@, y);
                            let o = MessageOutput { jobs: old(self).job_system, ..*old(out) };
                            let n = MessageOutput { jobs: self.job_system, ..*out };
                            lemma_input_keeps_base(x, y, *m, o, n, r, fonts.lines());
                            assert forall|q: Seq<usize>|
                                base_at_path(Some(r0), q) is Some implies #[trigger] base_at_path(
                                Some(r1),
                                q,
                            ) == base_at_path(Some(r0), q) by {
                                if q != path@ {
                                    lemma_replaced_elsewhere(r0, r1, path@, y, q);
                                }
                            }
                        },
                        None => {},
                    }
                },
                _ => {},
            }
        }
        r
    }

    fn flag_path_exec(&self, f: ControlFlag) -> (r: Option<Vec<usize>>)
        ensures
            path_view(r) == self.flag_path(f),
    {
        let p = match f {
            ControlFlag::Focus => &self.focus,
            ControlFlag::Highlight => &self.highlight,
            ControlFlag::Pressed => &self.pressed,
        };
        match p {
            Some(v) => {
                let c = v.clone();
                assert(c@ =~= v@);
                Some(c)
            },
            None => None,
        }
    }

    fn set_flag_path(&mut self, f: ControlFlag, p: Option<Vec<usize>>)
        ensures
            final(self).flag_path(f) == path_view(p),
            forall|g: ControlFlag| g != f ==> #[trigger] final(self).flag_path(g) == old(self).flag_path(g),
            final(self).root == old(self).root,
            final(self).job_system == old(self).job_system,
            final(self).color_theme == old(self).color_theme,
            final(self).updated == old(self).updated,
            final(self).updated_hotkeys == old(self).updated_hotkeys,
            final(self).hotkeys == old(self).hotkeys,
    {
        match f {
            ControlFlag::Focus => {
                self.focus = p;
            },
            ControlFlag::Highlight => {
                self.highlight = p;
            },
            ControlFlag::Pressed => {
                self.pressed = p;
            },
        }
    }

    fn clear_flag<L: FontLoader, C: ClipboardHandler>(
        &mut self,
        q: &Vec<usize>,
        f: ControlFlag,
        handle_lose: bool,
        fonts: &mut FontFactory<L>,
        clipboard: &C,
    )
        requires
            old(fonts).wf(),
            base_at_path(old(self).root, q@) is Some,
        ensures
            final(fonts).wf(),
            lines_grow(old(fonts).lines(), final(fonts).lines()),
            final(fonts).lines().len() == old(fonts).lines().len(),
            base_at_path(final(self).root, q@) == Some(with_flag(base_at_path(old(self).root, q@)->0, f, false)),
            bases_kept_except(old(self).root, final(self).root, q@),
            final(self).root is Some,
            final(self).updated ==> old(self).updated,
            final(self).updated_hotkeys ==> old(self).updated_hotkeys,
            final(self).focus == old(self).focus,
            final(self).highlight == old(self).highlight,
            final(self).pressed == old(self).pressed,
            final(self).color_theme == old(self).color_theme,
            final(self).hotkeys == old(self).hotkeys,
            !handle_lose ==> final(self).job_system == old(self).job_system && final(self).updated
                == old(self).updated && final(self).updated_hotkeys == old(self).updated_hotkeys && *final(fonts)
                == *old(fonts),
            flag_taken(*old(self), *final(self), q@, f, handle_lose, old(fonts).lines(), final(fonts).lines()),
            !handle_lose ==> no_control_added(old(self).root, final(self).root),
    {
        let ghost s0 = *self;
        let ghost l0 = fonts.lines();
        self.set_flag_at(q, f, false);
        let ghost sa = *self;
        proof {
            assert(sa == GuiSystem { root: sa.root, ..s0 });
        }
        if handle_lose {
            let mut out = MessageOutput::new();
            let ghost o0 = out;
            let handled = self.deliver_at(q, &GuiMessage::FocusLose, &mut out, fonts, clipboard);
            let ghost sb = *self;
            let ghost n = MessageOutput { jobs: self.job_system, ..out };
            proof {
                let o = MessageOutput { jobs: sa.job_system, ..o0 };
                assert(fresh_output(o, sa.job_system));
                assert(delivered(sa.root->0, sb.root->0, q@, GuiMessage::FocusLose, o, n, handled, fonts.lines()));
                assert(sb == GuiSystem { root: Some(sb.root->0), job_system: n.jobs, ..sa });
                assert(delivered_in(sa, sb, q@, GuiMessage::FocusLose, n, handled, fonts.lines()));
            }
            if handled {
                self.updated = false;
                self.updated_hotkeys = false;
            }
            assert(flag_taken_steps(s0, *self, q@, f, handle_lose, l0, fonts.lines(), sa, sb, n, handled));
        } else {
            let ghost any_out: MessageOutput = arbitrary();
            assert(flag_taken_steps(s0, *self, q@, f, handle_lose, l0, fonts.lines(), sa, sa, any_out, false));
        }
    }

    #[verifier::spinoff_prover]
    #[verifier::rlimit(100)]
    fn set_flag<L: FontLoader, C: ClipboardHandler>(
        &mut self,
        f: ControlFlag,
        new: Option<&Vec<usize>>,
        handle_lose: bool,
        fonts: &mut FontFactory<L>,
        clipboard: &C,
    ) -> (r: bool)
        requires
            old(fonts).wf(),
        ensures
            final(fonts).wf(),
            lines_grow(old(fonts).lines(), final(fonts).lines()),
            final(fonts).lines().len() == old(fonts).lines().len(),
            set_flag_post(
                *old(self),
                *final(self),
                f,
                match new {
                    Some(p) => Some(p@),
                    None => None,
                },
                r,
            ),
            forall|g: ControlFlag| g != f ==> #[trigger] final(self).flag_path(g) == old(self).flag_path(g),
            final(self).root is Some == old(self).root is Some,
            final(self).color_theme == old(self).color_theme,
            final(self).hotkeys == old(self).hotkeys,
            final(self).updated ==> old(self).updated,
            final(self).updated_hotkeys ==> old(self).updated_hotkeys,
            !handle_lose ==> flag_moved(
                *old(self),
                *final(self),
                f,
                match new {
                    Some(p) => Some(p@),
                    None => None,
                },
                r,
            ) && *final(fonts) == *old(fonts),
            flag_set_told(
                *old(self),
                *final(self),
                f,
                match new {
                    Some(p) => Some(p@),
                    None => None,
                },
                handle_lose,
                r,
                old(fonts).lines(),
                final(fonts).lines(),
            ),
            !handle_lose ==> no_control_added(old(self).root, final(self).root),
    {
        let ghost s0 = *self;
        let ghost l0 = fonts.lines();
        let old_path = self.flag_path_exec(f);
        match new {
            Some(p) => {
                match self.root_base_at(p) {
                    None => {
                        assert(flag_lose_step(s0, s0, f, Some(p@), handle_lose, l0, fonts.lines()));
                        false
                    },
                    Some(b) => {
                        let has = match f {
                            ControlFlag::Focus => b.focus,
                            ControlFlag::Highlight => b.highlight,
                            ControlFlag::Pressed => b.pressed,
                        };
                        if has {
                            self.mark_at(p);
                            assert(flag_lose_step(s0, s0, f, Some(p@), handle_lose, l0, fonts.lines()));
                            return false;
                        }
                        match &old_path {
                            Some(q) => {
                                if !paths_equal(q, p) && self.root_base_at(q).is_some() {
                                    self.clear_flag(q, f, handle_lose, fonts, clipboard);
                                }
                            },
                            None => {},
                        }
                        let ghost sl = *self;
                        proof {
                            assert(flag_lose_step(s0, sl, f, Some(p@), handle_lose, l0, fonts.lines()));
                            assert(base_at_path(sl.root, p@) == base_at_path(s0.root, p@));
                        }
                        self.set_flag_at(p, f, true);
                        let pc = p.clone();
                        assert(pc@ =~= p@);
                        self.set_flag_path(f, Some(pc));
                        assert(flag_moved(sl, *self, f, Some(p@), true));
                        true
                    },
                }
            },
            None => {
                match &old_path {
                    Some(q) => {
                        if self.root_base_at(q).is_some() {
                            self.clear_flag(q, f, handle_lose, fonts, clipboard);
                            let ghost sl = *self;
                            assert(flag_lose_step(s0, sl, f, None, handle_lose, l0, fonts.lines()));
                            self.set_flag_path(f, None);
                            assert(flag_moved(sl, *self, f, None, true));
                            true
                        } else {
                            assert(flag_lose_step(s0, s0, f, None, handle_lose, l0, fonts.lines()));
                            false
                        }
                    },
                    None => {
                        assert(flag_lose_step(s0, s0, f, None, handle_lose, l0, fonts.lines()));
                        false
                    },
                }
            },
        }
    }

    /// Handles the mouse button going down at `position`: the control under it is told; if
    /// it takes clicks it gets the focus and the pressed flag and asks for a redraw, else the
    /// focus is taken from whatever had it. Whether a flag moved.
    pub fn on_mouse_down<L: FontLoader, C: ClipboardHandler>(
        &mut self,
        position: Position,
        fonts: &mut FontFactory<L>,
        clipboard: &C,
    ) -> (r: bool)
        requires
            old(fonts).wf(),
        ensures
            final(fonts).wf(),
            lines_grow(old(fonts).lines(), final(fonts).lines()),
            final(fonts).lines().len() == old(fonts).lines().len(),
            old(self).root is None ==> !r && *final(self) == *old(self),
            old(self).root matches Some(r0) ==> {
                let p = find_path(r0, position);
                let x = control_at(r0, p)->0;
                let b0 = base_of(x);
                &&& control_at(r0, p) is Some
                &&& takes_clicks(x) ==> focused_and_pressed(*final(self), p, b0)
                &&& !takes_clicks(x) ==> focus_taken(*old(self), *final(self))
                &&& exists|
                    mid: GuiSystem,
                    s2: GuiSystem,
                    s3: GuiSystem,
                    n: MessageOutput,
                    h: bool,
                    cf: bool,
                    cp: bool,
                    l: Seq<FontLine>,
                |
                    #[trigger] mouse_down_steps(
                        *old(self),
                        *final(self),
                        position,
                        r,
                        old(fonts).lines(),
                        final(fonts).lines(),
                        mid,
                        s2,
                        s3,
                        n,
                        h,
                        cf,
                        cp,
                        l,
                    )
            },
            final(self).root is Some == old(self).root is Some,
            final(self).flag_path(ControlFlag::Highlight) == old(self).flag_path(ControlFlag::Highlight),
            final(self).color_theme == old(self).color_theme,
    {
        let path = match &self.root {
            Some(root) => root.find_destination(position),
            None => {
                return false;
            },
        };
        proof {
            lemma_find_path_valid(self.root->0, position);
        }
        let ghost s0 = *self;
        let ghost l0 = fonts.lines();
        let mut out = MessageOutput::new();
        let ghost o0 = out;
        let handled = self.deliver_at(&path, &GuiMessage::MouseDown(position), &mut out, fonts, clipboard);
        let ghost n = MessageOutput { jobs: self.job_system, ..out };
        let ghost l1 = fonts.lines();
        proof {
            let o = MessageOutput { jobs: s0.job_system, ..o0 };
            assert(fresh_output(o, s0.job_system));
            assert(delivered(s0.root->0, self.root->0, path@, GuiMessage::MouseDown(position), o, n, handled, l1));
            assert(*self == GuiSystem { root: Some(self.root->0), job_system: n.jobs, ..s0 });
            assert(delivered_in(s0, *self, path@, GuiMessage::MouseDown(position), n, handled, l1));
        }
        proof {
            let r0 = s0.root->0;
            let x = control_at(r0, path@)->0;
            let y = control_at(self.root->0, path@)->0;
            lemma_click_taken(
                x,
                y,
                GuiMessage::MouseDown(position),
                MessageOutput { jobs: s0.job_system, ..out },
                MessageOutput { jobs: self.job_system, ..out },
                handled,
                fonts.lines(),
            );
            assert(base_at_path(self.root, path@) == base_at_path(s0.root, path@));
        }
        let ghost s1 = *self;
        if handled {
            let changed_focus = self.set_flag(ControlFlag::Focus, Some(&path), true, fonts, clipboard);
            let ghost s2 = *self;
            assert(base_at_path(s2.root, path@) matches Some(b) && b.focus);
            let changed_pressed = self.set_flag(ControlFlag::Pressed, Some(&path), false, fonts, clipboard);
            let ghost s3 = *self;
            assert(base_at_path(s3.root, path@) matches Some(b) && b.focus && b.pressed);
            assert(s3.flag_path(ControlFlag::Focus) == s2.flag_path(ControlFlag::Focus));
            assert(s2.flag_path(ControlFlag::Highlight) == s1.flag_path(ControlFlag::Highlight));
            assert(s3.flag_path(ControlFlag::Highlight) == s2.flag_path(ControlFlag::Highlight));
            self.mark_at(&path);
            proof {
                assert(*self == GuiSystem { root: self.root, ..s3 });
                assert(marked_if(s3, *self, path@, true));
                assert(mouse_down_steps(s0, *self, position, changed_focus || changed_pressed, l0, fonts.lines(), s1, s2, s3, n, handled, changed_focus, changed_pressed, l1));
            }
            changed_focus || changed_pressed
        } else {
            proof {
                assert(s1.flag_path(ControlFlag::Focus) == s0.flag_path(ControlFlag::Focus));
                match s0.flag_path(ControlFlag::Focus) {
                    Some(q) => {
                        if base_at_path(s0.root, q) is Some {
                            assert(base_at_path(s1.root, q) == base_at_path(s0.root, q));
                        }
                    },
                    None => {},
                }
            }
            let r = self.set_flag(ControlFlag::Focus, None, true, fonts, clipboard);
            assert(self.flag_path(ControlFlag::Highlight) == s1.flag_path(ControlFlag::Highlight));
            assert(mouse_down_steps(s0, *self, position, r, l0, fonts.lines(), s1, s1, s1, n, handled, false, false, l1));
            r
        }
    }

    fn handler(&self, position: Position) -> (r: Vec<usize>)
        requires
            self.root is Some,
        ensures
            r@ == handler_path(*self, position),
            base_at_path(self.root, r@) is Some,
    {
        proof {
            lemma_find_path_valid(self.root->0, position);
        }
        match self.flag_path_exec(ControlFlag::Pressed) {
            Some(p) => {
                if self.root_base_at(&p).is_some() {
                    return p;
                }
            },
            None => {},
        }
        match &self.root {
            Some(root) => root.find_destination(position),
            None => Vec::new(),
        }
    }

    /// Handles the mouse moving to `position`: the pressed control, or else the one under
    /// the position, is told, gets the highlight, and asks for a redraw if it took the move.
    /// Whether it took the move or the highlight moved.
    pub fn on_mouse_move<L: FontLoader, C: ClipboardHandler>(
        &mut self,
        position: Position,
        fonts: &mut FontFactory<L>,
        clipboard: &C,
    ) -> (r: bool)
        requires
            old(fonts).wf(),
        ensures
            final(fonts).wf(),
            lines_grow(old(fonts).lines(), final(fonts).lines()),
            final(fonts).lines().len() == old(fonts).lines().len(),
            old(self).root is None ==> !r && *final(self) == *old(self),
            old(self).root is Some ==> flagged_at(final(self).root, handler_path(*old(self), position), ControlFlag::Highlight, true),
            old(self).root is Some ==> exists|
                mid: GuiSystem,
                s2: GuiSystem,
                n: MessageOutput,
                h: bool,
                ch: bool,
                l: Seq<FontLine>,
            |
                #[trigger] mouse_move_steps(
                    *old(self),
                    *final(self),
                    position,
                    r,
                    old(fonts).lines(),
                    final(fonts).lines(),
                    mid,
                    s2,
                    n,
                    h,
                    ch,
                    l,
                ),
            final(self).root is Some == old(self).root is Some,
            final(self).flag_path(ControlFlag::Focus) == old(self).flag_path(ControlFlag::Focus),
            final(self).flag_path(ControlFlag::Pressed) == old(self).flag_path(ControlFlag::Pressed),
            final(self).color_theme == old(self).color_theme,
    {
        if self.root.is_none() {
            return false;
        }
        let path = self.handler(position);
        let ghost s0 = *self;
        let ghost l0 = fonts.lines();
        let mut out = MessageOutput::new();
        let ghost o0 = out;
        let m = GuiMessage::MouseMove(position);
        let handled = self.deliver_at(&path, &m, &mut out, fonts, clipboard);
        let ghost s1 = *self;
        let ghost n = MessageOutput { jobs: self.job_system, ..out };
        let ghost l1 = fonts.lines();
        proof {
            let o = MessageOutput { jobs: s0.job_system, ..o0 };
            assert(fresh_output(o, s0.job_system));
            assert(delivered(s0.root->0, s1.root->0, path@, m, o, n, handled, l1));
            assert(s1 == GuiSystem { root: Some(s1.root->0), job_system: n.jobs, ..s0 });
            assert(delivered_in(s0, s1, path@, m, n, handled, l1));
        }
        assert(base_at_path(s1.root, path@) is Some);
        let changed_highlight = self.set_flag(ControlFlag::Highlight, Some(&path), false, fonts, clipboard);
        let ghost s2 = *self;
        assert(flagged_at(s2.root, path@, ControlFlag::Highlight, true));
        assert(s2.flag_path(ControlFlag::Focus) == s1.flag_path(ControlFlag::Focus));
        assert(s2.flag_path(ControlFlag::Pressed) == s1.flag_path(ControlFlag::Pressed));
        if handled {
            self.mark_at(&path);
        }
        proof {
            assert(*self == GuiSystem { root: self.root, ..s2 });
            assert(marked_if(s2, *self, path@, handled));
            assert(mouse_move_steps(s0, *self, position, handled || changed_highlight, l0, fonts.lines(), s1, s2, n, handled, changed_highlight, l1));
        }
        handled || changed_highlight
    }

    /// Handles the wheel turned by `delta` at `position`: the pressed control, or else the
    /// one under the position, is told and asks for a redraw if it took it. Whether it took
    /// it.
    pub fn on_mouse_wheel<L: FontLoader, C: ClipboardHandler>(
        &mut self,
        position: Position,
        delta: i32,
        fonts: &mut FontFactory<L>,
        clipboard: &C,
    ) -> (r: bool)
        requires
            old(fonts).wf(),
        ensures
            final(fonts).wf(),
            lines_grow(old(fonts).lines(), final(fonts).lines()),
            final(fonts).lines().len() == old(fonts).lines().len(),
            old(self).root is None ==> !r && *final(self) == *old(self),
            old(self).root is Some && r ==> (base_at_path(final(self).root, handler_path(*old(self), position)) matches Some(
                b,
            ) && b.need_redraw),
            old(self).root is Some ==> handled_at(
                *old(self),
                *final(self),
                handler_path(*old(self), position),
                GuiMessage::MouseWheel(position, delta),
                r,
                final(fonts).lines(),
            ),
            final(self).root is Some == old(self).root is Some,
            final(self).focus == old(self).focus,
            final(self).highlight == old(self).highlight,
            final(self).pressed == old(self).pressed,
            final(self).color_theme == old(self).color_theme,
    {
        if self.root.is_none() {
            return false;
        }
        let path = self.handler(position);
        let ghost s0 = *self;
        let mut out = MessageOutput::new();
        let ghost o0 = out;
        let m = GuiMessage::MouseWheel(position, delta);
        let handled = self.deliver_at(&path, &m, &mut out, fonts, clipboard);
        let ghost t = self.root->0;
        let ghost n = MessageOutput { jobs: self.job_system, ..out };
        if handled {
            self.mark_at(&path);
        }
        proof {
            let o = MessageOutput { jobs: s0.job_system, ..o0 };
            assert(fresh_output(o, s0.job_system));
            assert(delivered(s0.root->0, t, path@, m, o, n, handled, fonts.lines()));
        }
        handled
    }

    /// Handles the mouse leaving the window: the highlight is taken from whatever had it.
    pub fn on_mouse_leave<L: FontLoader, C: ClipboardHandler>(&mut self, fonts: &mut FontFactory<L>, clipboard: &C) -> (r: bool)
        requires
            old(fonts).wf(),
        ensures
            final(fonts).wf(),
            lines_grow(old(fonts).lines(), final(fonts).lines()),
            final(fonts).lines().len() == old(fonts).lines().len(),
            set_flag_post(*old(self), *final(self), ControlFlag::Highlight, None, r),
            final(self).flag_path(ControlFlag::Focus) == old(self).flag_path(ControlFlag::Focus),
            final(self).flag_path(ControlFlag::Pressed) == old(self).flag_path(ControlFlag::Pressed),
            flag_moved(*old(self), *final(self), ControlFlag::Highlight, None, r),
            *final(fonts) == *old(fonts),
    {
        let r = self.set_flag(ControlFlag::Highlight, None, false, fonts, clipboard);
        r
    }

    /// Handles the window losing the activation: the highlight, the pressed flag and the
    /// focus are taken from whatever had them (the focused control is not told). Whether a
    /// flag moved.
    pub fn on_deactivate<L: FontLoader, C: ClipboardHandler>(&mut self, fonts: &mut FontFactory<L>, clipboard: &C) -> (r: bool)
        requires
            old(fonts).wf(),
        ensures
            final(fonts).wf(),
            lines_grow(old(fonts).lines(), final(fonts).lines()),
            final(fonts).lines().len() == old(fonts).lines().len(),
            final(self).root is Some == old(self).root is Some,
            final(self).color_theme == old(self).color_theme,
            forall|f: ControlFlag|
                #![trigger final(self).flag_path(f)]
                (old(self).flag_path(f) matches Some(q) && base_at_path(old(self).root, q) is Some)
                    ==> final(self).flag_path(f) is None && r,
            forall|f: ControlFlag|
                #![trigger flag_live(*old(self), f)]
                flag_live(*old(self), f) ==> (base_at_path(final(self).root, old(self).flag_path(f)->0) matches Some(b)
                    && !flag_of(b, f)),
            !flag_live(*old(self), ControlFlag::Highlight) && !flag_live(*old(self), ControlFlag::Pressed)
                && !flag_live(*old(self), ControlFlag::Focus) ==> !r && final(self).root == old(self).root
                && forall|f: ControlFlag| #[trigger] final(self).flag_path(f) == old(self).flag_path(f),
            final(self).job_system == old(self).job_system,
            final(self).updated == old(self).updated,
            final(self).updated_hotkeys == old(self).updated_hotkeys,
            *final(fonts) == *old(fonts),
            forall|f: ControlFlag|
                #![trigger final(self).flag_path(f)]
                (old(self).flag_path(f) is Some && !flag_live(*old(self), f)) ==> final(self).flag_path(f)
                    == old(self).flag_path(f) && !flag_live(*final(self), f),
    {
        let ghost s0 = *self;
        let changed_highlight = self.set_flag(ControlFlag::Highlight, None, false, fonts, clipboard);
        let ghost s1 = *self;
        let changed_pressed = self.set_flag(ControlFlag::Pressed, None, false, fonts, clipboard);
        let ghost s2 = *self;
        let changed_focus = self.set_flag(ControlFlag::Focus, None, false, fonts, clipboard);
        proof {
            assert forall|q: Seq<usize>| base_at_path(s0.root, q) is Some implies #[trigger] base_at_path(s1.root, q) is Some by {
                lemma_set_flag_keeps_controls(s0, s1, ControlFlag::Highlight, q);
            }
            assert forall|q: Seq<usize>| base_at_path(s1.root, q) is Some implies #[trigger] base_at_path(s2.root, q) is Some by {
                lemma_set_flag_keeps_controls(s1, s2, ControlFlag::Pressed, q);
            }
            let s3 = *self;
            assert forall|f: ControlFlag| #[trigger] flag_live(s0, f) implies (base_at_path(s3.root, s0.flag_path(f)->0) matches Some(b)
                && !flag_of(b, f)) by {
                let q = s0.flag_path(f)->0;
                match f {
                    ControlFlag::Highlight => {
                        lemma_flag_stays_clear(s1, s2, ControlFlag::Pressed, q, f, changed_pressed);
                        lemma_flag_stays_clear(s2, s3, ControlFlag::Focus, q, f, changed_focus);
                    },
                    ControlFlag::Pressed => {
                        assert(base_at_path(s1.root, q) is Some);
                        assert(s1.flag_path(f) == s0.flag_path(f));
                        lemma_flag_stays_clear(s2, s3, ControlFlag::Focus, q, f, changed_focus);
                    },
                    ControlFlag::Focus => {
                        assert(base_at_path(s1.root, q) is Some);
                        assert(base_at_path(s2.root, q) is Some);
                        assert(s2.flag_path(f) == s0.flag_path(f));
                    },
                }
            }
        }
        changed_highlight || changed_pressed || changed_focus
    }

    /// Handles the mouse button going up at `position`: the pressed control, or else the one
    /// under the position, is told; if it takes clicks, the layout and the hot-keys are to be
    /// refreshed, it asks for a redraw, a click on a button of a radio group selects it (the
    /// group's job is asked for), and the pressed flag is taken from whatever had it.
    pub fn on_mouse_up<L: FontLoader, C: ClipboardHandler>(
        &mut self,
        position: Position,
        fonts: &mut FontFactory<L>,
        clipboard: &C,
    ) -> (r: bool)
        requires
            old(fonts).wf(),
        ensures
            final(fonts).wf(),
            lines_grow(old(fonts).lines(), final(fonts).lines()),
            final(fonts).lines().len() == old(fonts).lines().len(),
            old(self).root is None ==> !r && *final(self) == *old(self),
            old(self).root matches Some(r0) ==> (takes_clicks(
                control_at(r0, handler_path(*old(self), position))->0,
            ) ==> !final(self).updated && !final(self).updated_hotkeys),
            (old(self).root is Some && takes_clicks(
                control_at(old(self).root->0, handler_path(*old(self), position))->0,
            ) && pressed_control_exists(*old(self))) ==> final(self).flag_path(ControlFlag::Pressed) is None
                && r,
            old(self).root is Some ==> exists|
                mid: GuiSystem,
                s2: GuiSystem,
                s3: GuiSystem,
                n: MessageOutput,
                h: bool,
                job: Option<Job>,
                l: Seq<FontLine>,
            |
                #[trigger] mouse_up_steps(
                    *old(self),
                    *final(self),
                    position,
                    r,
                    old(fonts).lines(),
                    final(fonts).lines(),
                    mid,
                    s2,
                    s3,
                    n,
                    h,
                    job,
                    l,
                ),
            final(self).root is Some == old(self).root is Some,
            final(self).color_theme == old(self).color_theme,
    {
        if self.root.is_none() {
            return false;
        }
        let ghost s_start = *self;
        let path = self.handler(position);
        let ghost s0 = *self;
        let ghost l0 = fonts.lines();
        let mut out = MessageOutput::new();
        let ghost o0 = out;
        let handled = self.deliver_at(&path, &GuiMessage::MouseUp(position), &mut out, fonts, clipboard);
        let ghost n = MessageOutput { jobs: self.job_system, ..out };
        let ghost l1 = fonts.lines();
        let ghost smid = *self;
        proof {
            let o = MessageOutput { jobs: s0.job_system, ..o0 };
            assert(fresh_output(o, s0.job_system));
            assert(delivered(s0.root->0, self.root->0, path@, GuiMessage::MouseUp(position), o, n, handled, l1));
            assert(*self == GuiSystem { root: Some(self.root->0), job_system: n.jobs, ..s0 });
            assert(delivered_in(s0, *self, path@, GuiMessage::MouseUp(position), n, handled, l1));
        }
        proof {
            let r0 = s0.root->0;
            let x = control_at(r0, path@)->0;
            let y = control_at(self.root->0, path@)->0;
            lemma_click_taken(
                x,
                y,
                GuiMessage::MouseUp(position),
                MessageOutput { jobs: s0.job_system, ..out },
                MessageOutput { jobs: self.job_system, ..out },
                handled,
                fonts.lines(),
            );
        }
        if handled {
            self.updated = false;
            self.updated_hotkeys = false;
            let ghost s1 = *self;
            self.mark_at(&path);
            let ghost s2 = *self;
            proof {
                if base_at_path(s1.root, path@) is Some {
                    assert(base_at_path(s2.root, path@) is Some);
                }
            }
            let ghost mut gjob: Option<Job> = None;
            if out.clicked {
                let job = match &mut self.root {
                    Some(root) => root.select_clicked(&path),
                    None => None,
                };
                proof {
                    gjob = job;
                    if base_at_path(s2.root, path@) is Some {
                        lemma_clicked_keeps_control(s2.root->0, self.root->0, path@, job);
                    }
                }
                match job {
                    Some(j) => self.job_system.add_callback(j),
                    None => {},
                }
            }
            let ghost s3 = *self;
            proof {
                assert(s1 == GuiSystem { updated: false, updated_hotkeys: false, ..smid });
                assert(s2 == GuiSystem { root: s2.root, ..s1 });
            }
            proof {
                if pressed_control_exists(s_start) {
                    let q = s_start.flag_path(ControlFlag::Pressed)->0;
                    assert(q == path@);
                    assert(base_at_path(s1.root, q) is Some);
                    assert(base_at_path(self.root, q) is Some);
                }
            }
            let r = self.set_flag(ControlFlag::Pressed, None, false, fonts, clipboard);
            assert(mouse_up_steps(s0, *self, position, r, l0, fonts.lines(), smid, s2, s3, n, handled, gjob, l1));
            r
        } else {
            assert(mouse_up_steps(s0, *self, position, false, l0, fonts.lines(), smid, smid, smid, n, handled, None, l1));
            false
        }
    }

    fn focus_path(&self) -> (r: Option<Vec<usize>>)
        ensures
            match r {
                Some(p) => self.flag_path(ControlFlag::Focus) == Some(p@) && base_at_path(self.root, p@) is Some,
                None => self.flag_path(ControlFlag::Focus) matches Some(q) ==> base_at_path(self.root, q) is None,
            },
    {
        match self.flag_path_exec(ControlFlag::Focus) {
            Some(p) => {
                if self.root_base_at(&p).is_some() {
                    Some(p)
                } else {
                    None
                }
            },
            None => None,
        }
    }

    /// Handles a typed character: the focused control is told, and asks for a redraw if it
    /// took it. Whether it took it.
    pub fn on_char<L: FontLoader, C: ClipboardHandler>(
        &mut self,
        c: char,
        fonts: &mut FontFactory<L>,
        clipboard: &C,
    ) -> (r: bool)
        requires
            old(fonts).wf(),
        ensures
            final(fonts).wf(),
            lines_grow(old(fonts).lines(), final(fonts).lines()),
            final(fonts).lines().len() == old(fonts).lines().len(),
            !(old(self).flag_path(ControlFlag::Focus) matches Some(q) && base_at_path(old(self).root, q) is Some)
                ==> !r && *final(self) == *old(self),
            (old(self).flag_path(ControlFlag::Focus) matches Some(q) && base_at_path(old(self).root, q) is Some)
                ==> handled_at(*old(self), *final(self), old(self).flag_path(ControlFlag::Focus)->0, GuiMessage::Char(c), r, final(fonts).lines()),
            final(self).root is Some == old(self).root is Some,
            final(self).focus == old(self).focus,
            final(self).highlight == old(self).highlight,
            final(self).pressed == old(self).pressed,
            final(self).color_theme == old(self).color_theme,
    {
        match self.focus_path() {
            Some(path) => {
                let ghost s0 = *self;
                let mut out = MessageOutput::new();
                let ghost o0 = out;
                let m = GuiMessage::Char(c);
                let handled = self.deliver_at(&path, &m, &mut out, fonts, clipboard);
                let ghost t = self.root->0;
                let ghost n = MessageOutput { jobs: self.job_system, ..out };
                if handled {
                    self.mark_at(&path);
                }
                proof {
                    let o = MessageOutput { jobs: s0.job_system, ..o0 };
                    assert(fresh_output(o, s0.job_system));
                    assert(delivered(s0.root->0, t, path@, m, o, n, handled, fonts.lines()));
                }
                handled
            },
            None => false,
        }
    }

    /// Handles a key going up: the focused control is told, and asks for a redraw if it took
    /// it. Whether it took it.
    pub fn on_key_up<L: FontLoader, C: ClipboardHandler>(
        &mut self,
        k: Key,
        fonts: &mut FontFactory<L>,
        clipboard: &C,
    ) -> (r: bool)
        requires
            old(fonts).wf(),
        ensures
            final(fonts).wf(),
            lines_grow(old(fonts).lines(), final(fonts).lines()),
            final(fonts).lines().len() == old(fonts).lines().len(),
            !(old(self).flag_path(ControlFlag::Focus) matches Some(q) && base_at_path(old(self).root, q) is Some)
                ==> !r && *final(self) == *old(self),
            (old(self).flag_path(ControlFlag::Focus) matches Some(q) && base_at_path(old(self).root, q) is Some)
                ==> handled_at(*old(self), *final(self), old(self).flag_path(ControlFlag::Focus)->0, GuiMessage::KeyUp(k), r, final(fonts).lines()),
            final(self).updated == old(self).updated,
            final(self).updated_hotkeys == old(self).updated_hotkeys,
            final(self).hotkeys == old(self).hotkeys,
            final(self).root is Some == old(self).root is Some,
            final(self).focus == old(self).focus,
            final(self).highlight == old(self).highlight,
            final(self).pressed == old(self).pressed,
            final(self).color_theme == old(self).color_theme,
    {
        match self.focus_path() {
            Some(path) => {
                let ghost s0 = *self;
                let mut out = MessageOutput::new();
                let ghost o0 = out;
                let m = GuiMessage::KeyUp(k);
                let handled = self.deliver_at(&path, &m, &mut out, fonts, clipboard);
                let ghost t = self.root->0;
                let ghost n = MessageOutput { jobs: self.job_system, ..out };
                if handled {
                    self.mark_at(&path);
                }
                proof {
                    let o = MessageOutput { jobs: s0.job_system, ..o0 };
                    assert(fresh_output(o, s0.job_system));
                    assert(delivered(s0.root->0, t, path@, m, o, n, handled, fonts.lines()));
                }
                handled
            },
            None => false,
        }
    }

    /// Handles a key going down: the focused control is told; if it gives the focus up, the
    /// layout and the hot-keys are to be refreshed and the focus is taken from it (it is not
    /// told); it asks for a redraw if it took the key. Whether it took it.
    pub fn on_key_down<L: FontLoader, C: ClipboardHandler>(
        &mut self,
        k: Key,
        fonts: &mut FontFactory<L>,
        clipboard: &C,
    ) -> (r: bool)
        requires
            old(fonts).wf(),
        ensures
            final(fonts).wf(),
            lines_grow(old(fonts).lines(), final(fonts).lines()),
            final(fonts).lines().len() == old(fonts).lines().len(),
            !(old(self).flag_path(ControlFlag::Focus) matches Some(q) && base_at_path(old(self).root, q) is Some)
                ==> !r && *final(self) == *old(self),
            final(self).root is Some == old(self).root is Some,
            final(self).flag_path(ControlFlag::Highlight) == old(self).flag_path(ControlFlag::Highlight),
            final(self).flag_path(ControlFlag::Pressed) == old(self).flag_path(ControlFlag::Pressed),
            final(self).color_theme == old(self).color_theme,
            (old(self).flag_path(ControlFlag::Focus) matches Some(q) && base_at_path(old(self).root, q) is Some)
                ==> key_down_handled(*old(self), *final(self), k, r, old(fonts).lines(), final(fonts).lines()),
    {
        match self.focus_path() {
            Some(path) => {
                let ghost s0 = *self;
                let ghost l0 = fonts.lines();
                let mut out = MessageOutput::new();
                let ghost o0 = out;
                let m = GuiMessage::KeyDown(k);
                let handled = self.deliver_at(&path, &m, &mut out, fonts, clipboard);
                let ghost t = self.root->0;
                let ghost n = MessageOutput { jobs: self.job_system, ..out };
                let ghost l1 = fonts.lines();
                proof {
                    let o = MessageOutput { jobs: s0.job_system, ..o0 };
                    assert(fresh_output(o, s0.job_system));
                    assert(delivered(s0.root->0, t, path@, m, o, n, handled, l1));
                    assert(base_at_path(self.root, path@) is Some);
                }
                if out.unfocus {
                    self.updated = false;
                    self.updated_hotkeys = false;
                    let ghost s1 = *self;
                    self.set_flag(ControlFlag::Focus, None, false, fonts, clipboard);
                    assert(self.flag_path(ControlFlag::Highlight) == s1.flag_path(ControlFlag::Highlight));
                    assert(self.flag_path(ControlFlag::Pressed) == s1.flag_path(ControlFlag::Pressed));
                }
                if handled {
                    self.mark_at(&path);
                }
                handled
            },
            None => false,
        }
    }

    fn find_hotkey_exec(&self, h: Hotkey) -> (r: Option<Job>)
        ensures
            match find_hotkey(self.hotkeys@, h) {
                Some(job) => r matches Some(j) && same_job(j, job),
                None => r is None,
            },
    {
        let mut i = self.hotkeys.len();
        assert(self.hotkeys@.take(i as int) =~= self.hotkeys@);
        while i > 0
            invariant
                i <= self.hotkeys@.len(),
                find_hotkey(self.hotkeys@, h) == find_hotkey(self.hotkeys@.take(i as int), h),
            decreases i,
        {
            proof {
                assert(self.hotkeys@.take(i as int).drop_last() =~= self.hotkeys@.take(i - 1));
            }
            if self.hotkeys[i - 1].0 == h {
                return Some(self.hotkeys[i - 1].1.0.duplicate());
            }
            i -= 1;
        }
        None
    }

    /// Handles a hot-key: the hot-keys are collected again if they are not up to date; the
    /// focused control is told first, and asks for a redraw if it took it; if it did not,
    /// and does not want it handled as a key, the job of the last collected hot-key that is
    /// `k` is asked for, and the layout and the hot-keys are to be refreshed. Whether the
    /// hot-key was taken.
    pub fn on_hotkey<L: FontLoader, C: ClipboardHandler>(
        &mut self,
        k: Hotkey,
        fonts: &mut FontFactory<L>,
        clipboard: &C,
    ) -> (r: bool)
        requires
            old(fonts).wf(),
        ensures
            final(fonts).wf(),
            lines_grow(old(fonts).lines(), final(fonts).lines()),
            final(fonts).lines().len() == old(fonts).lines().len(),
            final(self).hotkeys@ == if old(self).updated_hotkeys {
                old(self).hotkeys@
            } else {
                match old(self).root {
                    Some(root) => spec_hotkeys(root, true),
                    None => Seq::empty(),
                }
            },
            !(old(self).flag_path(ControlFlag::Focus) matches Some(q) && base_at_path(old(self).root, q) is Some)
                ==> match find_hotkey(final(self).hotkeys@, k) {
                Some(job) => r && final(self).job_system@.len() == old(self).job_system@.len() + 1
                    && final(self).job_system@.drop_last() == old(self).job_system@ && same_job(
                    final(self).job_system@.last(),
                    job,
                ) && !final(self).updated && !final(self).updated_hotkeys,
                None => !r && final(self).job_system == old(self).job_system,
            },
            (old(self).flag_path(ControlFlag::Focus) matches Some(q) && base_at_path(old(self).root, q) is Some)
                ==> exists|mid: GuiSystem, n: MessageOutput, h: bool, l: Seq<FontLine>|
                #[trigger] hotkey_focus_steps(
                    with_hotkeys(*old(self), final(self).hotkeys),
                    *final(self),
                    k,
                    r,
                    old(fonts).lines(),
                    final(fonts).lines(),
                    mid,
                    n,
                    h,
                    l,
                ),
            final(self).root is Some == old(self).root is Some,
            final(self).focus == old(self).focus,
            final(self).highlight == old(self).highlight,
            final(self).pressed == old(self).pressed,
            final(self).color_theme == old(self).color_theme,
    {
        if !self.updated_hotkeys {
            self.hotkeys.clear();
            match &self.root {
                Some(root) => {
                    root.get_hotkeys(true, &mut self.hotkeys);
                },
                None => {},
            }
            assert(self.hotkeys@ =~= match old(self).root {
                Some(root) => spec_hotkeys(root, true),
                None => Seq::empty(),
            });
            self.updated_hotkeys = true;
        }
        let ghost s0 = *self;
        let ghost l0 = fonts.lines();
        match self.focus_path() {
            Some(path) => {
                let mut out = MessageOutput::new();
                let ghost o0 = out;
                let handled = self.deliver_at(&path, &GuiMessage::Hotkey(k), &mut out, fonts, clipboard);
                let ghost n = MessageOutput { jobs: self.job_system, ..out };
                let ghost l1 = fonts.lines();
                let ghost smid = *self;
                proof {
                    let o = MessageOutput { jobs: s0.job_system, ..o0 };
                    assert(fresh_output(o, s0.job_system));
                    assert(delivered(s0.root->0, self.root->0, path@, GuiMessage::Hotkey(k), o, n, handled, l1));
                    assert(*self == GuiSystem { root: Some(self.root->0), job_system: n.jobs, ..s0 });
                    assert(delivered_in(s0, *self, path@, GuiMessage::Hotkey(k), n, handled, l1));
                }
                if handled {
                    self.mark_at(&path);
                    proof {
                        assert(*self == GuiSystem { root: self.root, ..smid });
                        assert(hotkey_focus_steps(s0, *self, k, true, l0, fonts.lines(), smid, n, handled, l1));
                    }
                    return true;
                }
                if out.use_default_keydown {
                    assert(hotkey_focus_steps(s0, *self, k, false, l0, fonts.lines(), smid, n, handled, l1));
                    return false;
                }
                match self.find_hotkey_exec(k) {
                    Some(job) => {
                        self.job_system.add_callback(job);
                        self.updated = false;
                        self.updated_hotkeys = false;
                        proof {
                            assert(self.job_system@.drop_last() =~= smid.job_system@);
                            assert(*self == GuiSystem { job_system: self.job_system, updated: false, updated_hotkeys: false, ..smid });
                        }
                        assert(hotkey_focus_steps(s0, *self, k, true, l0, fonts.lines(), smid, n, handled, l1));
                        true
                    },
                    None => {
                        assert(hotkey_focus_steps(s0, *self, k, false, l0, fonts.lines(), smid, n, handled, l1));
                        false
                    },
                }
            },
            None => {
                match self.find_hotkey_exec(k) {
                    Some(job) => {
                        self.job_system.add_callback(job);
                        self.updated = false;
                        self.updated_hotkeys = false;
                        true
                    },
                    None => false,
                }
            },
        }
    }

    /// Replaces the control tree by `control`; no control has the focus, the highlight or
    /// the pressed flag. The old root is told it is hidden (if visible) and destroyed, the new
    /// one that it is shown (if visible) and created (`Control::on_lifecycle`, which leaves
    /// each as it is).
    pub fn set_root(&mut self, control: Control)
        ensures
            final(self).root == Some(control),
            final(self).focus is None,
            final(self).highlight is None,
            final(self).pressed is None,
            final(self).job_system == old(self).job_system,
            final(self).color_theme == old(self).color_theme,
            final(self).updated == old(self).updated,
            final(self).updated_hotkeys == old(self).updated_hotkeys,
            final(self).hotkeys == old(self).hotkeys,
    {
        match &mut self.root {
            Some(root) => {
                if root.get_base().visible {
                    root.on_lifecycle(&GuiMessage::Hide);
                }
                root.on_lifecycle(&GuiMessage::Destroy);
            },
            None => {},
        }
        let mut control = control;
        if control.get_base().visible {
            control.on_lifecycle(&GuiMessage::Show);
        }
        control.on_lifecycle(&GuiMessage::Create);
        self.root = Some(control);
        self.focus = None;
        self.highlight = None;
        self.pressed = None;
    }

    /// Sets the colours controls are drawn in.
    pub fn set_color_theme(&mut self, color_theme: GuiColorTheme)
        ensures
            *final(self) == (GuiSystem { color_theme, ..*old(self) }),
    {
        self.color_theme = color_theme;
    }

    /// The window's size changed: the layout is to be refreshed.
    pub fn on_resize(&mut self)
        ensures
            *final(self) == (GuiSystem { updated: false, ..*old(self) }),
    {
        self.updated = false;
    }

    /// The size the whole tree needs, as its size constraints' absolute sizes; nothing
    /// without a tree.
    pub fn get_minimal_size(&mut self) -> (r: Position)
        ensures
            r == match old(self).root {
                Some(root) => (
                    crate::gui::tree::spec_size_constraints(root).0.absolute,
                    crate::gui::tree::spec_size_constraints(root).1.absolute,
                ),
                None => (0i32, 0i32),
            },
            final(self).root is Some == old(self).root is Some,
            old(self).root matches Some(root) ==> (final(self).root matches Some(r1) && base_of(r1) == (if crate::gui::tree::updates_current(root) {
                GuiControlBase { current_size_constraints: crate::gui::tree::spec_size_constraints(root), ..base_of(root) }
            } else {
                base_of(root)
            }) && child_count(r1) == child_count(root)),
            final(self).focus == old(self).focus,
            final(self).highlight == old(self).highlight,
            final(self).pressed == old(self).pressed,
    {
        match &mut self.root {
            Some(root) => {
                let c = root.get_size_constraints();
                (c.0.absolute, c.1.absolute)
            },
            None => (0, 0),
        }
    }

    /// Hands out the jobs asked for so far, in order, for the application to run.
    pub fn take_jobs(&mut self) -> (r: Vec<Job>)
        ensures
            r@ == old(self).job_system@,
            final(self).job_system@ == Seq::<Job>::empty(),
            final(self).root == old(self).root,
    {
        self.job_system.run_all()
    }

    /// Draws the tree into the context's surface; when the layout is not up to date, the
    /// root is first laid out over the whole surface and asked for a redraw.
    pub fn on_draw<L: FontLoader>(&mut self, draw_context: &mut DrawContext<L>)
        requires
            old(draw_context).font_factory.wf(),
        ensures
            final(draw_context).font_factory.wf(),
            lines_grow(old(draw_context).font_factory.lines(), final(draw_context).font_factory.lines()),
            same_outside(&old(draw_context).buffer, &final(draw_context).buffer),
            old(self).root is Some ==> final(self).updated,
            old(self).root is None ==> *final(self) == *old(self),
            old(self).root matches Some(r0) ==> exists|laid: Control|
                #![trigger root_to_draw(r0, old(self).updated, old(draw_context).buffer.spec_size(), laid)]
                root_to_draw(r0, old(self).updated, old(draw_context).buffer.spec_size(), laid) && drawn_by(
                    laid,
                    old(self).color_theme,
                    false,
                    old(draw_context).buffer,
                    final(draw_context).buffer,
                    old(draw_context).font_factory.lines(),
                    final(draw_context).font_factory.lines(),
                ) && (final(self).root matches Some(r1) && base_of(r1) == spec_drawn_base(laid)),
            final(self).root is Some == old(self).root is Some,
            final(self).focus == old(self).focus,
            final(self).highlight == old(self).highlight,
            final(self).pressed == old(self).pressed,
    {
        let ghost updated0 = self.updated;
        match &mut self.root {
            Some(root) => {
                let ghost r0 = *root;
                let ghost mut m = *root;
                if !self.updated {
                    let size = draw_context.buffer.get_size();
                    root.set_rect(Rect { left_top: (0, 0), right_bottom: image_size_to_position(size) });
                    proof {
                        m = *root;
                    }
                    self.updated = true;
                    let mut base = root.get_base();
                    base.need_redraw = true;
                    root.set_base(base);
                }
                let ghost laid = *root;
                proof {
                    if !updated0 {
                        assert(set_rect_post(r0, m, normalize_rect(Rect { left_top: (0i32, 0i32), right_bottom: (old(draw_context).buffer.spec_size().0 as i32, old(draw_context).buffer.spec_size().1 as i32) })));
                    }
                    assert(root_to_draw(r0, updated0, old(draw_context).buffer.spec_size(), laid));
                }
                root.draw(&mut draw_context.buffer, &self.color_theme, false, &mut draw_context.font_factory);
            },
            None => {},
        }
    }

    /// Places `control` at `rect` and lays out what is below it.
    pub fn set_rect(control: &mut Control, rect: Rect)
        requires
            crate::gui::rect_valid(rect),
        ensures
            base_of(*final(control)) == (GuiControlBase { rect, ..base_of(*old(control)) }),
            crate::gui::tree::set_rect_post(*old(control), *final(control), rect),
    {
        control.set_rect(rect);
    }

    /// Asks `control` for a redraw.
    pub fn mark_to_redraw(control: &mut Control)
        ensures
            *final(control) == with_base(*old(control), GuiControlBase { need_redraw: true, ..base_of(*old(control)) }),
    {
        let mut base = control.get_base();
        base.need_redraw = true;
        control.set_base(base);
    }

    /// The path from `control` to the control under `position`.
    pub fn get_child(control: &Control, position: Position) -> (r: Vec<usize>)
        ensures
            r@ == find_path(*control, position),
            control_at(*control, r@) is Some,
    {
        proof {
            lemma_find_path_valid(*control, position);
        }
        control.find_destination(position)
    }

    /// The size constraints `control` reports.
    pub fn get_size_constraints(control: &mut Control) -> (r: SizeConstraints)
        ensures
            r == crate::gui::tree::spec_size_constraints(*old(control)),
    {
        control.get_size_constraints()
    }

    /// The size a button with caption `text` and the given hot-key needs with `font`, as
    /// `default_size_spec` says; the glyphs of the caption and of the hot-key's text are
    /// loaded first.
    pub fn default_size<L: FontLoader>(
        text: &str,
        hotkey: Option<crate::keys::Hotkey>,
        font: &Font,
        fonts: &mut FontFactory<L>,
    ) -> (r: SizeConstraints)
        requires
            old(fonts).wf(),
        ensures
            final(fonts).wf(),
            lines_grow(old(fonts).lines(), final(fonts).lines()),
            final(fonts).lines().len() == old(fonts).lines().len(),
            r == default_size_spec(text@, hotkey, font_glyphs(final(fonts).lines(), *font)),
    {
        let _ = font.get_size(text, fonts);
        let ht = match hotkey {
            Some(h) => h.text(),
            None => String::new(),
        };
        let _ = font.get_size(ht.as_str(), fonts);
        Self::measured_default_size(text, hotkey, font, fonts)
    }

    /// The size `default_size` gives, with the glyphs cached now.
    pub(crate) fn measured_default_size<L: FontLoader>(
        text: &str,
        hotkey: Option<crate::keys::Hotkey>,
        font: &Font,
        fonts: &FontFactory<L>,
    ) -> (r: SizeConstraints)
        requires
            fonts.wf(),
        ensures
            r == default_size_spec(text@, hotkey, font_glyphs(fonts.lines(), *font)),
    {
        let ts = font.measure(text, fonts);
        let height: i32 = #[verifier::truncate] (ts.1 as i32);
        let second = SizeConstraint::fixed(height.wrapping_add(2));
        match hotkey {
            Some(h) => {
                let ht = h.text();
                let hs = font.measure(ht.as_str(), fonts);
                let total: u128 = ts.0 as u128 + hs.0 as u128 + (ts.1 as u128 * 3) / 2;
                SizeConstraints(SizeConstraint::fixed(#[verifier::truncate] (total as i32)), second)
            },
            None => {
                let total: u128 = ts.0 as u128 + ts.1 as u128;
                SizeConstraints(SizeConstraint::fixed(#[verifier::truncate] (total as i32)), second)
            },
        }
    }
}

} // verus!
