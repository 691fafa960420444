//! What the editor shows and what it saves.

use crate::editor::state::EditorState;
use crate::render::annotation::Mark;
use crate::render::chrome;
use crate::render::drawing::DrawOp;
use crate::render::laws;
use crate::render::scene;
use crate::render::tool::Tool;
use vstd::prelude::*;

verus! {

/// The editor with other annotations.
pub open spec fn holding(s: EditorState, annotations: Seq<Mark>) -> EditorState {
    EditorState { annotations, ..s }
}

/// The editor while `draw` is being drawn.
pub open spec fn drawing_on(s: EditorState, draw: Option<Mark>) -> EditorState {
    EditorState { draw, ..s }
}

// --- the saved image -------------------------------------------------------

/// Without marks the saved image is the screenshot, moved so that the upper left corner of the
/// selection is its origin.
pub proof fn law_saved_without_marks_is_the_screenshot(s: EditorState)
    requires
        s.annotations.len() == 0,
    ensures
        ({
            let ops = s.saved();
            let (a, b) = s.selection;
            &&& ops.len() == 2
            &&& ops[0] matches DrawOp::Translate { dx, dy } && {
                &&& -dx <= a.0 && -dx <= b.0 && (-dx == a.0 || -dx == b.0)
                &&& -dy <= a.1 && -dy <= b.1 && (-dy == a.1 || -dy == b.1)
            }
            &&& ops[1] == DrawOp::Screenshot
        }),
{
}

/// The saved image of an editor with one more mark is that of the editor before, followed by the
/// steps of the new mark.
pub proof fn law_saved_grows_by_each_mark(s: EditorState, m: Mark)
    ensures
        holding(s, s.annotations.push(m)).saved() == s.saved() + scene::mark_ops(
            m,
            s.scale,
            s.glass,
        ),
{
    scene::law_newest_on_top(s.annotations, m, s.scale, s.glass);
    assert(holding(s, s.annotations.push(m)).saved() =~= s.saved() + scene::mark_ops(
        m,
        s.scale,
        s.glass,
    ));
}

/// Every finished mark is in the saved image, the oldest first: its steps follow the saved image
/// of the marks before it.
pub proof fn law_every_mark_is_saved(s: EditorState, i: int)
    requires
        0 <= i < s.annotations.len(),
    ensures
        ({
            let before = holding(s, s.annotations.take(i)).saved();
            let own = scene::mark_ops(s.annotations[i], s.scale, s.glass);
            &&& before.len() + own.len() <= s.saved().len()
            &&& s.saved().take(before.len() as int) == before
            &&& s.saved().skip(before.len() as int).take(own.len() as int) == own
        }),
    decreases s.annotations.len(),
{
    let last = s.annotations.last();
    let rest = s.annotations.drop_last();
    let less = holding(s, rest);
    assert(rest.push(last) =~= s.annotations);
    law_saved_grows_by_each_mark(less, last);
    assert(holding(less, rest.push(last)) =~= s);
    let before = holding(s, s.annotations.take(i)).saved();
    let own = scene::mark_ops(s.annotations[i], s.scale, s.glass);
    if i < rest.len() {
        law_every_mark_is_saved(less, i);
        assert(rest.take(i) =~= s.annotations.take(i));
        assert(holding(less, rest.take(i)) =~= holding(s, s.annotations.take(i)));
        assert(s.saved().take(before.len() as int) =~= less.saved().take(before.len() as int));
        assert(s.saved().skip(before.len() as int).take(own.len() as int)
            =~= less.saved().skip(before.len() as int).take(own.len() as int));
    } else {
        assert(s.annotations.take(i) =~= rest);
        assert(s.saved().take(before.len() as int) =~= before);
        assert(s.saved().skip(before.len() as int).take(own.len() as int) =~= own);
    }
}

/// The saved image depends on the finished marks, the glass and the selection alone: not on the
/// mark that is being drawn, the tools, the popups or the output that the pointer is on.
pub proof fn law_only_what_is_finished_is_saved(s: EditorState, t: EditorState)
    requires
        s.annotations == t.annotations,
        s.glass == t.glass,
        s.selection == t.selection,
    ensures
        s.saved() == t.saved(),
{
    scene::law_all_marks_ignore_scale(s.annotations, s.scale, t.scale, s.glass);
}

// --- the canvas on screen --------------------------------------------------

/// How many steps the border of the selection takes; there are none without a selection.
pub open spec fn border_steps(s: EditorState) -> int {
    if s.has_selection {
        5
    } else {
        0
    }
}

/// Without marks the canvas shows the screenshot, dimmed, and the border of the selection if there
/// is one.
pub proof fn law_scene_without_marks(s: EditorState)
    requires
        s.annotations.len() == 0,
        s.draw is None,
    ensures
        s.scene()[0] == DrawOp::Screenshot,
        !s.has_selection ==> s.scene().skip(1) == scene::dim_full(s.width as int, s.height as int),
        s.has_selection ==> s.scene().skip(1) == scene::dim_outside(
            s.selected(),
            s.width as int,
            s.height as int,
        ) + scene::selection_border(s.selected(), s.scale),
{
    let sel = s.selected();
    let (w, h) = (s.width as int, s.height as int);
    if s.has_selection {
        assert(s.scene().skip(1) =~= scene::dim_outside(sel, w, h) + scene::selection_border(
            sel,
            s.scale,
        ));
    } else {
        assert(s.scene().skip(1) =~= scene::dim_full(w, h));
    }
}

/// The canvas with one more mark differs from the canvas before by that mark's steps, which come
/// above all older marks and below the border.
pub proof fn law_scene_grows_by_each_mark(s: EditorState, m: Mark)
    requires
        s.draw is None,
    ensures
        ({
            let before = s.scene();
            let top = before.len() - border_steps(s);
            &&& 0 <= top
            &&& holding(s, s.annotations.push(m)).scene() == before.take(top) + scene::mark_ops(
                m,
                s.scale,
                s.glass,
            ) + before.skip(top)
        }),
{
    scene::law_newest_on_top(s.annotations, m, s.scale, s.glass);
    let before = s.scene();
    let top = before.len() - border_steps(s);
    assert(holding(s, s.annotations.push(m)).scene() =~= before.take(top) + scene::mark_ops(
        m,
        s.scale,
        s.glass,
    ) + before.skip(top));
}

/// The mark that is being drawn is shown above all finished marks and below the border: a blur by
/// its outline, any other mark as it will be once it is finished.
pub proof fn law_scene_shows_the_current_mark(s: EditorState, m: Mark)
    requires
        s.draw is None,
    ensures
        ({
            let before = s.scene();
            let top = before.len() - border_steps(s);
            let shown = drawing_on(s, Some(m)).scene();
            &&& 0 <= top
            &&& m.tool != Tool::Blur ==> shown == holding(s, s.annotations.push(m)).scene()
            &&& m.tool != Tool::Blur ==> shown == before.take(top) + scene::mark_ops(
                m,
                s.scale,
                s.glass,
            ) + before.skip(top)
            &&& m.tool == Tool::Blur ==> shown == before.take(top) + scene::blur_preview(m, s.scale)
                + before.skip(top)
        }),
{
    law_scene_grows_by_each_mark(s, m);
    let before = s.scene();
    let top = before.len() - border_steps(s);
    let shown = drawing_on(s, Some(m)).scene();
    if m.tool == Tool::Blur {
        assert(shown =~= before.take(top) + scene::blur_preview(m, s.scale) + before.skip(top));
    } else {
        assert(shown =~= before.take(top) + scene::mark_ops(m, s.scale, s.glass) + before.skip(
            top,
        ));
    }
}

/// Every finished mark is on the canvas, the oldest first, whatever is being drawn: its steps
/// follow what the canvas shows, below the border, of the marks before it.
pub proof fn law_every_mark_is_shown(s: EditorState, i: int)
    requires
        0 <= i < s.annotations.len(),
    ensures
        ({
            let before = drawing_on(holding(s, s.annotations.take(i)), None).scene();
            let top = before.len() - border_steps(s);
            let own = scene::mark_ops(s.annotations[i], s.scale, s.glass);
            &&& 0 <= top
            &&& top + own.len() <= s.scene().len()
            &&& s.scene().take(top) == before.take(top)
            &&& s.scene().skip(top).take(own.len() as int) == own
        }),
{
    laws::law_every_mark_is_painted(s.annotations, i, s.scale, s.glass);
    let before = drawing_on(holding(s, s.annotations.take(i)), None).scene();
    let top = before.len() - border_steps(s);
    let own = scene::mark_ops(s.annotations[i], s.scale, s.glass);
    let all = scene::all_marks(s.annotations, s.scale, s.glass);
    let old_marks = scene::all_marks(s.annotations.take(i), s.scale, s.glass);
    let start = top - old_marks.len();
    assert(start == if s.has_selection { 7int } else { 4int });
    assert(s.scene().skip(start).take(all.len() as int) =~= all);
    assert(before.skip(start).take(old_marks.len() as int) =~= old_marks);
    assert forall|j: int| 0 <= j < old_marks.len() implies all[j] == #[trigger] old_marks[j] by {
        assert(all.take(old_marks.len() as int)[j] == all[j]);
    }
    assert forall|j: int| 0 <= j < top implies s.scene()[j] == #[trigger] before[j] by {
        if j >= start {
            assert(before.skip(start).take(old_marks.len() as int)[j - start] == before[j]);
            assert(s.scene().skip(start).take(all.len() as int)[j - start] == s.scene()[j]);
        }
    }
    assert(s.scene().take(top) =~= before.take(top));
    assert forall|j: int| 0 <= j < own.len() implies s.scene()[top + j] == #[trigger] own[j] by {
        let k = old_marks.len() + j;
        assert(all.subrange(old_marks.len() as int, (old_marks.len() + own.len()) as int)[j]
            == all[k]);
        assert(s.scene().skip(start).take(all.len() as int)[k] == s.scene()[start + k]);
    }
    assert(s.scene().skip(top).take(own.len() as int) =~= own);
}

/// The toolbar and the popups are not part of the canvas: it does not depend on the tool, its
/// colors and thicknesses, the popups or the output that the pointer is on.
pub proof fn law_scene_is_apart_from_the_chrome(s: EditorState, t: EditorState)
    requires
        s.same_setting(t),
        s.annotations == t.annotations,
        s.draw == t.draw,
        s.glass == t.glass,
        s.selection == t.selection,
        s.has_selection == t.has_selection,
    ensures
        s.scene() == t.scene(),
{
}

// --- the chrome ------------------------------------------------------------

/// The chrome is the toolbar of the active output, with the active tool, its color and its
/// thickness; and over it the popup that is open.
pub proof fn law_chrome_is_the_toolbar_and_the_open_popup(s: EditorState)
    ensures
        ({
            let color = if s.tool == Tool::Highlight {
                s.highlight_color
            } else {
                s.draw_color
            };
            let thickness = if s.tool == Tool::Highlight {
                s.highlight_thickness
            } else if s.tool == Tool::Blur {
                s.blur_thickness
            } else {
                s.thickness
            };
            let bar = chrome::toolbar_ops(s.scale, s.view@, s.tool, color, thickness);
            &&& s.chrome().take(bar.len() as int) == bar
            &&& !s.show_color_wheel && !s.show_thickness_slider ==> s.chrome() == bar
            &&& s.show_color_wheel && !s.show_thickness_slider ==> s.chrome() == bar
                + chrome::wheel_ops(s.scale, s.view@)
            &&& !s.show_color_wheel && s.show_thickness_slider ==> s.chrome() == bar
                + chrome::slider_ops(s.scale, s.view@, thickness)
        }),
{
    let bar = chrome::toolbar_ops(
        s.scale,
        s.view@,
        s.tool,
        s.active_color(),
        s.active_thickness(),
    );
    let wheel = chrome::wheel_ops(s.scale, s.view@);
    let slider = chrome::slider_ops(s.scale, s.view@, s.active_thickness());
    lemma_two_parts(
        bar,
        if s.show_color_wheel {
            wheel
        } else {
            seq![]
        },
        if s.show_thickness_slider {
            slider
        } else {
            seq![]
        },
    );
}

proof fn lemma_two_parts(bar: Seq<DrawOp>, a: Seq<DrawOp>, b: Seq<DrawOp>)
    ensures
        (bar + a + b).take(bar.len() as int) == bar,
        a.len() == 0 ==> bar + a + b == bar + b,
        b.len() == 0 ==> bar + a + b == bar + a,
        a.len() == 0 && b.len() == 0 ==> bar + a + b == bar,
{
    assert((bar + a + b).take(bar.len() as int) =~= bar);
    if a.len() == 0 {
        assert(bar + a + b =~= bar + b);
    }
    if b.len() == 0 {
        assert(bar + a + b =~= bar + a);
    }
    if a.len() == 0 && b.len() == 0 {
        assert(bar + a + b =~= bar);
    }
}

// --- the glass -------------------------------------------------------------

/// The frosted glass is needed as soon as a blur is drawn or kept, and not by any other mark.
pub proof fn law_when_the_glass_is_needed(s: EditorState, m: Mark)
    ensures
        s.annotations.len() == 0 && s.draw is None ==> !s.needs_blur(),
        holding(s, s.annotations.push(m)).needs_blur() == (s.needs_blur() || m.tool == Tool::Blur),
        s.draw is None ==> drawing_on(s, Some(m)).needs_blur() == (s.needs_blur() || m.tool
            == Tool::Blur),
{
    let t = holding(s, s.annotations.push(m));
    assert(t.annotations[s.annotations.len() as int] == m);
    if s.needs_blur() && !(s.draw matches Some(d) && d.tool == Tool::Blur) {
        let i = choose|i: int|
            0 <= i < s.annotations.len() && (#[trigger] s.annotations[i]).tool == Tool::Blur;
        assert(t.annotations[i] == s.annotations[i]);
        assert(drawing_on(s, Some(m)).annotations[i].tool == Tool::Blur);
    }
    if t.needs_blur() && m.tool != Tool::Blur && !(s.draw matches Some(d) && d.tool == Tool::Blur) {
        let i = choose|i: int|
            0 <= i < t.annotations.len() && (#[trigger] t.annotations[i]).tool == Tool::Blur;
        assert(s.annotations[i] == t.annotations[i]);
    }
}

} // verus!
