//! Annotation editor: state, interaction, and what is painted for each frame.

pub mod laws;
pub mod pictures;
pub mod state;
pub mod steps;

pub use state::{Action, Drag};

use crate::editor::state::{EditorState, Target, MIN_SELECTION};
use crate::render::annotation;
use crate::render::annotation::Annotation;
use crate::render::chrome;
use crate::render::color;
use crate::render::color::{Color, PRESET_COUNT};
use crate::render::drawing;
use crate::render::drawing::DrawOp;
use crate::render::geometry;
use crate::render::geometry::{Rect, Scale};
use crate::render::layout;
use crate::render::ratio::Ratio;
use crate::render::scene;
use crate::render::thickness;
use crate::render::tool;
use crate::render::tool::{Tool, ToolbarItem};
use vstd::prelude::*;

verus! {

/// The editor over the canvas of all outputs.
pub struct Editor {
    /// The whole multi-monitor canvas; all coordinates are in this global canvas space.
    pub width: i32,
    pub height: i32,
    pub scale: Scale,
    /// The output the pointer is currently on (canvas coords); the toolbar/popups live here.
    pub view: Rect,
    /// The output a drag is confined to, locked when the press starts so a tool can't overflow
    /// onto an adjacent monitor if the pointer wanders there mid-drag.
    pub draw_bounds: Rect,
    pub tool: Tool,
    pub draw_color: Color,
    pub highlight_color: Color,
    pub thickness: Ratio,
    pub highlight_thickness: Ratio,
    pub blur_thickness: Ratio,
    pub annotations: Vec<Annotation>,
    pub draw: Option<Annotation>,
    pub selection: ((i32, i32), (i32, i32)),
    pub has_selection: bool,
    pub selection_backup: ((i32, i32), (i32, i32)),
    pub had_selection_backup: bool,
    pub show_color_wheel: bool,
    pub show_thickness_slider: bool,
    pub drag: Drag,
    /// By how much the frosted glass is enlarged, once it has been made.
    pub glass: Option<i32>,
}

/// What an annotation holds, if there is one.
pub open spec fn drawn(draw: Option<Annotation>) -> Option<annotation::Mark> {
    match draw {
        Some(a) => Some(a@),
        None => None,
    }
}

impl View for Editor {
    type V = EditorState;

    open spec fn view(&self) -> EditorState {
        EditorState {
            width: self.width,
            height: self.height,
            scale: self.scale,
            view: self.view,
            draw_bounds: self.draw_bounds,
            tool: self.tool,
            draw_color: self.draw_color,
            highlight_color: self.highlight_color,
            thickness: self.thickness,
            highlight_thickness: self.highlight_thickness,
            blur_thickness: self.blur_thickness,
            annotations: annotation::marks(self.annotations@),
            draw: drawn(self.draw),
            selection: self.selection,
            has_selection: self.has_selection,
            selection_backup: self.selection_backup,
            had_selection_backup: self.had_selection_backup,
            show_color_wheel: self.show_color_wheel,
            show_thickness_slider: self.show_thickness_slider,
            drag: self.drag,
            glass: self.glass,
        }
    }
}

/// The swatch at a point, if there is one.
fn swatch_at(bounds: Rect, scale: Scale, p: (i32, i32)) -> (r: Option<usize>)
    requires
        scale.wf(),
        layout::swatches_fit(bounds@, scale),
    ensures
        match r {
            Some(i) => state::swatch_hit(bounds@, scale, p, i as int),
            None => forall|i: int| !#[trigger] state::swatch_hit(bounds@, scale, p, i),
        },
{
    let rects: Vec<Rect> = layout::preset_swatch_rects(bounds, scale);
    let mut i: usize = 0;
    while i < PRESET_COUNT
        invariant
            0 <= i <= PRESET_COUNT,
            rects@.len() == PRESET_COUNT,
            forall|k: int|
                0 <= k < PRESET_COUNT ==> (#[trigger] rects@[k])@ == layout::swatch_area(
                    bounds@,
                    scale,
                    k,
                ),
            forall|k: int| 0 <= k < i ==> !#[trigger] state::swatch_hit(bounds@, scale, p, k),
        decreases PRESET_COUNT - i,
    {
        assert(rects@[i as int]@ == layout::swatch_area(bounds@, scale, i as int));
        if rects[i].contains(p.0, p.1) {
            return Some(i);
        }
        i = i + 1;
    }
    None
}

/// The button at a point, if there is one.
fn button_at(buttons: &Vec<(ToolbarItem, Rect)>, p: (i32, i32), view: Ghost<Rect>, scale: Ghost<
    Scale,
>) -> (r: Option<usize>)
    requires
        buttons@.len() == tool::TOOLBAR_LEN,
        forall|k: int|
            0 <= k < tool::TOOLBAR_LEN ==> (#[trigger] buttons@[k]).1@ == layout::button_area(
                view@@,
                scale@,
                k,
            ),
    ensures
        match r {
            Some(i) => state::button_hit(view@@, scale@, p, i as int),
            None => forall|i: int| !#[trigger] state::button_hit(view@@, scale@, p, i),
        },
{
    let mut i: usize = 0;
    while i < buttons.len()
        invariant
            0 <= i <= buttons@.len(),
            buttons@.len() == tool::TOOLBAR_LEN,
            forall|k: int|
                0 <= k < tool::TOOLBAR_LEN ==> (#[trigger] buttons@[k]).1@ == layout::button_area(
                    view@@,
                    scale@,
                    k,
                ),
            forall|k: int| 0 <= k < i ==> !#[trigger] state::button_hit(view@@, scale@, p, k),
        decreases buttons@.len() - i,
    {
        assert(buttons@[i as int].1@ == layout::button_area(view@@, scale@, i as int));
        let (_, rect): (ToolbarItem, Rect) = buttons[i];
        if rect.contains(p.0, p.1) {
            return Some(i);
        }
        i = i + 1;
    }
    None
}

/// The point of a rectangle that is nearest to (`x`, `y`) on either axis.
pub fn confine(bounds: Rect, x: i32, y: i32) -> (r: (i32, i32))
    requires
        state::usable(bounds@),
    ensures
        r == state::confined(bounds@, x as int, y as int),
        state::holds(bounds@, r),
{
    (
        geometry::clamp_i32(x, bounds.x, bounds.x + bounds.w - 1),
        geometry::clamp_i32(y, bounds.y, bounds.y + bounds.h - 1),
    )
}

impl Editor {
    /// The editor of a fresh screenshot of the given size.
    pub fn new(width: i32, height: i32, scale: Scale) -> (r: Editor)
        requires
            scale.wf(),
            i32::MIN < width,
            i32::MIN < height,
        ensures
            r@ == EditorState::fresh(width, height, scale),
            r@.wf(),
    {
        let selection: ((i32, i32), (i32, i32)) = ((0, 0), (width - 1, height - 1));
        let whole: Rect = Rect { x: 0, y: 0, w: width, h: height };
        let r: Editor = Editor {
            width,
            height,
            scale,
            view: whole,
            draw_bounds: whole,
            tool: Tool::Crop,
            draw_color: color::mix_color(90, 10, 10),
            highlight_color: color::mix_color(100, 85, 10),
            thickness: thickness::whole_thickness(thickness::DEFAULT_THICKNESS),
            highlight_thickness: thickness::whole_thickness(thickness::HIGHLIGHT_THICKNESS),
            blur_thickness: thickness::whole_thickness(thickness::BLUR_THICKNESS),
            annotations: Vec::new(),
            draw: None,
            selection,
            has_selection: false,
            selection_backup: selection,
            had_selection_backup: false,
            show_color_wheel: false,
            show_thickness_slider: false,
            drag: Drag::Idle,
            glass: None,
        };
        assert(r@.annotations =~= Seq::empty());
        r
    }

    fn clamp(&self, x: i32, y: i32) -> (r: (i32, i32))
        requires
            state::usable(self.draw_bounds@),
        ensures
            r == state::confined(self.draw_bounds@, x as int, y as int),
            state::holds(self.draw_bounds@, r),
    {
        confine(self.draw_bounds, x, y)
    }

    fn active_color_mut(&mut self) -> (r: &mut Color)
        ensures
            *r == old(self)@.active_color(),
            final(self)@ == old(self)@.with_color(*final(r)),
    {
        if self.tool.is_highlight() {
            &mut self.highlight_color
        } else {
            &mut self.draw_color
        }
    }

    /// The color that the active tool draws in.
    pub fn active_color(&self) -> (r: Color)
        ensures
            r == self@.active_color(),
    {
        if self.tool.is_highlight() {
            self.highlight_color
        } else {
            self.draw_color
        }
    }

    fn active_thickness_mut(&mut self) -> (r: &mut Ratio)
        ensures
            *r == old(self)@.active_thickness(),
            final(self)@ == old(self)@.with_thickness(*final(r)),
    {
        match self.tool {
            Tool::Highlight => &mut self.highlight_thickness,
            Tool::Blur => &mut self.blur_thickness,
            _ => &mut self.thickness,
        }
    }

    /// The thickness that the active tool draws in.
    pub fn active_thickness(&self) -> (r: Ratio)
        ensures
            r == self@.active_thickness(),
    {
        match self.tool {
            Tool::Highlight => self.highlight_thickness,
            Tool::Blur => self.blur_thickness,
            _ => self.thickness,
        }
    }

    fn adjust_thickness(&mut self, delta: i128)
        requires
            old(self)@.wf(),
        ensures
            final(self)@ == old(self)@.adjusted(delta as int),
            final(self)@.wf(),
    {
        let t: &mut Ratio = self.active_thickness_mut();
        *t = thickness::adjust(*t, delta);
    }

    fn close_popups(&mut self)
        ensures
            final(self)@ == old(self)@.closed(),
    {
        self.show_color_wheel = false;
        self.show_thickness_slider = false;
    }

    fn select_tool(&mut self, tool: Tool)
        ensures
            final(self)@ == old(self)@.with_tool(tool),
    {
        self.tool = tool;
        self.close_popups();
    }

    // -- Rendering -----------------------------------------------------------

    /// Whether a blur is among the marks, finished or not.
    pub fn needs_blur(&self) -> (r: bool)
        ensures
            r == self@.needs_blur(),
    {
        let mut i: usize = 0;
        while i < self.annotations.len()
            invariant
                0 <= i <= self.annotations@.len(),
                forall|k: int|
                    0 <= k < i ==> (#[trigger] self@.annotations[k]).tool != Tool::Blur,
            decreases self.annotations@.len() - i,
        {
            assert(self@.annotations[i as int] == self.annotations@[i as int]@);
            if self.annotations[i].tool == Tool::Blur {
                return true;
            }
            i = i + 1;
        }
        match &self.draw {
            Some(d) => d.tool == Tool::Blur,
            None => false,
        }
    }

    /// Whether the frosted glass is to be made before the next painting: it is needed and has not
    /// been made yet.
    pub fn wants_mosaic(&self) -> (r: bool)
        ensures
            r == (self@.needs_blur() && self@.glass is None),
    {
        self.needs_blur() && self.glass.is_none()
    }

    /// The frosted glass has been made; it is to be enlarged by `block`.
    pub fn mosaic_built(&mut self, block: i32)
        ensures
            final(self)@ == (EditorState { glass: Some(block), ..old(self)@ }),
    {
        self.glass = Some(block);
    }

    /// Sets the active output (the one the pointer is on), where the toolbar is drawn.
    pub fn set_view(&mut self, view: Rect)
        ensures
            final(self)@ == (EditorState { view, ..old(self)@ }),
    {
        self.view = view;
    }

    /// Draws the global canvas (screenshot, dim, annotations, selection border). The caller
    /// translates by the negative of the output's canvas origin so each overlay shows its slice
    /// of the canvas.
    pub fn render_scene(&self) -> (r: Vec<DrawOp>)
        requires
            self@.wf(),
            self@.can_paint(),
        ensures
            r@ == self@.scene(),
    {
        proof {
            laws::lemma_drawable(self@);
        }
        let sel: Rect = geometry::rect_from_corner_points(self.selection.0, self.selection.1);
        let dim: Vec<DrawOp> = if self.has_selection {
            scene::draw_dim_outside(sel, self.width, self.height)
        } else {
            scene::draw_dim_full(self.width, self.height)
        };
        let draw: Option<&Annotation> = match &self.draw {
            Some(d) => Some(d),
            None => None,
        };
        let marks: Vec<DrawOp> = scene::draw_annotations(
            self.scale,
            &self.annotations,
            draw,
            self.glass,
        );
        let border: Vec<DrawOp> = if self.has_selection {
            scene::draw_selection_border(sel, self.scale)
        } else {
            vec![]
        };
        let start: Vec<DrawOp> = drawing::joined(vec![DrawOp::Screenshot], dim);
        let r: Vec<DrawOp> = drawing::joined(drawing::joined(start, marks), border);
        assert(r@ =~= self@.scene());
        r
    }

    /// Draws the toolbar and any open popup, anchored to the active output. Drawn only on the
    /// overlay for the active output, in the same canvas coordinates as `render_scene`.
    pub fn render_chrome(&self) -> (r: Vec<DrawOp>)
        requires
            self@.wf(),
            self@.chrome_fits(),
        ensures
            r@ == self@.chrome(),
    {
        let mut r: Vec<DrawOp> = chrome::draw_toolbar(
            self.scale,
            self.view,
            self.tool,
            self.active_color(),
            self.active_thickness(),
        );
        if self.show_color_wheel {
            r = drawing::joined(r, chrome::draw_color_wheel(self.scale, self.view));
        }
        if self.show_thickness_slider {
            r = drawing::joined(
                r,
                chrome::draw_thickness_slider(self.scale, self.view, self.active_thickness()),
            );
        }
        assert(r@ =~= self@.chrome());
        r
    }

    /// The final cropped, annotated image for saving (no UI chrome, no darkening): its place on
    /// the canvas, and the steps that paint it.
    pub fn render_save(&self) -> (r: (Rect, Vec<DrawOp>))
        requires
            self@.wf(),
            self@.can_save(),
        ensures
            r.0@ == self@.selected(),
            r.1@ == self@.saved(),
    {
        proof {
            laws::lemma_finished_drawable(self@);
        }
        let sel: Rect = geometry::rect_from_corner_points(self.selection.0, self.selection.1);
        let (dx, dy): (i64, i64) = (-(sel.x as i64), -(sel.y as i64));
        let start: Vec<DrawOp> = vec![DrawOp::Translate { dx, dy }, DrawOp::Screenshot];
        let marks: Vec<DrawOp> = scene::draw_annotations(
            self.scale,
            &self.annotations,
            None,
            self.glass,
        );
        let ops: Vec<DrawOp> = drawing::joined(start, marks);
        assert(ops@ =~= self@.saved());
        (sel, ops)
    }

    // -- Input ---------------------------------------------------------------

    /// A press on the open color wheel popup; says whether it was one.
    fn press_wheel(&mut self, p: (i32, i32)) -> (r: bool)
        requires
            old(self)@.wf(),
            old(self)@.can_press(),
        ensures
            r == (old(self)@.show_color_wheel && state::holds(old(self)@.wheel(), p)),
            r ==> final(self)@ == old(self)@.hit(p),
            !r ==> final(self)@ == old(self)@,
    {
        if !self.show_color_wheel {
            return false;
        }
        let (bounds, center, radius): (Rect, (i32, i32), i32) = layout::color_wheel_layout(
            self.view,
            self.scale,
        );
        if !bounds.contains(p.0, p.1) {
            return false;
        }
        // Swatches: select immediately and close the wheel.
        match swatch_at(bounds, self.scale, p) {
            Some(i) => {
                proof {
                    let s = old(self)@;
                    let k = choose|k: int| state::swatch_hit(s.wheel(), s.scale, p, k);
                    assert(state::swatch_hit(s.wheel(), s.scale, p, i as int));
                    laws::lemma_one_swatch(s.view@, s.scale, p, i as int, k);
                    assert(s.target(p) == Target::Swatch(i as int));
                }
                let presets: [Color; 8] = color::preset_colors();
                *self.active_color_mut() = presets[i];
                self.show_color_wheel = false;
            },
            None => {
                // Inside the wheel: preview while dragging, commit on pointer up.
                match color::wheel_color_at(p, center, radius) {
                    Some(c) => {
                        *self.active_color_mut() = c;
                        self.drag = Drag::ColorWheel;
                    },
                    None => {},
                }
            },
        }
        true
    }

    /// A press on the open thickness slider popup; says whether it was one.
    fn press_slider(&mut self, p: (i32, i32)) -> (r: bool)
        requires
            old(self)@.wf(),
            old(self)@.can_press(),
            !(old(self)@.show_color_wheel && state::holds(old(self)@.wheel(), p)),
        ensures
            r == (old(self)@.show_thickness_slider && state::holds(old(self)@.slider(), p)),
            r ==> final(self)@ == old(self)@.hit(p),
            !r ==> final(self)@ == old(self)@,
    {
        if !self.show_thickness_slider {
            return false;
        }
        let (bounds, x0, x1, _): (Rect, i32, i32, i32) = layout::thickness_slider_layout(
            self.view,
            self.scale,
        );
        if !bounds.contains(p.0, p.1) {
            return false;
        }
        *self.active_thickness_mut() = thickness::thickness_from_slider_x(p.0, x0, x1);
        self.drag = Drag::Slider;
        true
    }

    fn press_button(&mut self, item: ToolbarItem)
        ensures
            final(self)@ == old(self)@.with_button(item),
    {
        match item {
            ToolbarItem::Tool(t) => self.select_tool(t),
            ToolbarItem::Clear => {
                self.annotations.clear();
                self.close_popups();
                assert(self@.annotations =~= Seq::empty());
            },
            ToolbarItem::Color => {
                self.show_color_wheel = !self.show_color_wheel;
                self.show_thickness_slider = false;
            },
            ToolbarItem::Thickness => {
                self.show_thickness_slider = !self.show_thickness_slider;
                self.show_color_wheel = false;
            },
        }
    }

    /// A press on the toolbar; says whether it was one.
    fn press_toolbar(&mut self, p: (i32, i32)) -> (r: bool)
        requires
            old(self)@.wf(),
            old(self)@.can_press(),
            !(old(self)@.show_color_wheel && state::holds(old(self)@.wheel(), p)),
            !(old(self)@.show_thickness_slider && state::holds(old(self)@.slider(), p)),
        ensures
            r == state::holds(layout::toolbar_area(old(self).view@, old(self).scale), p),
            r ==> final(self)@ == old(self)@.hit(p),
            !r ==> final(self)@ == old(self)@,
    {
        let (bounds, buttons): (Rect, Vec<(ToolbarItem, Rect)>) = layout::toolbar_layout(
            self.view,
            self.scale,
        );
        if !bounds.contains(p.0, p.1) {
            return false;
        }
        match button_at(&buttons, p, Ghost(self.view), Ghost(self.scale)) {
            Some(i) => {
                proof {
                    let s = old(self)@;
                    let k = choose|k: int| state::button_hit(s.view@, s.scale, p, k);
                    assert(state::button_hit(s.view@, s.scale, p, i as int));
                    laws::lemma_one_button(s.view@, s.scale, p, i as int, k);
                    assert(s.target(p) == Target::Button(i as int));
                }
                let (item, _): (ToolbarItem, Rect) = buttons[i];
                self.press_button(item);
            },
            None => {},
        }
        true
    }

    /// A press beside all chrome.
    fn press_canvas(&mut self, p: (i32, i32))
        ensures
            final(self)@ == old(self)@.on_canvas_pressed(p),
    {
        // Clicked elsewhere while a popup was open: close it.
        if self.show_color_wheel || self.show_thickness_slider {
            self.close_popups();
            return;
        }
        // Drawing tools.
        if self.tool.is_drawing() {
            let points: Vec<(i32, i32)> = if self.tool.is_freehand() {
                vec![p]
            } else {
                Vec::new()
            };
            let mark: Annotation = Annotation {
                tool: self.tool,
                start: p,
                end: p,
                points,
                color: self.active_color(),
                thickness: self.active_thickness(),
            };
            assert(mark@ =~= old(self)@.new_mark(p));
            self.draw = Some(mark);
            self.drag = Drag::Draw;
            return;
        }
        // Crop: start a new selection (shown bright immediately as a live preview).
        self.selection_backup = self.selection;
        self.had_selection_backup = self.has_selection;
        self.selection = (p, p);
        self.has_selection = true;
        self.drag = Drag::NewSelection;
    }

    /// The pointer is pressed at (`x`, `y`).
    pub fn pointer_down(&mut self, x: i32, y: i32)
        requires
            old(self)@.wf(),
            old(self)@.can_press(),
        ensures
            final(self)@ == old(self)@.pressed(x as int, y as int),
            final(self)@.wf(),
    {
        proof {
            laws::lemma_pressed_wf(self@, x as int, y as int);
        }
        // Confine this drag to the monitor it began on.
        self.draw_bounds = self.view;
        let p: (i32, i32) = self.clamp(x, y);
        if self.press_wheel(p) || self.press_slider(p) || self.press_toolbar(p) {
            return;
        }
        self.press_canvas(p);
    }

    /// The pointer is moved to (`x`, `y`).
    pub fn pointer_motion(&mut self, x: i32, y: i32)
        requires
            old(self)@.wf(),
            old(self)@.can_move(x as int, y as int),
        ensures
            final(self)@ == old(self)@.moved(x as int, y as int),
            final(self)@.wf(),
    {
        proof {
            laws::lemma_moved_wf(self@, x as int, y as int);
        }
        let p: (i32, i32) = self.clamp(x, y);
        match self.drag {
            Drag::Slider => {
                let (_, x0, x1, _): (Rect, i32, i32, i32) = layout::thickness_slider_layout(
                    self.view,
                    self.scale,
                );
                *self.active_thickness_mut() = thickness::thickness_from_slider_x(p.0, x0, x1);
            },
            Drag::Draw => {
                match self.draw.take() {
                    Some(mark) => {
                        let mut d: Annotation = mark;
                        d.end = p;
                        if d.tool.is_freehand() {
                            d.points.push(p);
                        }
                        self.draw = Some(d);
                    },
                    None => {},
                }
            },
            Drag::NewSelection => {
                self.selection = (self.selection.0, p);
            },
            Drag::ColorWheel => {
                let (_, center, radius): (Rect, (i32, i32), i32) = layout::color_wheel_layout(
                    self.view,
                    self.scale,
                );
                match color::wheel_color_at(p, center, radius) {
                    Some(c) => {
                        *self.active_color_mut() = c;
                    },
                    None => {},
                }
            },
            Drag::Idle => {},
        }
    }

    /// The pointer is released.
    pub fn pointer_up(&mut self)
        requires
            old(self)@.wf(),
            old(self)@.can_release(),
        ensures
            final(self)@ == old(self)@.released(),
            final(self)@.wf(),
    {
        match self.drag {
            Drag::Draw => {
                match self.draw.take() {
                    Some(d) => {
                        let keep: bool = if d.tool.is_freehand() {
                            d.points.len() > 0
                        } else {
                            d.start.0 != d.end.0 || d.start.1 != d.end.1
                        };
                        if keep {
                            let ghost before = self@.annotations;
                            let ghost mark = d@;
                            self.annotations.push(d);
                            assert(self@.annotations =~= before.push(mark));
                        }
                    },
                    None => {},
                }
            },
            Drag::NewSelection => {
                let sel: Rect = geometry::rect_from_corner_points(
                    self.selection.0,
                    self.selection.1,
                );
                // Treat a tiny drag as an accidental click and restore the previous state.
                if sel.w < MIN_SELECTION || sel.h < MIN_SELECTION {
                    self.selection = self.selection_backup;
                    self.has_selection = self.had_selection_backup;
                }
            },
            Drag::ColorWheel => {
                self.show_color_wheel = false;
            },
            _ => {},
        }
        self.drag = Drag::Idle;
    }

    /// The wheel is turned by one notch.
    pub fn scroll(&mut self, up: bool)
        requires
            old(self)@.wf(),
        ensures
            final(self)@ == old(self)@.scrolled(up),
            final(self)@.wf(),
    {
        let step: i128 = thickness::THICKNESS_STEP;
        self.adjust_thickness(
            if up {
                step
            } else {
                -step
            },
        );
    }

    fn undo(&mut self)
        requires
            old(self)@.wf(),
        ensures
            final(self)@ == old(self)@.undone(),
            final(self)@.wf(),
    {
        let ghost before = self@.annotations;
        match self.annotations.pop() {
            Some(_) => {
                assert(self@.annotations =~= before.drop_last());
            },
            None => {
                assert(self@.annotations =~= before);
            },
        }
    }

    fn clear(&mut self)
        requires
            old(self)@.wf(),
        ensures
            final(self)@ == old(self)@.cleared(),
            final(self)@.wf(),
    {
        self.annotations.clear();
        assert(self@.annotations =~= Seq::empty());
    }

    fn type_letter(&mut self, letter: Option<char>)
        requires
            old(self)@.wf(),
        ensures
            final(self)@ == old(self)@.lettered(letter),
            final(self)@.wf(),
    {
        let step: i128 = thickness::THICKNESS_STEP;
        match letter {
            Some('c') => self.select_tool(Tool::Crop),
            Some('r') => self.select_tool(Tool::Rectangle),
            Some('l') => self.select_tool(Tool::Line),
            Some('a') => self.select_tool(Tool::Arrow),
            Some('f') => self.select_tool(Tool::Freehand),
            Some('h') => self.select_tool(Tool::Highlight),
            Some('b') => self.select_tool(Tool::Blur),
            Some('e') => self.clear(),
            Some('-') => self.adjust_thickness(-step),
            Some('_') => self.adjust_thickness(-step),
            Some('=') => self.adjust_thickness(step),
            Some('+') => self.adjust_thickness(step),
            _ => {},
        }
    }

    /// Handles a key press. `ch` is the logical character (if any); the flags cover the special
    /// keys we care about.
    pub fn key(
        &mut self,
        ch: Option<&str>,
        ctrl: bool,
        escape: bool,
        enter_or_space: bool,
    ) -> (r: Action)
        requires
            old(self)@.wf(),
        ensures
            (final(self)@, r) == old(self)@.typed(state::letter(ch), ctrl, escape, enter_or_space),
            final(self)@.wf(),
    {
        if escape {
            return Action::Cancel;
        }
        let typed: Option<char> = only_char(ch);
        if ctrl {
            match typed {
                Some('z') => self.undo(),
                Some('c') => {
                    return Action::SaveClipboard;
                },
                _ => {},
            }
            return Action::Nothing;
        }
        if enter_or_space {
            return Action::SaveDisk;
        }
        self.type_letter(typed);
        Action::Nothing
    }
}

/// The character that a string consists of.
fn only_char(ch: Option<&str>) -> (r: Option<char>)
    ensures
        r == state::letter(ch),
{
    match ch {
        Some(s) => if s.unicode_len() == 1 {
            Some(s.get_char(0))
        } else {
            None
        },
        None => None,
    }
}

} // verus!
