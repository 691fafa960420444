//! What the editor holds, and what each input makes of it.

use crate::render::annotation::Mark;
use crate::render::chrome;
use crate::render::color;
use crate::render::color::{Color, PRESET_COUNT};
use crate::render::drawing::DrawOp;
use crate::render::geometry;
use crate::render::geometry::{Area, Rect, Scale};
use crate::render::layout;
use crate::render::ratio::Ratio;
use crate::render::scene;
use crate::render::thickness;
use crate::render::tool;
use crate::render::tool::{Tool, ToolbarItem};
use vstd::prelude::*;

verus! {

/// What a key press asks for.
#[derive(Debug, Clone, Copy, PartialEq, Eq, Structural)]
pub enum Action {
    Nothing,
    SaveDisk,
    SaveClipboard,
    Cancel,
}

/// What the pointer does while the button is held.
#[derive(Debug, Clone, Copy, PartialEq, Eq, Structural)]
pub enum Drag {
    Idle,
    NewSelection,
    Draw,
    Slider,
    ColorWheel,
}

/// A selection smaller than this in either direction is taken for an accidental click.
pub const MIN_SELECTION: i32 = 8;

/// What the editor holds. All coordinates are in the canvas of all outputs.
#[verifier::ext_equal]
pub struct EditorState {
    pub width: i32,
    pub height: i32,
    pub scale: Scale,
    pub view: Rect,
    pub draw_bounds: Rect,
    pub tool: Tool,
    pub draw_color: Color,
    pub highlight_color: Color,
    pub thickness: Ratio,
    pub highlight_thickness: Ratio,
    pub blur_thickness: Ratio,
    pub annotations: Seq<Mark>,
    pub draw: Option<Mark>,
    pub selection: ((i32, i32), (i32, i32)),
    pub has_selection: bool,
    pub selection_backup: ((i32, i32), (i32, i32)),
    pub had_selection_backup: bool,
    pub show_color_wheel: bool,
    pub show_thickness_slider: bool,
    pub drag: Drag,
    pub glass: Option<i32>,
}

/// What a press of the pointer hits.
pub enum Target {
    /// A swatch of the color wheel popup.
    Swatch(int),
    /// A color of the wheel.
    Hue(Color),
    /// The color wheel popup, beside the wheel and the swatches.
    WheelFrame,
    /// The thickness slider popup.
    Slider,
    /// A button of the toolbar.
    Button(int),
    /// The toolbar, between the buttons.
    ToolbarFrame,
    /// None of these.
    Canvas,
}

/// Everything that can happen to an editor.
pub enum Input {
    /// The pointer came to another output.
    Enter(Rect),
    Press(i32, i32),
    Motion(i32, i32),
    Release,
    Scroll(bool),
    /// A key: its letter, and whether control is held, it is escape, or it is enter or space.
    Key(Option<char>, bool, bool, bool),
    /// The frosted glass has been made.
    Glass(i32),
}

/// An output that something can be confined to.
pub open spec fn usable(area: Area) -> bool {
    area.fits() && 1 <= area.w && 1 <= area.h
}

/// The pixel of `area` that is nearest to (`x`, `y`) on either axis.
pub open spec fn confined(area: Area, x: int, y: int) -> (i32, i32) {
    (
        geometry::clamp(x, area.x, area.x + area.w - 1) as i32,
        geometry::clamp(y, area.y, area.y + area.h - 1) as i32,
    )
}

/// The pixel lies in the area.
pub open spec fn holds(area: Area, p: (i32, i32)) -> bool {
    area.covers(p.0 as int, p.1 as int)
}

/// All points of a mark lie in the area.
pub open spec fn mark_within(m: Mark, area: Area) -> bool {
    &&& holds(area, m.start)
    &&& holds(area, m.end)
    &&& forall|i: int| 0 <= i < m.points.len() ==> holds(area, #[trigger] m.points[i])
}

/// A mark as it is drawn: by a drawing tool, in a thickness of the range, with points where and
/// only where it is drawn freehand.
pub open spec fn well_drawn(m: Mark) -> bool {
    &&& m.tool != Tool::Crop
    &&& thickness::in_range(m.thickness)
    &&& m.tool == Tool::Freehand <==> m.points.len() > 0
}

/// A mark worth keeping: drawn freehand, or with two different ends.
pub open spec fn worth_keeping(m: Mark) -> bool {
    if m.tool == Tool::Freehand {
        m.points.len() > 0
    } else {
        m.start != m.end
    }
}

/// The character that a string consists of.
pub open spec fn letter(ch: Option<&str>) -> Option<char> {
    match ch {
        Some(s) => if s@.len() == 1 {
            Some(s@[0])
        } else {
            None
        },
        None => None,
    }
}

/// Swatch `i` is hit.
pub open spec fn swatch_hit(bounds: Area, scale: Scale, p: (i32, i32), i: int) -> bool {
    0 <= i < PRESET_COUNT && holds(layout::swatch_area(bounds, scale, i), p)
}

/// Button `i` is hit.
pub open spec fn button_hit(view: Area, scale: Scale, p: (i32, i32), i: int) -> bool {
    0 <= i < tool::TOOLBAR_LEN && holds(layout::button_area(view, scale, i), p)
}

impl EditorState {
    /// The editor of a fresh screenshot: nothing is drawn, nothing is selected.
    pub open spec fn fresh(width: i32, height: i32, scale: Scale) -> EditorState {
        let whole = Rect { x: 0, y: 0, w: width, h: height };
        let selection = ((0i32, 0i32), ((width - 1) as i32, (height - 1) as i32));
        EditorState {
            width,
            height,
            scale,
            view: whole,
            draw_bounds: whole,
            tool: Tool::Crop,
            draw_color: color::default_color(),
            highlight_color: color::highlight_color(),
            thickness: thickness::whole(thickness::DEFAULT_THICKNESS as int),
            highlight_thickness: thickness::whole(thickness::HIGHLIGHT_THICKNESS as int),
            blur_thickness: thickness::whole(thickness::BLUR_THICKNESS as int),
            annotations: seq![],
            draw: None,
            selection,
            has_selection: false,
            selection_backup: selection,
            had_selection_backup: false,
            show_color_wheel: false,
            show_thickness_slider: false,
            drag: Drag::Idle,
            glass: None,
        }
    }

    /// What holds of every editor: the thicknesses are in range, every mark is well drawn and
    /// every finished one worth keeping, a mark is there while one is drawn, and the popups are
    /// never open together.
    pub open spec fn wf(self) -> bool {
        &&& self.scale.wf()
        &&& thickness::in_range(self.thickness)
        &&& thickness::in_range(self.highlight_thickness)
        &&& thickness::in_range(self.blur_thickness)
        &&& forall|i: int|
            0 <= i < self.annotations.len() ==> well_drawn(#[trigger] self.annotations[i])
                && worth_keeping(self.annotations[i])
        &&& self.draw matches Some(m) ==> well_drawn(m)
        &&& self.drag == Drag::Draw ==> self.draw is Some
        &&& !(self.show_color_wheel && self.show_thickness_slider)
    }

    // --- colors and thicknesses --------------------------------------------

    /// The color that the active tool draws in.
    pub open spec fn active_color(self) -> Color {
        if self.tool == Tool::Highlight {
            self.highlight_color
        } else {
            self.draw_color
        }
    }

    pub open spec fn with_color(self, c: Color) -> EditorState {
        if self.tool == Tool::Highlight {
            EditorState { highlight_color: c, ..self }
        } else {
            EditorState { draw_color: c, ..self }
        }
    }

    /// The thickness that the active tool draws in.
    pub open spec fn active_thickness(self) -> Ratio {
        match self.tool {
            Tool::Highlight => self.highlight_thickness,
            Tool::Blur => self.blur_thickness,
            _ => self.thickness,
        }
    }

    pub open spec fn with_thickness(self, t: Ratio) -> EditorState {
        match self.tool {
            Tool::Highlight => EditorState { highlight_thickness: t, ..self },
            Tool::Blur => EditorState { blur_thickness: t, ..self },
            _ => EditorState { thickness: t, ..self },
        }
    }

    pub open spec fn adjusted(self, delta: int) -> EditorState {
        self.with_thickness(thickness::adjusted(self.active_thickness(), delta))
    }

    /// The popups closed.
    pub open spec fn closed(self) -> EditorState {
        EditorState { show_color_wheel: false, show_thickness_slider: false, ..self }
    }

    /// Another tool chosen, which closes the popups.
    pub open spec fn with_tool(self, t: Tool) -> EditorState {
        EditorState { tool: t, ..self.closed() }
    }

    // --- the pointer goes down ---------------------------------------------

    pub open spec fn wheel(self) -> Area {
        layout::wheel_area(self.view@, self.scale)
    }

    pub open spec fn slider(self) -> Area {
        layout::slider_area(self.view@, self.scale)
    }

    /// The color of the wheel at a point.
    pub open spec fn hue_at(self, p: (i32, i32)) -> Option<Color> {
        let center = layout::wheel_center(self.view@, self.scale);
        color::wheel_pick(
            p.0 - center.0,
            p.1 - center.1,
            layout::size(self.scale, layout::WHEEL_RADIUS),
        )
    }

    /// The thickness at a point of the slider.
    pub open spec fn thickness_at(self, p: (i32, i32)) -> Ratio {
        let (x0, x1, _) = layout::slider_track(self.view@, self.scale);
        thickness::slider_value(p.0 as int, x0, x1)
    }

    /// What a press at a point hits: an open popup lies above the toolbar.
    pub open spec fn target(self, p: (i32, i32)) -> Target {
        if self.show_color_wheel && holds(self.wheel(), p) {
            if exists|i: int| swatch_hit(self.wheel(), self.scale, p, i) {
                Target::Swatch(choose|i: int| swatch_hit(self.wheel(), self.scale, p, i))
            } else {
                match self.hue_at(p) {
                    Some(c) => Target::Hue(c),
                    None => Target::WheelFrame,
                }
            }
        } else if self.show_thickness_slider && holds(self.slider(), p) {
            Target::Slider
        } else if holds(layout::toolbar_area(self.view@, self.scale), p) {
            if exists|i: int| button_hit(self.view@, self.scale, p, i) {
                Target::Button(choose|i: int| button_hit(self.view@, self.scale, p, i))
            } else {
                Target::ToolbarFrame
            }
        } else {
            Target::Canvas
        }
    }

    /// What a press at (`x`, `y`) hits.
    pub open spec fn target_at(self, x: int, y: int) -> Target {
        self.target(confined(self.view@, x, y))
    }

    /// A button of the toolbar pressed.
    pub open spec fn with_button(self, item: ToolbarItem) -> EditorState {
        match item {
            ToolbarItem::Tool(t) => self.with_tool(t),
            ToolbarItem::Clear => EditorState { annotations: seq![], ..self.closed() },
            ToolbarItem::Color => EditorState {
                show_color_wheel: !self.show_color_wheel,
                show_thickness_slider: false,
                ..self
            },
            ToolbarItem::Thickness => EditorState {
                show_thickness_slider: !self.show_thickness_slider,
                show_color_wheel: false,
                ..self
            },
        }
    }

    /// The mark that the active tool starts at a point.
    pub open spec fn new_mark(self, p: (i32, i32)) -> Mark {
        Mark {
            tool: self.tool,
            start: p,
            end: p,
            points: if self.tool == Tool::Freehand {
                seq![p]
            } else {
                seq![]
            },
            color: self.active_color(),
            thickness: self.active_thickness(),
        }
    }

    /// A press beside all chrome: it closes an open popup; else a drawing tool starts a mark, and
    /// the crop tool starts a selection.
    pub open spec fn on_canvas_pressed(self, p: (i32, i32)) -> EditorState {
        if self.show_color_wheel || self.show_thickness_slider {
            self.closed()
        } else if self.tool != Tool::Crop {
            EditorState { draw: Some(self.new_mark(p)), drag: Drag::Draw, ..self }
        } else {
            EditorState {
                selection_backup: self.selection,
                had_selection_backup: self.has_selection,
                selection: (p, p),
                has_selection: true,
                drag: Drag::NewSelection,
                ..self
            }
        }
    }

    /// A press at a point of the active output.
    pub open spec fn hit(self, p: (i32, i32)) -> EditorState {
        match self.target(p) {
            Target::Swatch(i) => EditorState {
                show_color_wheel: false,
                ..self.with_color(color::presets()[i])
            },
            Target::Hue(c) => EditorState { drag: Drag::ColorWheel, ..self.with_color(c) },
            Target::WheelFrame => self,
            Target::Slider => EditorState {
                drag: Drag::Slider,
                ..self.with_thickness(self.thickness_at(p))
            },
            Target::Button(i) => self.with_button(tool::toolbar()[i]),
            Target::ToolbarFrame => self,
            Target::Canvas => self.on_canvas_pressed(p),
        }
    }

    /// The pointer pressed at (`x`, `y`): what follows is confined to the active output.
    pub open spec fn pressed(self, x: int, y: int) -> EditorState {
        EditorState { draw_bounds: self.view, ..self }.hit(confined(self.view@, x, y))
    }

    /// The toolbar and the open popup are representable.
    pub open spec fn chrome_fits(self) -> bool {
        &&& layout::toolbar_fits(self.view@, self.scale)
        &&& self.show_color_wheel ==> layout::wheel_fits(self.view@, self.scale)
            && layout::swatches_fit(self.wheel(), self.scale)
        &&& self.show_thickness_slider ==> layout::slider_fits(self.view@, self.scale)
    }

    /// The active output can be confined to, and what a press is compared with is representable.
    pub open spec fn can_press(self) -> bool {
        usable(self.view@) && self.chrome_fits()
    }

    // --- the pointer moves -------------------------------------------------

    /// A mark drawn on to a point.
    pub open spec fn extended(m: Mark, p: (i32, i32)) -> Mark {
        Mark {
            end: p,
            points: if m.tool == Tool::Freehand {
                m.points.push(p)
            } else {
                m.points
            },
            ..m
        }
    }

    /// The pointer moved to a point of the output that the drag began on.
    pub open spec fn dragged(self, p: (i32, i32)) -> EditorState {
        match self.drag {
            Drag::Slider => self.with_thickness(self.thickness_at(p)),
            Drag::Draw => match self.draw {
                Some(m) => EditorState { draw: Some(Self::extended(m, p)), ..self },
                None => self,
            },
            Drag::NewSelection => EditorState { selection: (self.selection.0, p), ..self },
            Drag::ColorWheel => match self.hue_at(p) {
                Some(c) => self.with_color(c),
                None => self,
            },
            Drag::Idle => self,
        }
    }

    /// The pointer moved to (`x`, `y`).
    pub open spec fn moved(self, x: int, y: int) -> EditorState {
        self.dragged(confined(self.draw_bounds@, x, y))
    }

    /// What the motion is compared with is representable.
    pub open spec fn can_move(self, x: int, y: int) -> bool {
        let p = confined(self.draw_bounds@, x, y);
        let x0 = layout::slider_track(self.view@, self.scale).0;
        let center = layout::wheel_center(self.view@, self.scale);
        &&& usable(self.draw_bounds@)
        &&& self.drag == Drag::Slider ==> layout::slider_fits(self.view@, self.scale) && i32::MIN
            <= p.0 - x0 <= i32::MAX
        &&& self.drag == Drag::ColorWheel ==> layout::wheel_fits(self.view@, self.scale)
            && i32::MIN <= p.0 - center.0 <= i32::MAX && i32::MIN <= p.1 - center.1 <= i32::MAX
    }

    // --- the pointer goes up -----------------------------------------------

    /// The pointer released: a mark is kept if it is worth it, a tiny selection gives way to the
    /// one before, and the color wheel closes after a color was dragged.
    pub open spec fn released(self) -> EditorState {
        let done = EditorState { drag: Drag::Idle, ..self };
        match self.drag {
            Drag::Draw => match self.draw {
                Some(m) => EditorState {
                    draw: None,
                    annotations: if worth_keeping(m) {
                        self.annotations.push(m)
                    } else {
                        self.annotations
                    },
                    ..done
                },
                None => done,
            },
            Drag::NewSelection => {
                let sel = geometry::spanned(self.selection.0, self.selection.1);
                if sel.w < MIN_SELECTION || sel.h < MIN_SELECTION {
                    EditorState {
                        selection: self.selection_backup,
                        has_selection: self.had_selection_backup,
                        ..done
                    }
                } else {
                    done
                }
            },
            Drag::ColorWheel => EditorState { show_color_wheel: false, ..done },
            _ => done,
        }
    }

    /// The size of the selection is representable where it is looked at.
    pub open spec fn can_release(self) -> bool {
        self.drag == Drag::NewSelection ==> geometry::span_fits(self.selection.0, self.selection.1)
    }

    // --- keys --------------------------------------------------------------

    /// The last annotation taken back.
    pub open spec fn undone(self) -> EditorState {
        if self.annotations.len() > 0 {
            EditorState { annotations: self.annotations.drop_last(), ..self }
        } else {
            self
        }
    }

    /// All annotations taken back.
    pub open spec fn cleared(self) -> EditorState {
        EditorState { annotations: seq![], ..self }
    }

    /// A letter typed without control.
    pub open spec fn lettered(self, letter: Option<char>) -> EditorState {
        match letter {
            Some('c') => self.with_tool(Tool::Crop),
            Some('r') => self.with_tool(Tool::Rectangle),
            Some('l') => self.with_tool(Tool::Line),
            Some('a') => self.with_tool(Tool::Arrow),
            Some('f') => self.with_tool(Tool::Freehand),
            Some('h') => self.with_tool(Tool::Highlight),
            Some('b') => self.with_tool(Tool::Blur),
            Some('e') => self.cleared(),
            Some('-') => self.adjusted(-(thickness::THICKNESS_STEP as int)),
            Some('_') => self.adjusted(-(thickness::THICKNESS_STEP as int)),
            Some('=') => self.adjusted(thickness::THICKNESS_STEP as int),
            Some('+') => self.adjusted(thickness::THICKNESS_STEP as int),
            _ => self,
        }
    }

    /// A key pressed: the editor that comes of it, and what is asked for.
    pub open spec fn typed(
        self,
        letter: Option<char>,
        ctrl: bool,
        escape: bool,
        enter_or_space: bool,
    ) -> (EditorState, Action) {
        if escape {
            (self, Action::Cancel)
        } else if ctrl {
            if letter == Some('z') {
                (self.undone(), Action::Nothing)
            } else if letter == Some('c') {
                (self, Action::SaveClipboard)
            } else {
                (self, Action::Nothing)
            }
        } else if enter_or_space {
            (self, Action::SaveDisk)
        } else {
            (self.lettered(letter), Action::Nothing)
        }
    }

    /// The thickness turned up or down by the wheel.
    pub open spec fn scrolled(self, up: bool) -> EditorState {
        self.adjusted(
            if up {
                thickness::THICKNESS_STEP as int
            } else {
                -(thickness::THICKNESS_STEP as int)
            },
        )
    }

    // --- what is shown -----------------------------------------------------

    /// A blur is among the marks, finished or not.
    pub open spec fn needs_blur(self) -> bool {
        ||| exists|i: int|
            0 <= i < self.annotations.len() && (#[trigger] self.annotations[i]).tool == Tool::Blur
        ||| self.draw matches Some(m) && m.tool == Tool::Blur
    }

    /// The selected rectangle.
    pub open spec fn selected(self) -> Area {
        geometry::spanned(self.selection.0, self.selection.1)
    }

    /// The rectangles of the selection and of the finished marks are representable.
    pub open spec fn can_save(self) -> bool {
        &&& geometry::span_fits(self.selection.0, self.selection.1)
        &&& forall|i: int|
            0 <= i < self.annotations.len() && (#[trigger] self.annotations[i]).is_boxed()
                ==> geometry::span_fits(self.annotations[i].start, self.annotations[i].end)
    }

    /// All rectangles that are shown are representable.
    pub open spec fn can_paint(self) -> bool {
        &&& self.can_save()
        &&& self.draw matches Some(m) ==> m.is_boxed() ==> geometry::span_fits(m.start, m.end)
    }

    /// The canvas: the screenshot, dimmed outside the selection, with the marks and the border of
    /// the selection on top.
    pub open spec fn scene(self) -> Seq<DrawOp> {
        seq![DrawOp::Screenshot] + (if self.has_selection {
            scene::dim_outside(self.selected(), self.width as int, self.height as int)
        } else {
            scene::dim_full(self.width as int, self.height as int)
        }) + (scene::all_marks(self.annotations, self.scale, self.glass) + scene::current_mark(
            self.draw,
            self.scale,
            self.glass,
        )) + (if self.has_selection {
            scene::selection_border(self.selected(), self.scale)
        } else {
            seq![]
        })
    }

    /// The toolbar and the open popup.
    pub open spec fn chrome(self) -> Seq<DrawOp> {
        chrome::toolbar_ops(
            self.scale,
            self.view@,
            self.tool,
            self.active_color(),
            self.active_thickness(),
        ) + (if self.show_color_wheel {
            chrome::wheel_ops(self.scale, self.view@)
        } else {
            seq![]
        }) + (if self.show_thickness_slider {
            chrome::slider_ops(self.scale, self.view@, self.active_thickness())
        } else {
            seq![]
        })
    }

    /// The saved image: the finished marks on the screenshot, seen from the selection's corner.
    pub open spec fn saved(self) -> Seq<DrawOp> {
        seq![
            DrawOp::Translate { dx: (-self.selected().x) as i64, dy: (-self.selected().y) as i64 },
            DrawOp::Screenshot,
        ] + scene::all_marks(self.annotations, self.scale, self.glass)
    }

    // --- any input ---------------------------------------------------------

    /// The editor after an input.
    #[verifier::opaque]
    pub open spec fn after(self, input: Input) -> EditorState {
        match input {
            Input::Enter(view) => EditorState { view, ..self },
            Input::Press(x, y) => self.pressed(x as int, y as int),
            Input::Motion(x, y) => self.moved(x as int, y as int),
            Input::Release => self.released(),
            Input::Scroll(up) => self.scrolled(up),
            Input::Key(letter, ctrl, escape, enter) => self.typed(letter, ctrl, escape, enter).0,
            Input::Glass(block) => EditorState { glass: Some(block), ..self },
        }
    }

    /// The editor after a row of inputs.
    pub open spec fn after_all(self, inputs: Seq<Input>) -> EditorState
        decreases inputs.len(),
    {
        if inputs.len() == 0 {
            self
        } else {
            self.after_all(inputs.drop_last()).after(inputs.last())
        }
    }

    /// The input can be handed to the editor.
    pub open spec fn accepts(self, input: Input) -> bool {
        match input {
            Input::Press(..) => self.can_press(),
            Input::Motion(x, y) => self.can_move(x as int, y as int),
            Input::Release => self.can_release(),
            _ => true,
        }
    }

    /// The whole canvas.
    pub open spec fn canvas(self) -> Area {
        scene::canvas(self.width as int, self.height as int)
    }

    /// The canvas and the scale are those of `other`.
    pub open spec fn same_setting(self, other: EditorState) -> bool {
        self.width == other.width && self.height == other.height && self.scale == other.scale
    }

    /// Everything lies on the canvas.
    pub open spec fn on_canvas(self) -> bool {
        &&& on_screen(self.view@, self.canvas())
        &&& on_screen(self.draw_bounds@, self.canvas())
        &&& holds(self.canvas(), self.selection.0)
        &&& holds(self.canvas(), self.selection.1)
        &&& holds(self.canvas(), self.selection_backup.0)
        &&& holds(self.canvas(), self.selection_backup.1)
        &&& self.draw matches Some(m) ==> mark_within(m, self.canvas())
        &&& forall|i: int|
            0 <= i < self.annotations.len() ==> mark_within(
                #[trigger] self.annotations[i],
                self.canvas(),
            )
    }

    /// The editor is well formed and on its canvas, and there is room for its chrome.
    #[verifier::opaque]
    pub open spec fn ready(self) -> bool {
        self.wf() && self.on_canvas() && layout::chrome_fits(self.view@, self.scale)
    }
}

/// An output that lies on the canvas.
pub open spec fn on_screen(area: Area, canvas: Area) -> bool {
    usable(area) && area.within(canvas)
}

/// The output of an `Enter` lies on the canvas and has room for the chrome.
pub open spec fn proper(input: Input, canvas: Area, scale: Scale) -> bool {
    input matches Input::Enter(view) ==> on_screen(view@, canvas) && layout::chrome_fits(
        view@,
        scale,
    )
}

} // verus!
