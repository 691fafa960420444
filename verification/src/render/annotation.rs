//! The annotation data model.

use crate::render::color::Color;
use crate::render::geometry;
use crate::render::ratio::Ratio;
use crate::render::tool::Tool;
use vstd::prelude::*;

verus! {

/// A mark on the screenshot. A freehand mark goes through `points`; the others reach from
/// `start` to `end`.
#[derive(Debug)]
pub struct Annotation {
    pub tool: Tool,
    pub start: (i32, i32),
    pub end: (i32, i32),
    pub points: Vec<(i32, i32)>,
    pub color: Color,
    pub thickness: Ratio,
}

/// What an annotation holds.
#[verifier::ext_equal]
pub struct Mark {
    pub tool: Tool,
    pub start: (i32, i32),
    pub end: (i32, i32),
    pub points: Seq<(i32, i32)>,
    pub color: Color,
    pub thickness: Ratio,
}

impl View for Annotation {
    type V = Mark;

    open spec fn view(&self) -> Mark {
        Mark {
            tool: self.tool,
            start: self.start,
            end: self.end,
            points: self.points@,
            color: self.color,
            thickness: self.thickness,
        }
    }
}

impl Clone for Annotation {
    fn clone(&self) -> (r: Annotation)
        ensures
            r@ == self@,
    {
        let mut points: Vec<(i32, i32)> = Vec::new();
        let mut i: usize = 0;
        while i < self.points.len()
            invariant
                0 <= i <= self.points@.len(),
                points@ == self.points@.take(i as int),
            decreases self.points@.len() - i,
        {
            points.push(self.points[i]);
            assert(points@ =~= self.points@.take(i + 1));
            i = i + 1;
        }
        assert(points@ =~= self.points@);
        Annotation {
            tool: self.tool,
            start: self.start,
            end: self.end,
            points,
            color: self.color,
            thickness: self.thickness,
        }
    }
}

impl Mark {
    /// The mark shows the rectangle between its two ends.
    pub open spec fn is_boxed(self) -> bool {
        self.tool == Tool::Rectangle || self.tool == Tool::Highlight || self.tool == Tool::Blur
    }

    /// The mark can be drawn: what is computed from its thickness and its ends is representable.
    pub open spec fn drawable(self) -> bool {
        self.thickness.moderate() && (self.is_boxed() ==> geometry::span_fits(self.start, self.end))
    }
}

/// What the annotations of a list hold.
pub open spec fn marks(annotations: Seq<Annotation>) -> Seq<Mark> {
    annotations.map_values(|a: Annotation| a@)
}

} // verus!
