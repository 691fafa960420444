//! The drawing tools and the items of the toolbar.

use vstd::prelude::*;

verus! {

#[derive(Debug, Clone, Copy, PartialEq, Eq, Structural)]
pub enum Tool {
    Crop,
    Rectangle,
    Line,
    Arrow,
    Freehand,
    Highlight,
    Blur,
}

impl Tool {
    /// Whether the tool leaves a mark on the screenshot; only the crop tool does not.
    pub fn is_drawing(self) -> (r: bool)
        ensures
            r == (self != Tool::Crop),
    {
        !matches!(self, Tool::Crop)
    }

    pub fn is_highlight(self) -> (r: bool)
        ensures
            r == (self == Tool::Highlight),
    {
        matches!(self, Tool::Highlight)
    }

    pub fn is_freehand(self) -> (r: bool)
        ensures
            r == (self == Tool::Freehand),
    {
        matches!(self, Tool::Freehand)
    }
}

#[derive(Debug, Clone, Copy, PartialEq, Eq, Structural)]
pub enum ToolbarItem {
    Tool(Tool),
    Clear,
    Color,
    Thickness,
}

/// How many buttons the toolbar has.
pub const TOOLBAR_LEN: usize = 10;

/// The toolbar from left to right.
pub open spec fn toolbar() -> Seq<ToolbarItem> {
    seq![
        ToolbarItem::Tool(Tool::Crop),
        ToolbarItem::Clear,
        ToolbarItem::Tool(Tool::Rectangle),
        ToolbarItem::Tool(Tool::Line),
        ToolbarItem::Tool(Tool::Arrow),
        ToolbarItem::Tool(Tool::Freehand),
        ToolbarItem::Tool(Tool::Highlight),
        ToolbarItem::Tool(Tool::Blur),
        ToolbarItem::Color,
        ToolbarItem::Thickness,
    ]
}

/// The position of an item in the toolbar.
pub open spec fn position(item: ToolbarItem) -> int {
    match item {
        ToolbarItem::Tool(Tool::Crop) => 0,
        ToolbarItem::Clear => 1,
        ToolbarItem::Tool(Tool::Rectangle) => 2,
        ToolbarItem::Tool(Tool::Line) => 3,
        ToolbarItem::Tool(Tool::Arrow) => 4,
        ToolbarItem::Tool(Tool::Freehand) => 5,
        ToolbarItem::Tool(Tool::Highlight) => 6,
        ToolbarItem::Tool(Tool::Blur) => 7,
        ToolbarItem::Color => 8,
        ToolbarItem::Thickness => 9,
    }
}

/// Every item has exactly one button: its position holds it, and no other position does.
pub proof fn lemma_positions(item: ToolbarItem)
    ensures
        0 <= position(item) < TOOLBAR_LEN,
        toolbar().len() == TOOLBAR_LEN,
        toolbar()[position(item)] == item,
        forall|i: int| 0 <= i < TOOLBAR_LEN && #[trigger] toolbar()[i] == item ==> i == position(item),
{
}

/// The toolbar's items from left to right.
pub fn toolbar_items() -> (r: [ToolbarItem; 10])
    ensures
        r@ == toolbar(),
{
    let r = [
        ToolbarItem::Tool(Tool::Crop),
        ToolbarItem::Clear,
        ToolbarItem::Tool(Tool::Rectangle),
        ToolbarItem::Tool(Tool::Line),
        ToolbarItem::Tool(Tool::Arrow),
        ToolbarItem::Tool(Tool::Freehand),
        ToolbarItem::Tool(Tool::Highlight),
        ToolbarItem::Tool(Tool::Blur),
        ToolbarItem::Color,
        ToolbarItem::Thickness,
    ];
    assert(r@ =~= toolbar());
    r
}

} // verus!
