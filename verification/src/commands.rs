//! Draw commands: the output of the layout engine and the input of the
//! renderer. A command is one of a border around a rectangle, a line of
//! styled text spanning a column range of one row, or a horizontal divider
//! rule. Commands are produced fresh on every render tick and carry no
//! identity beyond it.
//!
//! Contracts speak of commands through `CmdView`, the ghost image of a
//! command in which text is a sequence of characters and coordinates are
//! unbounded integers.

use vstd::prelude::*;

use crate::geometry::Rect;

verus! {

/// Horizontal placement of a text fragment within its row.
#[derive(Clone, Copy, PartialEq, Eq, Structural, Debug)]
pub enum Alignment {
    Left,
    Center,
    Right,
}

/// Fixed colour/emphasis roles; the renderer maps each role to a concrete
/// style once, so the layout engine never speaks of colours.
#[derive(Clone, Copy, PartialEq, Eq, Structural, Debug)]
pub enum StyleRole {
    Frame,
    Title,
    Tag,
    Subtitle,
    Rule,
    Footer,
}

/// One drawing instruction for the renderer.
#[derive(Debug, PartialEq)]
pub enum DrawCommand {
    /// Draw a border around the rectangle.
    Border(Rect),
    /// Draw `content` on row `row`, aligned within columns `x .. x + width`.
    Text { row: u16, x: u16, width: u16, content: String, align: Alignment, style: StyleRole },
    /// Draw a full-width horizontal rule on row `row`.
    Divider { row: u16, x: u16, width: u16 },
}

/// The ghost image of a `DrawCommand`.
pub enum CmdView {
    Border(Rect),
    Text { row: int, x: int, width: int, content: Seq<char>, align: Alignment, style: StyleRole },
    Divider { row: int, x: int, width: int },
}

impl View for DrawCommand {
    type V = CmdView;

    open spec fn view(&self) -> CmdView {
        match self {
            DrawCommand::Border(r) => CmdView::Border(*r),
            DrawCommand::Text { row, x, width, content, align, style } => CmdView::Text {
                row: *row as int,
                x: *x as int,
                width: *width as int,
                content: content@,
                align: *align,
                style: *style,
            },
            DrawCommand::Divider { row, x, width } => CmdView::Divider {
                row: *row as int,
                x: *x as int,
                width: *width as int,
            },
        }
    }
}

/// The ghost image of a command list.
pub open spec fn cmds_view(s: Seq<DrawCommand>) -> Seq<CmdView> {
    s.map_values(|c: DrawCommand| c@)
}

impl CmdView {
    /// The row a command draws on (for a border, its first row).
    pub open spec fn display_row(self) -> int {
        match self {
            CmdView::Border(r) => r.y as int,
            CmdView::Text { row, .. } => row,
            CmdView::Divider { row, .. } => row,
        }
    }

    /// The first column a command draws on.
    pub open spec fn display_col(self) -> int {
        match self {
            CmdView::Border(r) => r.x as int,
            CmdView::Text { x, .. } => x,
            CmdView::Divider { x, .. } => x,
        }
    }

    pub open spec fn is_border(self) -> bool {
        self is Border
    }

    pub open spec fn is_text(self) -> bool {
        self is Text
    }

    pub open spec fn is_divider(self) -> bool {
        self is Divider
    }
}

/// Mapping a push distributes into the view.
pub proof fn lemma_cmds_view_push(s: Seq<DrawCommand>, c: DrawCommand)
    ensures
        cmds_view(s.push(c)) == cmds_view(s).push(c@),
{
    assert(cmds_view(s.push(c)) =~= cmds_view(s).push(c@));
}

/// Mapping a concatenation distributes into the view.
pub proof fn lemma_cmds_view_add(a: Seq<DrawCommand>, b: Seq<DrawCommand>)
    ensures
        cmds_view(a + b) == cmds_view(a) + cmds_view(b),
{
    assert(cmds_view(a + b) =~= cmds_view(a) + cmds_view(b));
}

} // verus!
