//! The multiplexer's own view of a tab: a binary tree of splits.

use vstd::prelude::*;

verus! {

pub type PaneId = usize;

pub type TabId = usize;

pub type WindowId = usize;

pub type DomainId = usize;

/// The size of a terminal, in cells and in pixels.
#[derive(Debug, Clone, Copy, PartialEq, Eq)]
pub struct TerminalSize {
    pub rows: usize,
    pub cols: usize,
    pub pixel_width: usize,
    pub pixel_height: usize,
    pub dpi: u32,
}

/// The direction in which a split arranges its two halves.
#[derive(Debug, Clone, Copy, PartialEq, Eq, Structural)]
pub enum SplitDirection {
    Horizontal,
    Vertical,
}

/// A split: how it is arranged, and the sizes of its two halves.
#[derive(Debug, Clone, Copy, PartialEq, Eq)]
pub struct SplitDirectionAndSize {
    pub direction: SplitDirection,
    pub first: TerminalSize,
    pub second: TerminalSize,
}

/// Where the cursor of a pane stands.
#[derive(Debug, Clone, Copy, PartialEq, Eq)]
pub struct StableCursorPosition {
    pub x: usize,
    pub y: isize,
}

/// A pane of a tab.
#[derive(Debug, PartialEq, Eq)]
pub struct PaneEntry {
    pub window_id: WindowId,
    pub tab_id: TabId,
    pub pane_id: PaneId,
    pub title: String,
    pub size: TerminalSize,
    pub working_dir: Option<String>,
    pub is_active_pane: bool,
    pub is_zoomed_pane: bool,
    pub workspace: String,
    pub cursor_pos: StableCursorPosition,
    pub physical_top: isize,
    pub top_row: usize,
    pub left_col: usize,
    pub tty_name: Option<String>,
}

/// A [`PaneEntry`] as a mathematical value.
pub struct EntryView {
    pub window_id: WindowId,
    pub tab_id: TabId,
    pub pane_id: PaneId,
    pub title: Seq<char>,
    pub size: TerminalSize,
    pub working_dir: Option<Seq<char>>,
    pub is_active_pane: bool,
    pub is_zoomed_pane: bool,
    pub workspace: Seq<char>,
    pub cursor_pos: StableCursorPosition,
    pub physical_top: isize,
    pub top_row: usize,
    pub left_col: usize,
    pub tty_name: Option<Seq<char>>,
}

impl View for PaneEntry {
    type V = EntryView;

    open spec fn view(&self) -> EntryView {
        EntryView {
            window_id: self.window_id,
            tab_id: self.tab_id,
            pane_id: self.pane_id,
            title: self.title@,
            size: self.size,
            working_dir: match self.working_dir {
                Some(dir) => Some(dir@),
                None => None,
            },
            is_active_pane: self.is_active_pane,
            is_zoomed_pane: self.is_zoomed_pane,
            workspace: self.workspace@,
            cursor_pos: self.cursor_pos,
            physical_top: self.physical_top,
            top_row: self.top_row,
            left_col: self.left_col,
            tty_name: match self.tty_name {
                Some(name) => Some(name@),
                None => None,
            },
        }
    }
}

/// A tree of splits with panes at its leaves.
#[derive(Debug, PartialEq, Eq)]
pub enum PaneNode {
    Empty,
    Split { left: Box<PaneNode>, right: Box<PaneNode>, node: SplitDirectionAndSize },
    Leaf(PaneEntry),
}

/// A [`PaneNode`] as a mathematical value.
pub enum PaneTree {
    Empty,
    Split { left: Box<PaneTree>, right: Box<PaneTree>, node: SplitDirectionAndSize },
    Leaf(EntryView),
}

impl PaneNode {
    pub open spec fn tree(self) -> PaneTree
        decreases self,
    {
        match self {
            PaneNode::Empty => PaneTree::Empty,
            PaneNode::Split { left, right, node } => PaneTree::Split {
                left: Box::new(left.tree()),
                right: Box::new(right.tree()),
                node,
            },
            PaneNode::Leaf(entry) => PaneTree::Leaf(entry@),
        }
    }
}

impl View for PaneNode {
    type V = PaneTree;

    open spec fn view(&self) -> PaneTree {
        self.tree()
    }
}

/// A rectangle of cells.
pub struct Rect {
    pub left: int,
    pub top: int,
    pub cols: int,
    pub rows: int,
}

/// Where the second half of a split begins, one cell of divider behind the first.
pub open spec fn second_origin(node: SplitDirectionAndSize, left: int, top: int) -> (int, int) {
    match node.direction {
        SplitDirection::Horizontal => (left + node.first.cols + 1, top),
        SplitDirection::Vertical => (left, top + node.first.rows + 1),
    }
}

/// The panes of a tree and the rectangles they are drawn in, with the tree's corner at
/// `left` and `top`.
pub open spec fn drawn(tree: PaneTree, left: int, top: int) -> Seq<(PaneId, Rect)>
    decreases tree,
{
    match tree {
        PaneTree::Empty => Seq::empty(),
        PaneTree::Leaf(entry) => seq![
            (
                entry.pane_id,
                Rect { left, top, cols: entry.size.cols as int, rows: entry.size.rows as int },
            ),
        ],
        PaneTree::Split { left: first, right: second, node } => {
            let (second_left, second_top) = second_origin(node, left, top);
            drawn(*first, left, top) + drawn(*second, second_left, second_top)
        },
    }
}

/// How many splits lie on the way from the root to the last pane.
pub open spec fn right_spine(tree: PaneTree) -> nat
    decreases tree,
{
    match tree {
        PaneTree::Split { right, .. } => 1 + right_spine(*right),
        _ => 0,
    }
}

} // verus!
