//! Conversion of a tmux window layout tree into a binary [`PaneNode`] tree.
//!
//! tmux describes a window as an n-ary tree of layout cells (`{...}` splits its
//! children left-to-right, `[...]` top-to-bottom, and a split may have three or
//! more children). A tab instead uses a *binary* split tree. To mirror a tmux
//! layout faithfully we encode each n-ary tmux split as a right-leaning chain of
//! binary splits:
//!
//! ```text
//! tmux:  { A | B | C }            tab:            H
//!                                                / \
//!                                               A   H
//!                                                  / \
//!                                                 B   C
//! ```
//!
//! Because tmux guarantees that, along the split axis, the children sizes plus
//! the `(n-1)` one-cell dividers sum to the container size, and a tab uses the
//! exact same one-cell divider convention, the rectangles drawn for every pane
//! are identical to tmux's.

use std::collections::HashMap;

use vstd::prelude::*;

use crate::tab::{
    drawn, right_spine, EntryView, PaneEntry, PaneId, PaneNode, PaneTree, Rect, SplitDirection,
    SplitDirectionAndSize, StableCursorPosition, TabId, TerminalSize, WindowId,
};
use crate::tmux_cc::layout::{
    forest_leaves, LayoutTree, TmuxLayoutCell, TmuxLayoutNode, TmuxPaneId, TmuxSplitDirection,
};

verus! {

/// Everything needed to materialize a tmux layout tree into `PaneNode`s, beyond the
/// geometry carried by the layout itself.
pub struct LayoutContext<'a> {
    pub window_id: WindowId,
    pub tab_id: TabId,
    pub workspace: String,
    /// Cell pixel geometry + dpi, used to fill `TerminalSize`. Layout fidelity
    /// only depends on rows/cols; the pixel values are derived consistently.
    pub dpi: u32,
    pub cell_pixel_width: usize,
    pub cell_pixel_height: usize,
    /// The tmux pane id that is active in this window, if known.
    pub active_pane: Option<TmuxPaneId>,
    /// The tmux pane id that is zoomed in this window, if any.
    pub zoomed_pane: Option<TmuxPaneId>,
    /// Maps a tmux pane id to its already-created local pane id. Every
    /// pane present in the layout must have an entry (the caller reconciles the
    /// pane set before building the tree).
    pub local_pane_ids: &'a HashMap<TmuxPaneId, PaneId>,
}

/// A [`LayoutContext`] as a mathematical value.
pub struct ContextView {
    pub window_id: WindowId,
    pub tab_id: TabId,
    pub workspace: Seq<char>,
    pub dpi: u32,
    pub cell_pixel_width: usize,
    pub cell_pixel_height: usize,
    pub active_pane: Option<TmuxPaneId>,
    pub zoomed_pane: Option<TmuxPaneId>,
    pub local_pane_ids: Map<TmuxPaneId, PaneId>,
}

impl<'a> View for LayoutContext<'a> {
    type V = ContextView;

    open spec fn view(&self) -> ContextView {
        ContextView {
            window_id: self.window_id,
            tab_id: self.tab_id,
            workspace: self.workspace@,
            dpi: self.dpi,
            cell_pixel_width: self.cell_pixel_width,
            cell_pixel_height: self.cell_pixel_height,
            active_pane: self.active_pane,
            zoomed_pane: self.zoomed_pane,
            local_pane_ids: self.local_pane_ids@,
        }
    }
}

/// The terminal that fills a cell.
pub open spec fn size_of(ctx: ContextView, cell: TmuxLayoutCell) -> TerminalSize {
    let cols = cell.width as usize;
    let rows = cell.height as usize;
    TerminalSize {
        rows,
        cols,
        pixel_width: (cols * ctx.cell_pixel_width) as usize,
        pixel_height: (rows * ctx.cell_pixel_height) as usize,
        dpi: ctx.dpi,
    }
}

/// The size of one character, in pixels.
#[derive(Debug, Clone, Copy, PartialEq, Eq)]
pub struct CellPixels {
    pub width: usize,
    pub height: usize,
}

/// The size of one character in a context.
pub open spec fn pixels(ctx: ContextView) -> CellPixels {
    CellPixels { width: ctx.cell_pixel_width, height: ctx.cell_pixel_height }
}

/// Whether the pixel sizes of a cell can be held.
pub open spec fn size_fits(pixels: CellPixels, cell: TmuxLayoutCell) -> bool {
    &&& (cell.width as usize) * pixels.width <= usize::MAX
    &&& (cell.height as usize) * pixels.height <= usize::MAX
}

/// The local pane of a tmux pane; its own id where it is not mapped.
pub open spec fn local_id(ctx: ContextView, pane_id: TmuxPaneId) -> PaneId {
    if ctx.local_pane_ids.dom().contains(pane_id) {
        ctx.local_pane_ids[pane_id]
    } else {
        pane_id as PaneId
    }
}

/// The pane in a cell.
pub open spec fn entry_of(
    ctx: ContextView,
    cell: TmuxLayoutCell,
    pane_id: TmuxPaneId,
) -> EntryView {
    EntryView {
        window_id: ctx.window_id,
        tab_id: ctx.tab_id,
        pane_id: local_id(ctx, pane_id),
        title: Seq::empty(),
        size: size_of(ctx, cell),
        working_dir: None,
        is_active_pane: ctx.active_pane == Some(pane_id),
        is_zoomed_pane: ctx.zoomed_pane == Some(pane_id),
        workspace: ctx.workspace,
        cursor_pos: StableCursorPosition { x: 0, y: 0 },
        physical_top: 0,
        top_row: 0,
        left_col: 0,
        tty_name: None,
    }
}

/// The direction of a tmux split.
pub open spec fn direction_of(direction: TmuxSplitDirection) -> SplitDirection {
    match direction {
        TmuxSplitDirection::Horizontal => SplitDirection::Horizontal,
        TmuxSplitDirection::Vertical => SplitDirection::Vertical,
    }
}

/// `a - b`, but not below zero.
pub open spec fn less(a: u64, b: int) -> u64 {
    if a >= b {
        (a - b) as u64
    } else {
        0
    }
}

/// The bounding cell of everything past the head of a split.
pub open spec fn tail_of(
    direction: TmuxSplitDirection,
    container: TmuxLayoutCell,
    head: TmuxLayoutCell,
) -> TmuxLayoutCell {
    match direction {
        TmuxSplitDirection::Horizontal => TmuxLayoutCell {
            left: (head.left + head.width + 1) as u64,
            top: container.top,
            width: less(container.width, head.width + 1),
            height: container.height,
        },
        TmuxSplitDirection::Vertical => TmuxLayoutCell {
            left: container.left,
            top: (head.top + head.height + 1) as u64,
            width: container.width,
            height: less(container.height, head.height + 1),
        },
    }
}

/// Whether the position past the head of a split can be held.
pub open spec fn tail_fits(direction: TmuxSplitDirection, head: TmuxLayoutCell) -> bool {
    match direction {
        TmuxSplitDirection::Horizontal => head.left + head.width + 1 <= u64::MAX,
        TmuxSplitDirection::Vertical => head.top + head.height + 1 <= u64::MAX,
    }
}

/// The right-leaning chain of binary splits for the children of a split.
pub open spec fn chain_of(
    direction: TmuxSplitDirection,
    container: TmuxLayoutCell,
    children: Seq<LayoutTree>,
    ctx: ContextView,
) -> PaneTree
    decreases children,
{
    if children.len() == 0 {
        PaneTree::Empty
    } else if children.len() == 1 {
        node_of(children[0], ctx)
    } else {
        let head = children[0].cell();
        let tail = tail_of(direction, container, head);
        PaneTree::Split {
            left: Box::new(node_of(children[0], ctx)),
            right: Box::new(
                chain_of(direction, tail, children.subrange(1, children.len() as int), ctx),
            ),
            node: SplitDirectionAndSize {
                direction: direction_of(direction),
                first: size_of(ctx, head),
                second: size_of(ctx, tail),
            },
        }
    }
}

/// The binary tree for a tmux layout tree.
pub open spec fn node_of(tree: LayoutTree, ctx: ContextView) -> PaneTree
    decreases tree,
{
    match tree {
        LayoutTree::Leaf { cell, pane_id } => PaneTree::Leaf(entry_of(ctx, cell, pane_id)),
        LayoutTree::Split { cell, direction, children } => chain_of(direction, cell, children, ctx),
    }
}

/// Whether all positions and sizes in the chain for a split can be held.
pub open spec fn chain_fits(
    direction: TmuxSplitDirection,
    container: TmuxLayoutCell,
    children: Seq<LayoutTree>,
    pixels: CellPixels,
) -> bool
    decreases children,
{
    if children.len() == 0 {
        true
    } else if children.len() == 1 {
        fits(children[0], pixels)
    } else {
        let head = children[0].cell();
        let tail = tail_of(direction, container, head);
        &&& tail_fits(direction, head)
        &&& size_fits(pixels, head)
        &&& size_fits(pixels, tail)
        &&& fits(children[0], pixels)
        &&& chain_fits(direction, tail, children.subrange(1, children.len() as int), pixels)
    }
}

/// Whether all positions and sizes in the binary tree for a layout can be held.
pub open spec fn fits(tree: LayoutTree, pixels: CellPixels) -> bool
    decreases tree,
{
    match tree {
        LayoutTree::Leaf { cell, .. } => size_fits(pixels, cell),
        LayoutTree::Split { cell, direction, children } => chain_fits(
            direction,
            cell,
            children,
            pixels,
        ),
    }
}

/// Whether all positions and sizes of a window with a layout can be held.
pub open spec fn window_fits(tree: LayoutTree, pixels: CellPixels) -> bool {
    size_fits(pixels, tree.cell()) && fits(tree, pixels)
}

impl<'a> LayoutContext<'a> {
    /// The terminal that fills a cell.
    pub fn terminal_size(&self, cell: &TmuxLayoutCell) -> (r: TerminalSize)
        requires
            size_fits(pixels(self@), *cell),
        ensures
            r == size_of(self@, *cell),
    {
        let cols = cell.width as usize;
        let rows = cell.height as usize;
        TerminalSize {
            rows,
            cols,
            pixel_width: cols * self.cell_pixel_width,
            pixel_height: rows * self.cell_pixel_height,
            dpi: self.dpi,
        }
    }

    fn leaf(&self, cell: &TmuxLayoutCell, tmux_pane_id: TmuxPaneId) -> (r: PaneEntry)
        requires
            size_fits(pixels(self@), *cell),
        ensures
            r@ == entry_of(self@, *cell, tmux_pane_id),
    {
        broadcast use vstd::std_specs::hash::group_hash_axioms;

        // Fall back to the tmux id only if the caller failed to reconcile;
        // in practice every pane is mapped before we get here.
        let pane_id = match self.local_pane_ids.get(&tmux_pane_id) {
            Some(id) => *id,
            None => tmux_pane_id as PaneId,
        };
        let r = PaneEntry {
            window_id: self.window_id,
            tab_id: self.tab_id,
            pane_id,
            title: String::new(),
            size: self.terminal_size(cell),
            working_dir: None,
            is_active_pane: self.active_pane == Some(tmux_pane_id),
            is_zoomed_pane: self.zoomed_pane == Some(tmux_pane_id),
            workspace: self.workspace.clone(),
            cursor_pos: StableCursorPosition { x: 0, y: 0 },
            physical_top: 0,
            top_row: 0,
            left_col: 0,
            tty_name: None,
        };
        assert(r@.title == Seq::<char>::empty());
        r
    }
}

fn map_direction(direction: TmuxSplitDirection) -> (r: SplitDirection)
    ensures
        r == direction_of(direction),
{
    match direction {
        TmuxSplitDirection::Horizontal => SplitDirection::Horizontal,
        TmuxSplitDirection::Vertical => SplitDirection::Vertical,
    }
}

/// The bounding cell of `children[1..]` (everything past the head), derived from
/// the container and the head along the split axis.
fn tail_container(
    direction: TmuxSplitDirection,
    container: &TmuxLayoutCell,
    head: &TmuxLayoutCell,
) -> (r: TmuxLayoutCell)
    requires
        tail_fits(direction, *head),
    ensures
        r == tail_of(direction, *container, *head),
{
    match direction {
        TmuxSplitDirection::Horizontal => TmuxLayoutCell {
            left: head.left + head.width + 1,
            top: container.top,
            width: container.width.saturating_sub(head.width + 1),
            height: container.height,
        },
        TmuxSplitDirection::Vertical => TmuxLayoutCell {
            left: container.left,
            top: head.top + head.height + 1,
            width: container.width,
            height: container.height.saturating_sub(head.height + 1),
        },
    }
}

/// The chain for `children[from..]`.
fn build_split_chain(
    direction: TmuxSplitDirection,
    container: &TmuxLayoutCell,
    children: &Vec<TmuxLayoutNode>,
    from: usize,
    Ghost(trees): Ghost<Seq<LayoutTree>>,
    ctx: &LayoutContext,
) -> (r: PaneNode)
    requires
        from <= children@.len(),
        trees.len() == children@.len(),
        forall|i: int| 0 <= i < trees.len() ==> #[trigger] trees[i] == children@[i]@,
        chain_fits(
            direction,
            *container,
            trees.subrange(from as int, trees.len() as int),
            pixels(ctx@),
        ),
    ensures
        r@ == chain_of(
            direction,
            *container,
            trees.subrange(from as int, trees.len() as int),
            ctx@,
        ),
    decreases children, children@.len() - from,
{
    let ghost rest = trees.subrange(from as int, trees.len() as int);
    if from == children.len() {
        return PaneNode::Empty;
    }
    assert(rest[0] == children@[from as int]@);
    if from + 1 == children.len() {
        return build_pane_node(&children[from], ctx);
    }
    let head_cell = children[from].cell();
    let tail = tail_container(direction, container, &head_cell);
    assert(rest.subrange(1, rest.len() as int) == trees.subrange(from + 1, trees.len() as int));
    PaneNode::Split {
        left: Box::new(build_pane_node(&children[from], ctx)),
        right: Box::new(
            build_split_chain(direction, &tail, children, from + 1, Ghost(trees), ctx),
        ),
        node: SplitDirectionAndSize {
            direction: map_direction(direction),
            first: ctx.terminal_size(&head_cell),
            second: ctx.terminal_size(&tail),
        },
    }
}

/// Converts a faithful tmux layout tree into a `PaneNode` whose drawn
/// pane rectangles match tmux exactly.
pub fn build_pane_node(layout: &TmuxLayoutNode, ctx: &LayoutContext) -> (r: PaneNode)
    requires
        fits(layout@, pixels(ctx@)),
    ensures
        r@ == node_of(layout@, ctx@),
    decreases layout, 0nat,
{
    match layout {
        TmuxLayoutNode::Leaf { cell, pane_id } => PaneNode::Leaf(ctx.leaf(cell, *pane_id)),
        TmuxLayoutNode::Split { cell, direction, children } => {
            let ghost trees = layout@->children;
            assert(trees.subrange(0, trees.len() as int) == trees);
            build_split_chain(*direction, cell, children, 0, Ghost(trees), ctx)
        },
    }
}

fn check_size(cell: &TmuxLayoutCell, pixels: CellPixels) -> (r: bool)
    ensures
        r == size_fits(pixels, *cell),
{
    (cell.width as usize).checked_mul(pixels.width).is_some() && (
    cell.height as usize).checked_mul(pixels.height).is_some()
}

fn check_tail(direction: TmuxSplitDirection, head: &TmuxLayoutCell) -> (r: bool)
    ensures
        r == tail_fits(direction, *head),
{
    let (at, len) = match direction {
        TmuxSplitDirection::Horizontal => (head.left, head.width),
        TmuxSplitDirection::Vertical => (head.top, head.height),
    };
    len < u64::MAX && at <= u64::MAX - len - 1
}

fn check_chain(
    direction: TmuxSplitDirection,
    container: &TmuxLayoutCell,
    children: &Vec<TmuxLayoutNode>,
    from: usize,
    Ghost(trees): Ghost<Seq<LayoutTree>>,
    pixels: CellPixels,
) -> (r: bool)
    requires
        from <= children@.len(),
        trees.len() == children@.len(),
        forall|i: int| 0 <= i < trees.len() ==> #[trigger] trees[i] == children@[i]@,
    ensures
        r == chain_fits(
            direction,
            *container,
            trees.subrange(from as int, trees.len() as int),
            pixels,
        ),
    decreases children, children@.len() - from,
{
    let ghost rest = trees.subrange(from as int, trees.len() as int);
    if from == children.len() {
        return true;
    }
    assert(rest[0] == children@[from as int]@);
    if from + 1 == children.len() {
        return check_node(&children[from], pixels);
    }
    let head_cell = children[from].cell();
    if !check_tail(direction, &head_cell) {
        return false;
    }
    let tail = tail_container(direction, container, &head_cell);
    assert(rest.subrange(1, rest.len() as int) == trees.subrange(from + 1, trees.len() as int));
    check_size(&head_cell, pixels) && check_size(&tail, pixels) && check_node(
        &children[from],
        pixels,
    )
        && check_chain(direction, &tail, children, from + 1, Ghost(trees), pixels)
}

fn check_node(layout: &TmuxLayoutNode, pixels: CellPixels) -> (r: bool)
    ensures
        r == fits(layout@, pixels),
    decreases layout, 0nat,
{
    match layout {
        TmuxLayoutNode::Leaf { cell, .. } => check_size(cell, pixels),
        TmuxLayoutNode::Split { cell, direction, children } => {
            let ghost trees = layout@->children;
            assert(trees.subrange(0, trees.len() as int) == trees);
            check_chain(*direction, cell, children, 0, Ghost(trees), pixels)
        },
    }
}

/// Whether all positions and sizes of a window with this layout can be held, so that
/// [`build_pane_node`] can build its tree.
pub fn layout_fits(layout: &TmuxLayoutNode, pixels: CellPixels) -> (r: bool)
    ensures
        r == window_fits(layout@, pixels),
{
    let cell = layout.cell();
    check_size(&cell, pixels) && check_node(layout, pixels)
}

// ---------------------------------------------------------------------------
// Laws
// ---------------------------------------------------------------------------

/// The size of a cell along a split's axis.
pub open spec fn along(direction: TmuxSplitDirection, cell: TmuxLayoutCell) -> int {
    match direction {
        TmuxSplitDirection::Horizontal => cell.width as int,
        TmuxSplitDirection::Vertical => cell.height as int,
    }
}

/// Whether a cell stands at a split's corner, as wide as the split across its axis.
pub open spec fn at_corner(
    direction: TmuxSplitDirection,
    container: TmuxLayoutCell,
    cell: TmuxLayoutCell,
) -> bool {
    &&& cell.left == container.left
    &&& cell.top == container.top
    &&& match direction {
        TmuxSplitDirection::Horizontal => cell.height == container.height,
        TmuxSplitDirection::Vertical => cell.width == container.width,
    }
}

/// tmux's promise about the children of a split: they stand one behind the other along the
/// axis, one cell of divider between them, and together fill the split.
pub open spec fn fills(
    direction: TmuxSplitDirection,
    container: TmuxLayoutCell,
    children: Seq<LayoutTree>,
) -> bool
    decreases children.len(),
{
    if children.len() == 0 {
        false
    } else {
        let head = children[0].cell();
        &&& at_corner(direction, container, head)
        &&& if children.len() == 1 {
            head == container
        } else {
            &&& tail_fits(direction, head)
            &&& along(direction, head) + 1 <= along(direction, container)
            &&& fills(
                direction,
                tail_of(direction, container, head),
                children.subrange(1, children.len() as int),
            )
        }
    }
}

/// tmux's promise about a layout: it holds for every split in it.
pub open spec fn is_filled(tree: LayoutTree) -> bool
    decreases tree,
{
    match tree {
        LayoutTree::Leaf { .. } => true,
        LayoutTree::Split { cell, direction, children } => {
            &&& fills(direction, cell, children)
            &&& forall|i: int|
                #![trigger children[i]]
                0 <= i < children.len() ==> is_filled(children[i])
        },
    }
}

/// The sizes along the axis and the dividers between them.
pub open spec fn total(direction: TmuxSplitDirection, children: Seq<LayoutTree>) -> int
    decreases children.len(),
{
    if children.len() == 0 {
        0
    } else if children.len() == 1 {
        along(direction, children[0].cell())
    } else {
        along(direction, children[0].cell()) + 1 + total(
            direction,
            children.subrange(1, children.len() as int),
        )
    }
}

/// Where children fill a split, their sizes and the dividers sum to the split's size, and
/// so do those of the children past the head for the cell that is derived for them.
pub proof fn law_sizes_and_dividers_sum_up(
    direction: TmuxSplitDirection,
    container: TmuxLayoutCell,
    children: Seq<LayoutTree>,
)
    requires
        fills(direction, container, children),
    ensures
        total(direction, children) == along(direction, container),
        children.len() > 1 ==> {
            let tail = tail_of(direction, container, children[0].cell());
            let rest = children.subrange(1, children.len() as int);
            &&& fills(direction, tail, rest)
            &&& total(direction, rest) == along(direction, tail)
            &&& rest[0].cell().left == tail.left
            &&& rest[0].cell().top == tail.top
        },
    decreases children.len(),
{
    if children.len() > 1 {
        let tail = tail_of(direction, container, children[0].cell());
        law_sizes_and_dividers_sum_up(
            direction,
            tail,
            children.subrange(1, children.len() as int),
        );
    }
}

/// The panes of a layout and the rectangles that tmux gives them.
pub open spec fn tmux_rects(
    leaves: Seq<(TmuxPaneId, TmuxLayoutCell)>,
    ctx: ContextView,
) -> Seq<(PaneId, Rect)> {
    leaves.map_values(
        |leaf: (TmuxPaneId, TmuxLayoutCell)|
            (
                local_id(ctx, leaf.0),
                Rect {
                    left: leaf.1.left as int,
                    top: leaf.1.top as int,
                    cols: leaf.1.width as int,
                    rows: leaf.1.height as int,
                },
            ),
    )
}

/// Whether the sizes of a cell are sizes of a terminal.
pub open spec fn is_terminal(cell: TmuxLayoutCell) -> bool {
    cell.width <= usize::MAX && cell.height <= usize::MAX
}

/// Whether the sizes of all cells of a layout are sizes of a terminal.
pub open spec fn is_terminals(tree: LayoutTree) -> bool
    decreases tree,
{
    match tree {
        LayoutTree::Leaf { cell, .. } => is_terminal(cell),
        LayoutTree::Split { cell, children, .. } => is_terminal(cell) && forall|i: int|
            #![trigger children[i]]
            0 <= i < children.len() ==> is_terminals(children[i]),
    }
}

proof fn lemma_chain_is_faithful(
    direction: TmuxSplitDirection,
    container: TmuxLayoutCell,
    children: Seq<LayoutTree>,
    ctx: ContextView,
)
    requires
        fills(direction, container, children),
        forall|i: int|
            #![trigger children[i]]
            0 <= i < children.len() ==> is_filled(children[i]) && is_terminals(children[i]),
    ensures
        drawn(
            chain_of(direction, container, children, ctx),
            container.left as int,
            container.top as int,
        ) == tmux_rects(forest_leaves(children), ctx),
    decreases children,
{
    let head = children[0];
    let rest = children.subrange(1, children.len() as int);
    law_layout_is_drawn_faithfully(head, ctx);
    assert(forest_leaves(children) == head.leaves() + forest_leaves(rest));
    assert(tmux_rects(forest_leaves(children), ctx) == tmux_rects(head.leaves(), ctx) + tmux_rects(
        forest_leaves(rest),
        ctx,
    ));
    if children.len() == 1 {
        assert(forest_leaves(rest) == Seq::<(TmuxPaneId, TmuxLayoutCell)>::empty());
        assert(tmux_rects(forest_leaves(children), ctx) == tmux_rects(head.leaves(), ctx));
    } else {
        let tail = tail_of(direction, container, head.cell());
        assert forall|i: int| #![trigger rest[i]] 0 <= i < rest.len() implies is_filled(rest[i])
            && is_terminals(rest[i]) by {
            assert(rest[i] == children[i + 1]);
        }
        lemma_chain_is_faithful(direction, tail, rest, ctx);
        assert(is_terminal(head.cell()));
    }
}

/// For every layout that keeps tmux's promise, the tab draws each pane in exactly the
/// rectangle that tmux gives it.
pub proof fn law_layout_is_drawn_faithfully(tree: LayoutTree, ctx: ContextView)
    requires
        is_filled(tree),
        is_terminals(tree),
    ensures
        drawn(node_of(tree, ctx), tree.cell().left as int, tree.cell().top as int) == tmux_rects(
            tree.leaves(),
            ctx,
        ),
    decreases tree,
{
    match tree {
        LayoutTree::Leaf { cell, pane_id } => {
            let leaf = tree.leaves();
            assert(drawn(node_of(tree, ctx), cell.left as int, cell.top as int) == tmux_rects(
                leaf,
                ctx,
            ));
        },
        LayoutTree::Split { cell, direction, children } => {
            lemma_chain_is_faithful(direction, cell, children, ctx);
        },
    }
}

/// A split with n children becomes a chain of n - 1 binary splits that leans to the right:
/// behind them comes what the last child becomes.
pub proof fn law_chain_leans_right(
    direction: TmuxSplitDirection,
    container: TmuxLayoutCell,
    children: Seq<LayoutTree>,
    ctx: ContextView,
)
    requires
        children.len() > 0,
    ensures
        right_spine(chain_of(direction, container, children, ctx)) == children.len() - 1
            + right_spine(node_of(children.last(), ctx)),
    decreases children.len(),
{
    if children.len() > 1 {
        let tail = tail_of(direction, container, children[0].cell());
        law_chain_leans_right(direction, tail, children.subrange(1, children.len() as int), ctx);
    }
}

} // verus!
