//! What the tree of panes that shows a layout looks like.

use vstd::prelude::*;

use crate::tab::{EntryView, PaneId, PaneTree, SplitDirection, StableCursorPosition};
use crate::tmux_cc::layout::{
    forest_leaves, LayoutTree, TmuxLayoutCell, TmuxPaneId, TmuxSplitDirection,
};
use crate::tmux_layout::{
    chain_fits, chain_of, fills, is_filled, is_terminal, is_terminals, node_of, pixels, size_fits,
    size_of, tail_of, window_fits, CellPixels, ContextView,
};

verus! {

/// The leaves of a tree of panes, from left to right and from top to bottom.
pub open spec fn entries(tree: PaneTree) -> Seq<EntryView>
    decreases tree,
{
    match tree {
        PaneTree::Empty => Seq::empty(),
        PaneTree::Leaf(entry) => seq![entry],
        PaneTree::Split { left, right, .. } => entries(*left) + entries(*right),
    }
}

/// Whether an entry shows the pane of a leaf: the local pane that stands for it, as wide and as
/// high as its cell, active or zoomed if tmux has it so, in the window and the tab it is for.
pub open spec fn shows(
    entry: EntryView,
    pane: TmuxPaneId,
    cell: TmuxLayoutCell,
    ctx: ContextView,
) -> bool {
    &&& ctx.local_pane_ids.dom().contains(pane) ==> entry.pane_id == ctx.local_pane_ids[pane]
    &&& !ctx.local_pane_ids.dom().contains(pane) ==> entry.pane_id == pane as PaneId
    &&& entry.size.cols == cell.width as usize
    &&& entry.size.rows == cell.height as usize
    &&& entry.size == size_of(ctx, cell)
    &&& entry.size.dpi == ctx.dpi
    &&& entry.is_active_pane <==> ctx.active_pane == Some(pane)
    &&& entry.is_zoomed_pane <==> ctx.zoomed_pane == Some(pane)
    &&& entry.window_id == ctx.window_id
    &&& entry.tab_id == ctx.tab_id
    &&& entry.workspace == ctx.workspace
    &&& entry.title.len() == 0
    &&& entry.working_dir is None
    &&& entry.tty_name is None
    &&& entry.cursor_pos == (StableCursorPosition { x: 0, y: 0 })
    &&& entry.physical_top == 0
    &&& entry.top_row == 0
    &&& entry.left_col == 0
}

/// The tree holds one entry for each leaf of the layout, in the same order, and each shows its
/// leaf's pane.
pub proof fn law_tree_shows_each_pane(tree: LayoutTree, ctx: ContextView)
    ensures
        entries(node_of(tree, ctx)).len() == tree.leaves().len(),
        forall|i: int|
            0 <= i < tree.leaves().len() ==> shows(
                #[trigger] entries(node_of(tree, ctx))[i],
                tree.leaves()[i].0,
                tree.leaves()[i].1,
                ctx,
            ),
    decreases tree,
{
    if let LayoutTree::Split { cell, direction, children } = tree {
        lemma_chain_shows_each_pane(direction, cell, children, ctx);
    }
}

proof fn lemma_chain_shows_each_pane(
    direction: TmuxSplitDirection,
    container: TmuxLayoutCell,
    children: Seq<LayoutTree>,
    ctx: ContextView,
)
    ensures
        ({
            let all = entries(chain_of(direction, container, children, ctx));
            let leaves = forest_leaves(children);
            &&& all.len() == leaves.len()
            &&& forall|i: int|
                0 <= i < leaves.len() ==> shows(#[trigger] all[i], leaves[i].0, leaves[i].1, ctx)
        }),
    decreases children,
{
    if children.len() > 0 {
        let head = children[0];
        let rest = children.subrange(1, children.len() as int);
        law_tree_shows_each_pane(head, ctx);
        let front = entries(node_of(head, ctx));
        let all = entries(chain_of(direction, container, children, ctx));
        let leaves = forest_leaves(children);
        assert(leaves == head.leaves() + forest_leaves(rest));
        if children.len() == 1 {
            assert(forest_leaves(rest).len() == 0);
            assert(leaves == head.leaves());
        } else {
            let tail = tail_of(direction, container, head.cell());
            lemma_chain_shows_each_pane(direction, tail, rest, ctx);
            let back = entries(chain_of(direction, tail, rest, ctx));
            assert(all == front + back);
            assert forall|i: int| 0 <= i < leaves.len() implies shows(
                #[trigger] all[i],
                leaves[i].0,
                leaves[i].1,
                ctx,
            ) by {
                if i < front.len() {
                    assert(all[i] == front[i]);
                } else {
                    assert(all[i] == back[i - front.len()]);
                }
            }
        }
    }
}

/// The columns and rows that a tree takes up: those of its leaves, and one more for each divider
/// between two sides.
pub open spec fn extent(tree: PaneTree) -> (int, int)
    decreases tree,
{
    match tree {
        PaneTree::Empty => (0, 0),
        PaneTree::Leaf(entry) => (entry.size.cols as int, entry.size.rows as int),
        PaneTree::Split { left, right, node } => match node.direction {
            SplitDirection::Horizontal => (
                extent(*left).0 + 1 + extent(*right).0,
                extent(*left).1,
            ),
            SplitDirection::Vertical => (extent(*left).0, extent(*left).1 + 1 + extent(*right).1),
        },
    }
}

/// Whether each split of the tree gives its two sides the sizes that they take up, and the sides
/// fit each other across the split.
pub open spec fn is_well_sized(tree: PaneTree) -> bool
    decreases tree,
{
    match tree {
        PaneTree::Split { left, right, node } => {
            &&& (node.first.cols as int, node.first.rows as int) == extent(*left)
            &&& (node.second.cols as int, node.second.rows as int) == extent(*right)
            &&& match node.direction {
                SplitDirection::Horizontal => extent(*left).1 == extent(*right).1,
                SplitDirection::Vertical => extent(*left).0 == extent(*right).0,
            }
            &&& is_well_sized(*left)
            &&& is_well_sized(*right)
        },
        _ => true,
    }
}

/// For every layout that keeps tmux's promise, the splits of the tree give each side its size,
/// and the tree takes up the cell of the layout.
pub proof fn law_splits_give_their_sides_their_sizes(tree: LayoutTree, ctx: ContextView)
    requires
        is_filled(tree),
        is_terminals(tree),
    ensures
        is_well_sized(node_of(tree, ctx)),
        extent(node_of(tree, ctx)) == (tree.cell().width as int, tree.cell().height as int),
    decreases tree,
{
    if let LayoutTree::Split { cell, direction, children } = tree {
        lemma_chain_is_well_sized(direction, cell, children, ctx);
    }
}

proof fn lemma_chain_is_well_sized(
    direction: TmuxSplitDirection,
    container: TmuxLayoutCell,
    children: Seq<LayoutTree>,
    ctx: ContextView,
)
    requires
        is_terminal(container),
        fills(direction, container, children),
        forall|i: int|
            #![trigger children[i]]
            0 <= i < children.len() ==> is_filled(children[i]) && is_terminals(children[i]),
    ensures
        is_well_sized(chain_of(direction, container, children, ctx)),
        extent(chain_of(direction, container, children, ctx)) == (
            container.width as int,
            container.height as int,
        ),
    decreases children,
{
    let head = children[0];
    law_splits_give_their_sides_their_sizes(head, ctx);
    if children.len() > 1 {
        let rest = children.subrange(1, children.len() as int);
        let tail = tail_of(direction, container, head.cell());
        assert forall|i: int| #![trigger rest[i]] 0 <= i < rest.len() implies is_filled(rest[i])
            && is_terminals(rest[i]) by {
            assert(rest[i] == children[i + 1]);
        }
        assert(is_terminal(tail));
        lemma_chain_is_well_sized(direction, tail, rest, ctx);
        assert(is_terminal(head.cell()));
        assert(head.cell().height == container.height || direction
            == TmuxSplitDirection::Vertical);
    }
}

/// The direction of the split at the top of a tree is that of the layout: side by side for
/// children from left to right, one above the other for children from top to bottom.
pub proof fn law_split_keeps_its_direction(
    cell: TmuxLayoutCell,
    direction: TmuxSplitDirection,
    children: Seq<LayoutTree>,
    ctx: ContextView,
)
    requires
        children.len() > 1,
    ensures
        node_of(LayoutTree::Split { cell, direction, children }, ctx) matches PaneTree::Split {
            left,
            node,
            ..
        } && *left == node_of(children[0], ctx) && (node.direction == SplitDirection::Horizontal
            <==> direction == TmuxSplitDirection::Horizontal),
{
}

/// Sizes in pixels follow those in cells: as many cells, each as large as a cell is.
pub proof fn law_pixels_follow_cells(ctx: ContextView, cell: TmuxLayoutCell)
    requires
        size_fits(pixels(ctx), cell),
        is_terminal(cell),
    ensures
        ({
            let size = size_of(ctx, cell);
            &&& size.cols == cell.width
            &&& size.rows == cell.height
            &&& size.pixel_width == cell.width * ctx.cell_pixel_width
            &&& size.pixel_height == cell.height * ctx.cell_pixel_height
            &&& size.dpi == ctx.dpi
        }),
{
    assert(0 <= cell.width * ctx.cell_pixel_width) by (nonlinear_arith)
        requires
            cell.width >= 0,
            ctx.cell_pixel_width >= 0,
    ;
    assert(0 <= cell.height * ctx.cell_pixel_height) by (nonlinear_arith)
        requires
            cell.height >= 0,
            ctx.cell_pixel_height >= 0,
    ;
}

proof fn lemma_smaller_cell_fits(p: CellPixels, small: TmuxLayoutCell, large: TmuxLayoutCell)
    requires
        small.width <= large.width <= usize::MAX,
        small.height <= large.height <= usize::MAX,
        large.width * p.width <= usize::MAX,
        large.height * p.height <= usize::MAX,
    ensures
        small.width * p.width <= usize::MAX,
        small.height * p.height <= usize::MAX,
        size_fits(p, small),
{
    assert(small.width * p.width <= large.width * p.width) by (nonlinear_arith)
        requires
            small.width <= large.width,
    ;
    assert(small.height * p.height <= large.height * p.height) by (nonlinear_arith)
        requires
            small.height <= large.height,
    ;
}

/// A layout that keeps tmux's promise can be shown wherever its own cell, in pixels, is no larger
/// than a number can be, and nowhere else.
pub proof fn law_layout_fits_where_its_cell_fits(tree: LayoutTree, p: CellPixels)
    requires
        is_filled(tree),
        is_terminals(tree),
    ensures
        tree.cell().width * p.width <= usize::MAX && tree.cell().height * p.height <= usize::MAX
            ==> window_fits(tree, p),
        window_fits(tree, p) ==> tree.cell().width * p.width <= usize::MAX && tree.cell().height
            * p.height <= usize::MAX,
    decreases tree,
{
    let cell = tree.cell();
    if cell.width * p.width <= usize::MAX && cell.height * p.height <= usize::MAX {
        lemma_smaller_cell_fits(p, cell, cell);
        if let LayoutTree::Split { cell, direction, children } = tree {
            lemma_chain_fits(direction, cell, children, p);
        }
    }
}

proof fn lemma_chain_fits(
    direction: TmuxSplitDirection,
    container: TmuxLayoutCell,
    children: Seq<LayoutTree>,
    p: CellPixels,
)
    requires
        is_terminal(container),
        container.width * p.width <= usize::MAX,
        container.height * p.height <= usize::MAX,
        fills(direction, container, children),
        forall|i: int|
            #![trigger children[i]]
            0 <= i < children.len() ==> is_filled(children[i]) && is_terminals(children[i]),
    ensures
        chain_fits(direction, container, children, p),
    decreases children,
{
    let head = children[0];
    lemma_smaller_cell_fits(p, head.cell(), container);
    law_layout_fits_where_its_cell_fits(head, p);
    if children.len() > 1 {
        let rest = children.subrange(1, children.len() as int);
        let tail = tail_of(direction, container, head.cell());
        assert forall|i: int| #![trigger rest[i]] 0 <= i < rest.len() implies is_filled(rest[i])
            && is_terminals(rest[i]) by {
            assert(rest[i] == children[i + 1]);
        }
        lemma_smaller_cell_fits(p, tail, container);
        lemma_chain_fits(direction, tail, rest, p);
    }
}

} // verus!
