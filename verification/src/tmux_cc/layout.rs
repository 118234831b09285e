//! Window layouts: the tree that a tmux layout string describes.

use vstd::prelude::*;
use vstd::slice::slice_subrange;

use crate::text::{
    after_char, chars_of, decimal, is_digit, is_hex_digit, law_decimal_reads_back,
    lemma_take_decimal, lemma_take_number_shrinks, split_number, strip_char, take_number,
};
use crate::tmux_cc::unvis::Error;

verus! {

pub type TmuxWindowId = u64;

pub type TmuxPaneId = u64;

pub type TmuxSessionId = u64;

/// The geometry of a tmux layout cell: its size and position within the
/// window, in terminal cells. Matches the `WxH,X,Y` portion of a tmux
/// layout string.
#[derive(Debug, Clone, Copy, PartialEq, Eq)]
pub struct TmuxLayoutCell {
    pub width: u64,
    pub height: u64,
    pub left: u64,
    pub top: u64,
}

/// The direction along which a tmux split arranges its children.
#[derive(Debug, Clone, Copy, PartialEq, Eq, Structural)]
pub enum TmuxSplitDirection {
    /// `{...}` in the layout string: children are laid out left-to-right.
    Horizontal,
    /// `[...]` in the layout string: children are laid out top-to-bottom.
    Vertical,
}

/// A faithful, n-ary mirror of tmux's window layout tree, as described by a
/// tmux layout string (see [`parse_layout_tree`]). A `Split` may have any
/// number of children (tmux produces 3+ for layouts such as
/// `even-horizontal`), so this is intentionally n-ary rather than binary.
#[derive(Debug, PartialEq, Eq)]
pub enum TmuxLayoutNode {
    Leaf { cell: TmuxLayoutCell, pane_id: TmuxPaneId },
    Split {
        cell: TmuxLayoutCell,
        direction: TmuxSplitDirection,
        children: Vec<TmuxLayoutNode>,
    },
}

/// The layout tree as a mathematical value.
pub enum LayoutTree {
    Leaf { cell: TmuxLayoutCell, pane_id: TmuxPaneId },
    Split { cell: TmuxLayoutCell, direction: TmuxSplitDirection, children: Seq<LayoutTree> },
}

impl LayoutTree {
    /// The bounding cell of the node.
    pub open spec fn cell(self) -> TmuxLayoutCell {
        match self {
            LayoutTree::Leaf { cell, .. } => cell,
            LayoutTree::Split { cell, .. } => cell,
        }
    }

    /// The ids of the panes of the tree, in layout order.
    pub open spec fn pane_ids(self) -> Seq<TmuxPaneId> {
        ids_of(self.leaves())
    }

    /// The leaves of the tree, in layout order.
    pub open spec fn leaves(self) -> Seq<(TmuxPaneId, TmuxLayoutCell)>
        decreases self,
    {
        match self {
            LayoutTree::Leaf { cell, pane_id } => seq![(pane_id, cell)],
            LayoutTree::Split { children, .. } => forest_leaves(children),
        }
    }
}

/// The pane ids of a row of leaves.
pub open spec fn ids_of(leaves: Seq<(TmuxPaneId, TmuxLayoutCell)>) -> Seq<TmuxPaneId> {
    leaves.map_values(|leaf: (TmuxPaneId, TmuxLayoutCell)| leaf.0)
}

/// The leaves of a row of trees, in layout order.
pub open spec fn forest_leaves(trees: Seq<LayoutTree>) -> Seq<(TmuxPaneId, TmuxLayoutCell)>
    decreases trees,
{
    if trees.len() == 0 {
        Seq::empty()
    } else {
        trees[0].leaves() + forest_leaves(trees.subrange(1, trees.len() as int))
    }
}

impl TmuxLayoutNode {
    pub open spec fn tree(self) -> LayoutTree
        decreases self,
    {
        match self {
            TmuxLayoutNode::Leaf { cell, pane_id } => LayoutTree::Leaf { cell, pane_id },
            TmuxLayoutNode::Split { cell, direction, children } => LayoutTree::Split {
                cell,
                direction,
                children: Seq::new(
                    children@.len(),
                    |i: int|
                        if 0 <= i < children@.len() {
                            children@[i].tree()
                        } else {
                            arbitrary()
                        },
                ),
            },
        }
    }
}

impl View for TmuxLayoutNode {
    type V = LayoutTree;

    open spec fn view(&self) -> LayoutTree {
        self.tree()
    }
}

/// Row of trees seen as mathematical values.
pub open spec fn forest(nodes: Seq<TmuxLayoutNode>) -> Seq<LayoutTree> {
    Seq::new(nodes.len(), |i: int| nodes[i]@)
}

impl Clone for TmuxLayoutNode {
    fn clone(&self) -> (r: Self)
        ensures
            r@ == self@,
        decreases self,
    {
        match self {
            TmuxLayoutNode::Leaf { cell, pane_id } => TmuxLayoutNode::Leaf {
                cell: *cell,
                pane_id: *pane_id,
            },
            TmuxLayoutNode::Split { cell, direction, children } => {
                let mut copies: Vec<TmuxLayoutNode> = Vec::new();
                let mut i: usize = 0;
                while i < children.len()
                    invariant
                        self matches TmuxLayoutNode::Split { children: c, .. } && c == children,
                        i <= children@.len(),
                        copies@.len() == i,
                        forall|j: int| 0 <= j < i ==> (#[trigger] copies@[j])@ == children@[j]@,
                    decreases children@.len() - i,
                {
                    copies.push(children[i].clone());
                    i += 1;
                }
                let r = TmuxLayoutNode::Split {
                    cell: *cell,
                    direction: *direction,
                    children: copies,
                };
                assert(r@->children == self@->children);
                r
            },
        }
    }
}

impl TmuxLayoutNode {
    /// The geometry of this node (its bounding cell), regardless of variant.
    pub fn cell(&self) -> (r: TmuxLayoutCell)
        ensures
            r == self@.cell(),
    {
        match self {
            TmuxLayoutNode::Leaf { cell, .. } => *cell,
            TmuxLayoutNode::Split { cell, .. } => *cell,
        }
    }

    /// All pane ids contained in this subtree, in layout order
    /// (left-to-right within `{}`, top-to-bottom within `[]`).
    pub fn pane_ids(&self) -> (ids: Vec<TmuxPaneId>)
        ensures
            ids@ == self@.pane_ids(),
    {
        let mut out: Vec<TmuxPaneId> = Vec::new();
        self.collect_pane_ids(&mut out);
        out
    }

    fn collect_pane_ids(&self, out: &mut Vec<TmuxPaneId>)
        ensures
            final(out)@ == old(out)@ + self@.pane_ids(),
        decreases self,
    {
        match self {
            TmuxLayoutNode::Leaf { pane_id, .. } => {
                out.push(*pane_id);
                assert(ids_of(self@.leaves()) == seq![*pane_id]);
            },
            TmuxLayoutNode::Split { children, .. } => {
                let ghost trees = self@->children;
                let n = children.len();
                let mut i: usize = 0;
                assert(trees.subrange(0, n as int) == trees);
                while i < n
                    invariant
                        self matches TmuxLayoutNode::Split { children: c, .. } && c == children,
                        n == children@.len() == trees.len(),
                        forall|j: int| 0 <= j < n ==> #[trigger] trees[j] == children@[j]@,
                        i <= n,
                        old(out)@ + self@.pane_ids() == out@ + ids_of(
                            forest_leaves(trees.subrange(i as int, n as int)),
                        ),
                    decreases n - i,
                {
                    let ghost rest = trees.subrange(i as int, n as int);
                    let ghost before = out@;
                    children[i].collect_pane_ids(out);
                    proof {
                        let next = trees.subrange(i + 1, n as int);
                        assert(rest.subrange(1, rest.len() as int) == next);
                        assert(rest[0] == children@[i as int]@);
                        assert(before + ids_of(rest[0].leaves() + forest_leaves(next)) == out@
                            + ids_of(forest_leaves(next)));
                    }
                    i += 1;
                }
            },
        }
    }

    /// All leaves `(pane_id, cell)` in this subtree, in layout order.
    pub fn leaves(&self) -> (leaves: Vec<(TmuxPaneId, TmuxLayoutCell)>)
        ensures
            leaves@ == self@.leaves(),
    {
        let mut out: Vec<(TmuxPaneId, TmuxLayoutCell)> = Vec::new();
        self.collect_leaves(&mut out);
        out
    }

    fn collect_leaves(&self, out: &mut Vec<(TmuxPaneId, TmuxLayoutCell)>)
        ensures
            final(out)@ == old(out)@ + self@.leaves(),
        decreases self,
    {
        match self {
            TmuxLayoutNode::Leaf { pane_id, cell } => {
                out.push((*pane_id, *cell));
            },
            TmuxLayoutNode::Split { children, .. } => {
                let ghost trees = self@->children;
                let n = children.len();
                let mut i: usize = 0;
                assert(trees.subrange(0, n as int) == trees);
                while i < n
                    invariant
                        self matches TmuxLayoutNode::Split { children: c, .. } && c == children,
                        n == children@.len() == trees.len(),
                        forall|j: int| 0 <= j < n ==> #[trigger] trees[j] == children@[j]@,
                        i <= n,
                        old(out)@ + self@.leaves() == out@ + forest_leaves(
                            trees.subrange(i as int, n as int),
                        ),
                    decreases n - i,
                {
                    let ghost rest = trees.subrange(i as int, n as int);
                    let ghost before = out@;
                    children[i].collect_leaves(out);
                    proof {
                        let next = trees.subrange(i + 1, n as int);
                        assert(rest.subrange(1, rest.len() as int) == next);
                        assert(rest[0] == children@[i as int]@);
                        assert(before + (rest[0].leaves() + forest_leaves(next)) == out@
                            + forest_leaves(next));
                    }
                    i += 1;
                }
            },
        }
    }
}

// ---------------------------------------------------------------------------
// The grammar of layout strings
// ---------------------------------------------------------------------------

/// A cell, `WxH,X,Y`, and the text after it.
pub open spec fn take_cell(s: Seq<char>) -> Option<(TmuxLayoutCell, Seq<char>)> {
    match take_number(s) {
        Some((width, s)) => match after_char(s, 'x') {
            Some(s) => match take_number(s) {
                Some((height, s)) => match after_char(s, ',') {
                    Some(s) => match take_number(s) {
                        Some((left, s)) => match after_char(s, ',') {
                            Some(s) => match take_number(s) {
                                Some((top, s)) => Some(
                                    (TmuxLayoutCell { width, height, left, top }, s),
                                ),
                                None => None,
                            },
                            None => None,
                        },
                        None => None,
                    },
                    None => None,
                },
                None => None,
            },
            None => None,
        },
        None => None,
    }
}

/// The splits that may stand at some place of a layout: a split's children never
/// run along the same direction as the split itself.
pub open spec fn admits(within: Option<TmuxSplitDirection>, d: TmuxSplitDirection) -> bool {
    within != Some(d)
}

/// A layout node and the text after it: a cell followed by `,` and a pane id, by
/// `{` children `}` or by `[` children `]`. The node stands inside a split along
/// `within`, or at the root.
pub open spec fn take_node(s: Seq<char>, within: Option<TmuxSplitDirection>) -> Option<
    (LayoutTree, Seq<char>),
>
    decreases s.len(), 0int,
{
    match take_cell(s) {
        Some((cell, t)) => if t.len() == 0 || t.len() >= s.len() {
            None
        } else if t[0] == ',' {
            match take_number(t.skip(1)) {
                Some((pane_id, u)) => Some((LayoutTree::Leaf { cell, pane_id }, u)),
                None => None,
            }
        } else if t[0] == '{' && admits(within, TmuxSplitDirection::Horizontal) {
            match take_children(t.skip(1), TmuxSplitDirection::Horizontal) {
                Some((children, u)) => match after_char(u, '}') {
                    Some(v) => Some(
                        (
                            LayoutTree::Split {
                                cell,
                                direction: TmuxSplitDirection::Horizontal,
                                children,
                            },
                            v,
                        ),
                    ),
                    None => None,
                },
                None => None,
            }
        } else if t[0] == '[' && admits(within, TmuxSplitDirection::Vertical) {
            match take_children(t.skip(1), TmuxSplitDirection::Vertical) {
                Some((children, u)) => match after_char(u, ']') {
                    Some(v) => Some(
                        (
                            LayoutTree::Split {
                                cell,
                                direction: TmuxSplitDirection::Vertical,
                                children,
                            },
                            v,
                        ),
                    ),
                    None => None,
                },
                None => None,
            }
        } else {
            None
        },
        None => None,
    }
}

/// One or more nodes separated by commas, and the text after them.
pub open spec fn take_children(s: Seq<char>, within: TmuxSplitDirection) -> Option<
    (Seq<LayoutTree>, Seq<char>),
>
    decreases s.len(), 1int,
{
    match take_node(s, Some(within)) {
        Some((node, t)) => if 0 < t.len() < s.len() && t[0] == ',' {
            match take_children(t.skip(1), within) {
                Some((nodes, u)) => Some((seq![node] + nodes, u)),
                None => None,
            }
        } else {
            Some((seq![node], t))
        },
        None => None,
    }
}

/// A cell leaves less text than there was.
proof fn lemma_take_cell_shrinks(s: Seq<char>)
    ensures
        take_cell(s) matches Some((_, t)) ==> t.len() < s.len(),
{
    if let Some((_, s1)) = take_number(s) {
        lemma_take_number_shrinks(s);
        if let Some(s2) = after_char(s1, 'x') {
            if let Some((_, s3)) = take_number(s2) {
                lemma_take_number_shrinks(s2);
                if let Some(s4) = after_char(s3, ',') {
                    if let Some((_, s5)) = take_number(s4) {
                        lemma_take_number_shrinks(s4);
                        if let Some(s6) = after_char(s5, ',') {
                            lemma_take_number_shrinks(s6);
                        }
                    }
                }
            }
        }
    }
}

/// A node leaves less text than there was.
proof fn lemma_take_node_shrinks(s: Seq<char>, within: Option<TmuxSplitDirection>)
    ensures
        take_node(s, within) matches Some((_, t)) ==> t.len() < s.len(),
    decreases s.len(), 0int,
{
    if let Some((_, t)) = take_cell(s) {
        if 0 < t.len() < s.len() {
            lemma_take_number_shrinks(t.skip(1));
            lemma_take_children_shrinks(t.skip(1), TmuxSplitDirection::Horizontal);
            lemma_take_children_shrinks(t.skip(1), TmuxSplitDirection::Vertical);
        }
    }
}

/// Nodes leave less text than there was.
proof fn lemma_take_children_shrinks(s: Seq<char>, within: TmuxSplitDirection)
    ensures
        take_children(s, within) matches Some((_, t)) ==> t.len() < s.len(),
    decreases s.len(), 1int,
{
    lemma_take_node_shrinks(s, Some(within));
    if let Some((_, t)) = take_node(s, Some(within)) {
        if 0 < t.len() < s.len() && t[0] == ',' {
            lemma_take_children_shrinks(t.skip(1), within);
        }
    }
}

/// The layout text without the checksum that may stand before it: four hexadecimal
/// digits and a comma, with something after them.
pub open spec fn without_checksum(s: Seq<char>) -> Seq<char> {
    if s.len() > 5 && s[4] == ',' && (forall|i: int| 0 <= i < 4 ==> is_hex_digit(#[trigger] s[i])) {
        s.skip(5)
    } else {
        s
    }
}

/// The tree that the layout text `s` describes, if it is a layout.
pub open spec fn layout_of(s: Seq<char>) -> Option<LayoutTree> {
    match take_node(without_checksum(s), None) {
        Some((tree, rest)) => if rest.len() == 0 {
            Some(tree)
        } else {
            None
        },
        None => None,
    }
}

// ---------------------------------------------------------------------------
// Parsing
// ---------------------------------------------------------------------------

/// The grammar of control mode.
pub struct TmuxParser;

impl TmuxParser {
    /// Reads the four numbers `WxH,X,Y` that begin a layout node.
    fn layout_cell(s: &[char]) -> (r: Option<(TmuxLayoutCell, &[char])>)
        ensures
            match r {
                Some((cell, rest)) => take_cell(s@) == Some((cell, rest@)) && rest@.len()
                    < s@.len(),
                None => take_cell(s@) is None,
            },
    {
        let (width, s) = split_number(s)?;
        let s = strip_char(s, 'x')?;
        let (height, s) = split_number(s)?;
        let s = strip_char(s, ',')?;
        let (left, s) = split_number(s)?;
        let s = strip_char(s, ',')?;
        let (top, s) = split_number(s)?;
        Some((TmuxLayoutCell { width, height, left, top }, s))
    }

    /// Reads one layout node and returns it with the text after it.
    pub fn layout_node(s: &[char], within: Option<TmuxSplitDirection>) -> (r: Option<
        (TmuxLayoutNode, &[char]),
    >)
        ensures
            match r {
                Some((node, rest)) => take_node(s@, within) == Some((node@, rest@)),
                None => take_node(s@, within) is None,
            },
        decreases s@.len(), 0int,
    {
        let (cell, t) = Self::layout_cell(s)?;
        if t.len() == 0 {
            return None;
        }
        let body = slice_subrange(t, 1, t.len());
        assert(body@ == t@.skip(1));
        if t[0] == ',' {
            let (pane_id, rest) = split_number(body)?;
            return Some((TmuxLayoutNode::Leaf { cell, pane_id }, rest));
        }
        let (direction, close) = if t[0] == '{' {
            (TmuxSplitDirection::Horizontal, '}')
        } else if t[0] == '[' {
            (TmuxSplitDirection::Vertical, ']')
        } else {
            return None;
        };
        if let Some(outer) = within {
            if outer == direction {
                return None;
            }
        }
        let (children, rest) = Self::layout_children(body, direction)?;
        let rest = strip_char(rest, close)?;
        let node = TmuxLayoutNode::Split { cell, direction, children };
        assert(node@->children == forest(children@));
        Some((node, rest))
    }

    /// Reads one or more layout nodes separated by commas.
    fn layout_children(s: &[char], within: TmuxSplitDirection) -> (r: Option<
        (Vec<TmuxLayoutNode>, &[char]),
    >)
        ensures
            match r {
                Some((nodes, rest)) => take_children(s@, within) == Some(
                    (forest(nodes@), rest@),
                ),
                None => take_children(s@, within) is None,
            },
        decreases s@.len(), 1int,
    {
        let mut nodes: Vec<TmuxLayoutNode> = Vec::new();
        let mut cur = s;
        loop
            invariant
                cur@.len() <= s@.len(),
                take_children(s@, within) == match take_children(cur@, within) {
                    Some((more, rest)) => Some((forest(nodes@) + more, rest)),
                    None => None,
                },
            decreases cur@.len(),
        {
            proof {
                lemma_take_node_shrinks(cur@, Some(within));
            }
            let (node, rest) = Self::layout_node(cur, Some(within))?;
            let ghost before = nodes@;
            nodes.push(node);
            assert(forest(nodes@) == forest(before) + seq![node@]);
            if rest.len() > 0 && rest[0] == ',' {
                let next = slice_subrange(rest, 1, rest.len());
                assert(next@ == rest@.skip(1));
                proof {
                    if let Some((more, _)) = take_children(next@, within) {
                        assert(forest(before) + (seq![node@] + more) == forest(nodes@) + more);
                    }
                }
                cur = next;
            } else {
                return Some((nodes, rest));
            }
        }
    }
}

/// tmux prefixes a layout string with a 4 hex digit checksum followed by a
/// comma (`#{window_layout}` => e.g. `b25d,80x24,0,0,0`). A real layout
/// cell always begins with `WxH` (i.e. contains an `x` before the first
/// comma), so an all-hex token before the first comma can only be a checksum.
/// Strip it if present; otherwise return the input unchanged.
fn strip_layout_checksum(layout: &[char]) -> (r: &[char])
    ensures
        r@ == without_checksum(layout@),
{
    if layout.len() > 5 && layout[4] == ',' && hex_digit(layout[0]) && hex_digit(layout[1])
        && hex_digit(layout[2]) && hex_digit(layout[3]) {
        slice_subrange(layout, 5, layout.len())
    } else {
        proof {
            if layout@.len() > 5 && layout@[4] == ',' {
                assert(!is_hex_digit(layout@[0]) || !is_hex_digit(layout@[1]) || !is_hex_digit(
                    layout@[2],
                ) || !is_hex_digit(layout@[3]));
            }
        }
        layout
    }
}

fn hex_digit(c: char) -> (b: bool)
    ensures
        b == is_hex_digit(c),
{
    ('0' <= c && c <= '9') || ('a' <= c && c <= 'f') || ('A' <= c && c <= 'F')
}

/// Parse a tmux window layout string into a faithful n-ary [`TmuxLayoutNode`]
/// tree. Accepts the string with or without the leading checksum.
pub fn parse_layout_tree(layout: &str) -> (r: Result<TmuxLayoutNode, Error>)
    ensures
        match r {
            Ok(node) => layout_of(layout@) == Some(node@),
            Err(e) => layout_of(layout@) is None && e == Error::InvalidLayout,
        },
{
    let chars = chars_of(layout);
    let body = strip_layout_checksum(chars.as_slice());
    match TmuxParser::layout_node(body, None) {
        Some((node, rest)) => if rest.len() == 0 {
            Ok(node)
        } else {
            Err(Error::InvalidLayout)
        },
        None => Err(Error::InvalidLayout),
    }
}

// ---------------------------------------------------------------------------
// Laws
// ---------------------------------------------------------------------------

/// The text of a cell.
pub open spec fn cell_text(cell: TmuxLayoutCell) -> Seq<char> {
    decimal(cell.width as nat) + (seq!['x'] + (decimal(cell.height as nat) + (seq![','] + (decimal(
        cell.left as nat,
    ) + (seq![','] + decimal(cell.top as nat))))))
}

/// The bracket that opens a split along `d`.
pub open spec fn opening(d: TmuxSplitDirection) -> char {
    match d {
        TmuxSplitDirection::Horizontal => '{',
        TmuxSplitDirection::Vertical => '[',
    }
}

/// The bracket that closes a split along `d`.
pub open spec fn closing(d: TmuxSplitDirection) -> char {
    match d {
        TmuxSplitDirection::Horizontal => '}',
        TmuxSplitDirection::Vertical => ']',
    }
}

/// The layout text of a tree.
pub open spec fn layout_text(tree: LayoutTree) -> Seq<char>
    decreases tree,
{
    match tree {
        LayoutTree::Leaf { cell, pane_id } => cell_text(cell) + (seq![','] + decimal(
            pane_id as nat,
        )),
        LayoutTree::Split { cell, direction, children } => cell_text(cell) + (seq![
            opening(direction),
        ] + (forest_text(children) + seq![closing(direction)])),
    }
}

/// The layout text of the children of a split.
pub open spec fn forest_text(trees: Seq<LayoutTree>) -> Seq<char>
    decreases trees,
{
    if trees.len() == 0 {
        Seq::empty()
    } else if trees.len() == 1 {
        layout_text(trees[0])
    } else {
        layout_text(trees[0]) + (seq![','] + forest_text(trees.subrange(1, trees.len() as int)))
    }
}

/// The trees that tmux makes: every split has children, and none of them is a split
/// along the same direction.
pub open spec fn well_nested(tree: LayoutTree, within: Option<TmuxSplitDirection>) -> bool
    decreases tree,
{
    match tree {
        LayoutTree::Leaf { .. } => true,
        LayoutTree::Split { direction, children, .. } => {
            &&& admits(within, direction)
            &&& children.len() > 0
            &&& forall|i: int|
                0 <= i < children.len() ==> well_nested(#[trigger] children[i], Some(direction))
        },
    }
}

/// Whether text that ends in a number would swallow the front of `rest`.
pub open spec fn no_digit(rest: Seq<char>) -> bool {
    rest.len() > 0 ==> !is_digit(rest[0])
}

proof fn lemma_take_cell_text(cell: TmuxLayoutCell, rest: Seq<char>)
    requires
        no_digit(rest),
    ensures
        take_cell(cell_text(cell) + rest) == Some((cell, rest)),
{
    let r6 = decimal(cell.top as nat) + rest;
    let r5 = seq![','] + r6;
    let r4 = decimal(cell.left as nat) + r5;
    let r3 = seq![','] + r4;
    let r2 = decimal(cell.height as nat) + r3;
    let r1 = seq!['x'] + r2;
    let r0 = decimal(cell.width as nat) + r1;
    assert(cell_text(cell) + rest == r0);
    lemma_take_decimal(cell.width, r1);
    assert(r1.skip(1) == r2);
    lemma_take_decimal(cell.height, r3);
    assert(r3.skip(1) == r4);
    lemma_take_decimal(cell.left, r5);
    assert(r5.skip(1) == r6);
    lemma_take_decimal(cell.top, rest);
}

pub proof fn lemma_take_node_text(
    tree: LayoutTree,
    within: Option<TmuxSplitDirection>,
    rest: Seq<char>,
)
    requires
        well_nested(tree, within),
        no_digit(rest),
    ensures
        take_node(layout_text(tree) + rest, within) == Some((tree, rest)),
    decreases tree,
{
    let s = layout_text(tree) + rest;
    match tree {
        LayoutTree::Leaf { cell, pane_id } => {
            let r1 = decimal(pane_id as nat) + rest;
            let r0 = seq![','] + r1;
            assert(s == cell_text(cell) + r0);
            lemma_take_cell_text(cell, r0);
            assert(r0.skip(1) == r1);
            lemma_take_decimal(pane_id, rest);
            lemma_take_cell_shrinks(s);
        },
        LayoutTree::Split { cell, direction, children } => {
            let r2 = seq![closing(direction)] + rest;
            let r1 = forest_text(children) + r2;
            let r0 = seq![opening(direction)] + r1;
            assert(s == cell_text(cell) + r0);
            lemma_take_cell_text(cell, r0);
            assert(r0.skip(1) == r1);
            lemma_take_forest_text(children, direction, r2);
            assert(r2.skip(1) == rest);
            lemma_take_cell_shrinks(s);
        },
    }
}

proof fn lemma_take_forest_text(trees: Seq<LayoutTree>, within: TmuxSplitDirection, rest: Seq<char>)
    requires
        trees.len() > 0,
        forall|i: int| 0 <= i < trees.len() ==> well_nested(#[trigger] trees[i], Some(within)),
        no_digit(rest),
        rest.len() > 0 ==> rest[0] != ',',
    ensures
        take_children(forest_text(trees) + rest, within) == Some((trees, rest)),
    decreases trees,
{
    let s = forest_text(trees) + rest;
    if trees.len() == 1 {
        lemma_take_node_text(trees[0], Some(within), rest);
        assert(trees == seq![trees[0]]);
    } else {
        let tail = trees.subrange(1, trees.len() as int);
        let r1 = forest_text(tail) + rest;
        let r0 = seq![','] + r1;
        assert(s == layout_text(trees[0]) + r0);
        lemma_take_node_text(trees[0], Some(within), r0);
        assert forall|i: int| 0 <= i < tail.len() implies well_nested(
            #[trigger] tail[i],
            Some(within),
        ) by {
            assert(tail[i] == trees[i + 1]);
        }
        lemma_take_forest_text(tail, within, rest);
        assert(r0.skip(1) == r1);
        lemma_take_node_shrinks(s, Some(within));
        assert(seq![trees[0]] + tail == trees);
    }
}

/// A layout begins with a cell, and a cell holds an `x` where a checksum would have
/// its comma or a hexadecimal digit.
pub proof fn lemma_layout_text_has_no_checksum(tree: LayoutTree)
    ensures
        without_checksum(layout_text(tree)) == layout_text(tree),
        layout_text(tree).len() > 0,
{
    let s = layout_text(tree);
    let w = decimal(tree.cell().width as nat);
    law_decimal_reads_back(tree.cell().width as nat);
    assert forall|i: int| 0 <= i < w.len() implies s[i] == w[i] by {}
    assert(s[w.len() as int] == 'x');
    if w.len() < 4 {
        assert(!is_hex_digit(s[w.len() as int]));
    } else if w.len() == 4 {
        assert(s[4] != ',');
    } else {
        assert(is_digit(w[4]));
        assert(s[4] == w[4]);
    }
}

/// Parsing reads back, as the same tree, the text of every layout that tmux makes.
pub proof fn law_layout_text_parses_back(tree: LayoutTree)
    requires
        well_nested(tree, None),
    ensures
        layout_of(layout_text(tree)) == Some(tree),
{
    let s = layout_text(tree);
    lemma_layout_text_has_no_checksum(tree);
    lemma_take_node_text(tree, None, Seq::empty());
    assert(s + Seq::<char>::empty() == s);
}

/// A checksum before a layout changes nothing.
pub proof fn law_layout_checksum_is_optional(checksum: Seq<char>, layout: Seq<char>)
    requires
        checksum.len() == 4,
        forall|i: int| 0 <= i < 4 ==> is_hex_digit(#[trigger] checksum[i]),
        layout.len() > 0,
        without_checksum(layout) == layout,
    ensures
        layout_of(checksum + seq![','] + layout) == layout_of(layout),
{
    let s = checksum + seq![','] + layout;
    assert forall|i: int| 0 <= i < 4 implies is_hex_digit(#[trigger] s[i]) by {
        assert(s[i] == checksum[i]);
    }
    assert(s[4] == ',');
    assert(without_checksum(s) == s.skip(5));
    assert(s.skip(5) == layout);
}

proof fn lemma_parsed_node_nests(s: Seq<char>, within: Option<TmuxSplitDirection>)
    ensures
        take_node(s, within) matches Some((tree, _)) ==> well_nested(tree, within),
    decreases s.len(), 0int,
{
    if let Some((_, t)) = take_cell(s) {
        if 0 < t.len() < s.len() {
            lemma_parsed_children_nest(t.skip(1), TmuxSplitDirection::Horizontal);
            lemma_parsed_children_nest(t.skip(1), TmuxSplitDirection::Vertical);
        }
    }
}

proof fn lemma_parsed_children_nest(s: Seq<char>, within: TmuxSplitDirection)
    ensures
        take_children(s, within) matches Some((trees, _)) ==> trees.len() > 0 && forall|i: int|
            0 <= i < trees.len() ==> well_nested(#[trigger] trees[i], Some(within)),
    decreases s.len(), 1int,
{
    lemma_parsed_node_nests(s, Some(within));
    if let Some((node, t)) = take_node(s, Some(within)) {
        if 0 < t.len() < s.len() && t[0] == ',' {
            lemma_parsed_children_nest(t.skip(1), within);
            if let Some((nodes, _)) = take_children(t.skip(1), within) {
                let trees = seq![node] + nodes;
                assert forall|i: int| 0 <= i < trees.len() implies well_nested(
                    #[trigger] trees[i],
                    Some(within),
                ) by {
                    if i > 0 {
                        assert(trees[i] == nodes[i - 1]);
                    }
                }
            }
        }
    }
}

/// Every layout that is accepted has children in each of its splits and alternates
/// directions from a split to the splits inside it.
pub proof fn law_parsed_layout_is_well_nested(s: Seq<char>)
    ensures
        layout_of(s) matches Some(tree) ==> well_nested(tree, None),
{
    lemma_parsed_node_nests(without_checksum(s), None);
}

} // verus!
