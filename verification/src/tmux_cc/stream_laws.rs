//! What comes out of the stream of control mode, and what a layout is.

use vstd::prelude::*;
use vstd::utf8::valid_utf8;

use crate::text::decoded;
use crate::tmux_cc::event::{EventView, GuardedView};
use crate::tmux_cc::layout::{
    forest_leaves, law_parsed_layout_is_well_nested, layout_of, layout_text,
    lemma_layout_text_has_no_checksum, lemma_take_node_text, well_nested, without_checksum,
    LayoutTree, TmuxLayoutCell, TmuxSplitDirection,
};
use crate::tmux_cc::line::announced;
use crate::tmux_cc::parser::{
    end_of_line, idle, is_line, law_stream_may_be_cut, lemma_run_in_line, lemma_run_line, run, step,
    within, without_cr, ParserState,
};
use crate::tmux_cc::unvis::Error;

verus! {

// ---------------------------------------------------------------------------
// Streams
// ---------------------------------------------------------------------------

/// A line that announces an event, other than the guard that begins command output, comes out of
/// the stream as that event, and nothing is left of it.
pub proof fn law_line_comes_out_as_its_event(line: Seq<u8>, event: EventView)
    requires
        is_line(line),
        announced(line) == Ok::<EventView, Error>(event),
        !(event is Begin),
    ensures
        run(idle(), line.push(0x0a)) == (
            idle(),
            Ok::<Seq<EventView>, Seq<char>>(seq![event]),
        ),
{
    lemma_run_line(idle(), line);
}

/// A carriage return before the line feed is no part of the line, within command output and
/// outside of it.
pub proof fn law_carriage_return_is_no_part_of_the_line(state: ParserState, line: Seq<u8>)
    requires
        is_line(line),
    ensures
        end_of_line(ParserState { buffer: line.push(0x0d), ..state }) == end_of_line(
            ParserState { buffer: line, ..state },
        ),
{
    assert(line.push(0x0d).drop_last() == line);
}

/// A guard that ends command output but matches another beginning, in its time, its number or
/// its flags, ends the output without an event: the output is dropped.
pub proof fn law_unmatched_guard_drops_the_output(
    begun: GuardedView,
    end: Seq<u8>,
    timestamp: i64,
    number: u64,
    flags: i64,
)
    requires
        is_line(end),
        valid_utf8(end),
        announced(end) == Ok::<EventView, Error>(EventView::End { timestamp, number, flags })
            || announced(end) == Ok::<EventView, Error>(
            EventView::Error { timestamp, number, flags },
        ),
        begun.timestamp != timestamp || begun.number != number || begun.flags != flags,
    ensures
        run(within(begun), end.push(0x0a)) == (
            idle(),
            Ok::<Seq<EventView>, Seq<char>>(Seq::empty()),
        ),
{
    lemma_run_line(within(begun), end);
}

/// A line that is refused is handed back as text, with all that was not looked at behind it.
pub proof fn law_refused_line_is_handed_back(line: Seq<u8>, more: Seq<u8>)
    requires
        is_line(line),
        announced(line) is Err,
    ensures
        run(idle(), line + (seq![0x0au8] + more)).1 == Err::<Seq<EventView>, Seq<char>>(
            decoded(line) + decoded(seq![0x0au8] + more),
        ),
{
    lemma_run_in_line(idle(), line);
    assert(Seq::<u8>::empty() + line == line);
    law_stream_may_be_cut(idle(), line, seq![0x0au8] + more);
    let mid = ParserState { buffer: line, begun: None };
    let rest = seq![0x0au8] + more;
    assert(rest[0] == 0x0a);
    assert(without_cr(line) == line);
    assert(step(mid, 0x0a).1 == Err::<Option<EventView>, Seq<char>>(decoded(line)));
    assert(run(mid, rest).1 == Err::<Seq<EventView>, Seq<char>>(decoded(line) + decoded(rest)));
}

/// A line of command output that is no text is refused, and the output goes on waiting for its
/// guard with what it held.
pub proof fn law_output_that_is_no_text_is_refused(begun: GuardedView, line: Seq<u8>)
    requires
        is_line(line),
        !valid_utf8(line),
    ensures
        ({
            let (after, outcome) = end_of_line(ParserState { buffer: line, begun: Some(begun) });
            &&& outcome is Err
            &&& after.begun == Some(begun)
        }),
{
}

// ---------------------------------------------------------------------------
// Layouts
// ---------------------------------------------------------------------------

/// Whether no split of the tree has a split in the same direction right below it, and every
/// split has children.
pub open spec fn alternates(tree: LayoutTree) -> bool
    decreases tree,
{
    match tree {
        LayoutTree::Leaf { .. } => true,
        LayoutTree::Split { direction, children, .. } => {
            &&& children.len() > 0
            &&& forall|i: int|
                #![trigger children[i]]
                0 <= i < children.len() ==> {
                    &&& alternates(children[i])
                    &&& children[i] matches LayoutTree::Split { direction: below, .. } ==> below
                        != direction
                }
        },
    }
}

proof fn lemma_nested_splits_alternate(tree: LayoutTree, within: Option<TmuxSplitDirection>)
    ensures
        well_nested(tree, within) <==> alternates(tree) && (
        tree matches LayoutTree::Split { direction, .. } ==> within != Some(direction)),
    decreases tree,
{
    if let LayoutTree::Split { direction, children, .. } = tree {
        assert forall|i: int| 0 <= i < children.len() implies well_nested(
            #[trigger] children[i],
            Some(direction),
        ) == (alternates(children[i]) && (
        children[i] matches LayoutTree::Split { direction: below, .. } ==> Some(direction)
            != Some(below))) by {
            lemma_nested_splits_alternate(children[i], Some(direction));
        }
    }
}

/// The directions of the splits in a layout alternate from one level to the next, and a layout
/// whose directions alternate is read back from its text, with a checksum before it or without;
/// with anything behind it the text is no layout.
pub proof fn law_layout_directions_alternate(
    s: Seq<char>,
    tree: LayoutTree,
    checksum: Seq<char>,
    more: Seq<char>,
)
    requires
        checksum.len() == 4,
        forall|i: int|
            0 <= i < 4 ==> '0' <= #[trigger] checksum[i] <= '9' || 'a' <= checksum[i] <= 'f' || 'A'
                <= checksum[i] <= 'F',
        more.len() > 0,
        !('0' <= more[0] <= '9'),
    ensures
        layout_of(s) matches Some(read) ==> alternates(read),
        alternates(tree) ==> {
            &&& layout_of(layout_text(tree)) == Some(tree)
            &&& layout_of(checksum + seq![','] + layout_text(tree)) == Some(tree)
            &&& layout_of(checksum + seq![','] + (layout_text(tree) + more)) is None
        },
{
    law_parsed_layout_is_well_nested(s);
    if let Some(read) = layout_of(s) {
        lemma_nested_splits_alternate(read, None);
    }
    lemma_nested_splits_alternate(tree, None);
    if alternates(tree) {
        let t = layout_text(tree);
        lemma_layout_text_has_no_checksum(tree);
        assert(t + Seq::<char>::empty() == t);
        lemma_take_node_text(tree, None, Seq::empty());
        lemma_take_node_text(tree, None, more);
        let summed = checksum + seq![','] + t;
        assert(summed.skip(5) == t);
        assert forall|i: int| 0 <= i < 4 implies summed[i] == checksum[i] by {}
        assert(without_checksum(summed) == t);
        let long = checksum + seq![','] + (t + more);
        assert(long.skip(5) == t + more);
        assert forall|i: int| 0 <= i < 4 implies long[i] == checksum[i] by {}
        assert(without_checksum(long) == t + more);
    }
}

/// The panes of a layout are those of its leaves, in order, and a leaf is one pane in its cell.
pub proof fn law_panes_of_a_layout(tree: LayoutTree, i: int)
    ensures
        tree.pane_ids().len() == tree.leaves().len(),
        0 <= i < tree.leaves().len() ==> tree.pane_ids()[i] == tree.leaves()[i].0,
        tree matches LayoutTree::Leaf { cell, pane_id } ==> tree.leaves() == seq![(pane_id, cell)],
{
}

/// The leaves of a split are those of its children, one child after the other.
pub proof fn law_leaves_of_a_split(
    cell: TmuxLayoutCell,
    direction: TmuxSplitDirection,
    first: LayoutTree,
    others: Seq<LayoutTree>,
    last: LayoutTree,
)
    ensures
        (LayoutTree::Split { cell, direction, children: seq![first] + others }).leaves()
            == first.leaves() + (LayoutTree::Split {
            cell,
            direction,
            children: others,
        }).leaves(),
        (LayoutTree::Split { cell, direction, children: others.push(last) }).leaves() == (
        LayoutTree::Split { cell, direction, children: others }).leaves() + last.leaves(),
        (LayoutTree::Split { cell, direction, children: Seq::empty() }).leaves().len() == 0,
    decreases others.len(),
{
    let all = seq![first] + others;
    assert(all.subrange(1, all.len() as int) == others);
    if others.len() == 0 {
        let one = others.push(last);
        assert(one.subrange(1, 1) == Seq::<LayoutTree>::empty());
        assert(forest_leaves(one.subrange(1, 1)).len() == 0);
        assert(forest_leaves(one) == last.leaves());
        assert(forest_leaves(others).len() == 0);
        assert(forest_leaves(others) + last.leaves() == last.leaves());
    } else {
        let tail = others.subrange(1, others.len() as int);
        law_leaves_of_a_split(cell, direction, first, tail, last);
        let more = others.push(last);
        assert(more.subrange(1, more.len() as int) == tail.push(last));
        assert(forest_leaves(more) == others[0].leaves() + (forest_leaves(tail) + last.leaves()));
    }
}

} // verus!
