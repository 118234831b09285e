//! What becomes of the panes and tabs when tmux tells of its layouts and cursors.

use vstd::prelude::*;

use crate::action::ActionView;
use crate::id_map::{ascending, lemma_ascending};
use crate::layout_laws::{entries, law_tree_shows_each_pane};
use crate::tab::{PaneId, StableCursorPosition, TabId, TerminalSize};
use crate::text::{lemma_until_char, until_char};
use crate::tmux::{pane_attached, stays, AttachState, DomainView, State, TabView, TmuxRemotePane};
use crate::tmux_cc::layout::{
    ids_of, layout_of, layout_text, LayoutTree, TmuxLayoutCell, TmuxPaneId, TmuxWindowId,
};
use crate::tmux_cc::stream_laws::{alternates, law_layout_directions_alternate};
use crate::tmux_commands::{
    AttachDone, CapturePane, ListAllPanes, PaneItem, TmuxCommand, TmuxError, WindowView,
};
use crate::tmux_laws::lemma_nothing_to_reconcile;
use crate::tmux_layout::{node_of, size_of, ContextView};
use crate::tmux_listing::window_plan;
use crate::tmux_sync::{
    active_among, cell_pixels, context_of, dead_panes, dpi_of, is_live, is_synced, is_zoomed,
    layout_applied, layout_changed, lemma_dead_among, lemma_nothing_is_missing,
    lemma_reconcile_keeps, lemma_without, missing, pane_created, pane_synced, panes_synced, planned,
    prune_actions, prune_task_run, pruned, reconciled, sole_pane, splits_resolved, tab_ensured,
    window_backfilled, window_synced, windows_listed, with_panes, zoomed_after_change, FactsView,
    RenderableDimensions,
};

verus! {

// ---------------------------------------------------------------------------
// New panes
// ---------------------------------------------------------------------------

proof fn lemma_ids_pushed(leaves: Seq<(TmuxPaneId, TmuxLayoutCell)>)
    requires
        leaves.len() > 0,
    ensures
        ids_of(leaves) == ids_of(leaves.drop_last()).push(leaves.last().0),
        forall|p: TmuxPaneId| #[trigger]
            ids_of(leaves).contains(p) <==> ids_of(leaves.drop_last()).contains(p) || p
                == leaves.last().0,
{
    let small = ids_of(leaves.drop_last());
    let large = ids_of(leaves);
    assert(large == small.push(leaves.last().0));
    assert forall|p: TmuxPaneId| #[trigger] large.contains(p) <==> small.contains(p) || p
        == leaves.last().0 by {
        if small.contains(p) {
            let j = choose|j: int| 0 <= j < small.len() && small[j] == p;
            assert(large[j] == p);
        }
        if p == leaves.last().0 {
            assert(large[small.len() as int] == p);
        }
    }
}

/// Whether the plan asks, with this item, for a pane of the size and at the place of the cell.
pub open spec fn asks_for(
    item: PaneItem,
    window: TmuxWindowId,
    pane: TmuxPaneId,
    cell: TmuxLayoutCell,
) -> bool {
    &&& item.window_id == window
    &&& item.pane_id == pane
    &&& item.pane_width == cell.width
    &&& item.pane_height == cell.height
    &&& item.pane_left == cell.left
    &&& item.pane_top == cell.top
    &&& item.cursor_x == 0
    &&& item.cursor_y == 0
    &&& !item.pane_active
}

/// Whether a pane that is kept has the size and the place of the cell.
pub open spec fn stands_for(
    kept: TmuxRemotePane,
    window: TmuxWindowId,
    pane: TmuxPaneId,
    cell: TmuxLayoutCell,
) -> bool {
    &&& kept.window_id == window
    &&& kept.pane_id == pane
    &&& kept.pane_width == cell.width
    &&& kept.pane_height == cell.height
    &&& kept.pane_left == cell.left
    &&& kept.pane_top == cell.top
    &&& kept.cursor_x == 0
    &&& kept.cursor_y == 0
}

/// Whether the leaf is the first of the layout with its pane, which is not known yet.
pub open spec fn is_new(
    v: DomainView,
    leaves: Seq<(TmuxPaneId, TmuxLayoutCell)>,
    i: int,
) -> bool {
    &&& 0 <= i < leaves.len()
    &&& !v.panes.dom().contains(leaves[i].0)
    &&& forall|j: int| 0 <= j < i ==> (#[trigger] leaves[j]).0 != leaves[i].0
}

proof fn lemma_plan_ids(
    v: DomainView,
    window: TmuxWindowId,
    leaves: Seq<(TmuxPaneId, TmuxLayoutCell)>,
)
    ensures
        ({
            let plan = planned(v, window, leaves);
            &&& forall|k: int|
                0 <= k < plan.len() ==> ids_of(leaves).contains((#[trigger] plan[k]).pane_id)
                    && !v.panes.dom().contains(plan[k].pane_id)
            &&& forall|k: int, m: int|
                0 <= k < m < plan.len() ==> (#[trigger] plan[k]).pane_id != (
                #[trigger] plan[m]).pane_id
        }),
    decreases leaves.len(),
{
    if leaves.len() > 0 {
        let front = leaves.drop_last();
        lemma_plan_ids(v, window, front);
        lemma_ids_pushed(leaves);
        let before = planned(v, window, front);
        let plan = planned(v, window, leaves);
        assert forall|k: int| 0 <= k < plan.len() implies ids_of(leaves).contains(
            (#[trigger] plan[k]).pane_id,
        ) && !v.panes.dom().contains(plan[k].pane_id) by {
            if k < before.len() {
                assert(plan[k] == before[k]);
            }
        }
        assert forall|k: int, m: int| 0 <= k < m < plan.len() implies (#[trigger] plan[k]).pane_id
            != (#[trigger] plan[m]).pane_id by {
            assert(plan[k] == before[k]);
            assert(ids_of(front).contains(before[k].pane_id));
            if m < before.len() {
                assert(plan[m] == before[m]);
            }
        }
    }
}

/// For every leaf of the layout whose pane is not known, the plan holds exactly one item with
/// that pane: it is of the window, and has the size and the place of the leaf's cell.
pub proof fn law_plan_asks_for_each_new_pane_once(
    v: DomainView,
    window: TmuxWindowId,
    leaves: Seq<(TmuxPaneId, TmuxLayoutCell)>,
    i: int,
)
    requires
        is_new(v, leaves, i),
    ensures
        exists|k: int|
            0 <= k < planned(v, window, leaves).len() && asks_for(
                #[trigger] planned(v, window, leaves)[k],
                window,
                leaves[i].0,
                leaves[i].1,
            ) && forall|m: int|
                0 <= m < planned(v, window, leaves).len() && m != k ==> (#[trigger] planned(
                    v,
                    window,
                    leaves,
                )[m]).pane_id != leaves[i].0,
    decreases leaves.len(),
{
    let plan = planned(v, window, leaves);
    let front = leaves.drop_last();
    let before = planned(v, window, front);
    lemma_plan_ids(v, window, leaves);
    if i < leaves.len() - 1 {
        assert forall|j: int| 0 <= j < i implies (#[trigger] front[j]).0 != front[i].0 by {
            assert(front[j] == leaves[j]);
        }
        law_plan_asks_for_each_new_pane_once(v, window, front, i);
        let k = choose|k: int|
            0 <= k < before.len() && asks_for(
                #[trigger] before[k],
                window,
                leaves[i].0,
                leaves[i].1,
            );
        assert(plan[k] == before[k]);
        assert(asks_for(plan[k], window, leaves[i].0, leaves[i].1));
    } else {
        assert(!ids_of(front).contains(leaves[i].0)) by {
            if ids_of(front).contains(leaves[i].0) {
                let j = choose|j: int|
                    0 <= j < ids_of(front).len() && ids_of(front)[j] == leaves[i].0;
                assert(front[j] == leaves[j]);
            }
        }
        let k = before.len() as int;
        assert(plan == before.push(plan[k]));
        assert(asks_for(plan[k], window, leaves[i].0, leaves[i].1));
    }
}

/// The plan asks for nothing else: each of its items is for a leaf of the layout whose pane is
/// not known, and a plan for a layout of known panes is empty.
pub proof fn law_plan_asks_for_new_panes_alone(
    v: DomainView,
    window: TmuxWindowId,
    leaves: Seq<(TmuxPaneId, TmuxLayoutCell)>,
    k: int,
)
    requires
        0 <= k < planned(v, window, leaves).len(),
    ensures
        exists|i: int| #[trigger]
            is_new(v, leaves, i) && asks_for(
                planned(v, window, leaves)[k],
                window,
                leaves[i].0,
                leaves[i].1,
            ),
    decreases leaves.len(),
{
    let front = leaves.drop_last();
    let before = planned(v, window, front);
    if k < before.len() {
        law_plan_asks_for_new_panes_alone(v, window, front, k);
        let i = choose|i: int| #[trigger]
            is_new(v, front, i) && asks_for(before[k], window, front[i].0, front[i].1);
        assert forall|j: int| 0 <= j < i implies (#[trigger] leaves[j]).0 != leaves[i].0 by {
            assert(front[j] == leaves[j]);
        }
        assert(is_new(v, leaves, i));
    } else {
        let i = leaves.len() - 1;
        assert forall|j: int| 0 <= j < i implies (#[trigger] leaves[j]).0 != leaves[i].0 by {
            assert(ids_of(front)[j] == leaves[j].0);
        }
        assert(is_new(v, leaves, i));
    }
}

/// The commands that ask for the contents of the panes in the plan, in the plan's order.
pub open spec fn captures(plan: Seq<PaneItem>, history_limit: isize) -> Seq<TmuxCommand> {
    Seq::new(
        plan.len(),
        |k: int|
            TmuxCommand::CapturePane(CapturePane { pane_id: plan[k].pane_id, history_limit }),
    )
}

proof fn lemma_reconciled(
    v: DomainView,
    window: TmuxWindowId,
    leaves: Seq<(TmuxPaneId, TmuxLayoutCell)>,
    created: Seq<Option<PaneId>>,
    capture: Option<isize>,
)
    requires
        reconciled(v, window, leaves, created, capture).failed is None,
    ensures
        ({
            let r = reconciled(v, window, leaves, created, capture);
            let plan = planned(v, window, leaves);
            &&& forall|p: TmuxPaneId| #[trigger]
                r.view.panes.dom().contains(p) <==> v.panes.dom().contains(p) || ids_of(
                    leaves,
                ).contains(p)
            &&& forall|p: TmuxPaneId| #[trigger]
                v.panes.dom().contains(p) ==> r.view.panes[p] == v.panes[p]
            &&& r.newly.len() == plan.len() <= created.len()
            &&& forall|k: int|
                0 <= k < plan.len() ==> created[k] == Some(#[trigger] r.newly[k])
                    && r.view.panes[plan[k].pane_id] == (TmuxRemotePane {
                    local_pane_id: r.newly[k],
                    session_id: 0,
                    window_id: plan[k].window_id,
                    pane_id: plan[k].pane_id,
                    cursor_x: plan[k].cursor_x,
                    cursor_y: plan[k].cursor_y,
                    pane_width: plan[k].pane_width,
                    pane_height: plan[k].pane_height,
                    pane_left: plan[k].pane_left,
                    pane_top: plan[k].pane_top,
                })
        }),
    decreases leaves.len(),
{
    if leaves.len() > 0 {
        let front = leaves.drop_last();
        lemma_reconciled(v, window, front, created, capture);
        lemma_ids_pushed(leaves);
        lemma_plan_ids(v, window, leaves);
        lemma_plan_ids(v, window, front);
        let r = reconciled(v, window, leaves, created, capture);
        let f = reconciled(v, window, front, created, capture);
        let plan = planned(v, window, leaves);
        let before = planned(v, window, front);
        if !f.view.panes.dom().contains(leaves.last().0) {
            assert forall|k: int| 0 <= k < plan.len() implies created[k] == Some(
                #[trigger] r.newly[k],
            ) && r.view.panes[plan[k].pane_id] == (TmuxRemotePane {
                local_pane_id: r.newly[k],
                session_id: 0,
                window_id: plan[k].window_id,
                pane_id: plan[k].pane_id,
                cursor_x: plan[k].cursor_x,
                cursor_y: plan[k].cursor_y,
                pane_width: plan[k].pane_width,
                pane_height: plan[k].pane_height,
                pane_left: plan[k].pane_left,
                pane_top: plan[k].pane_top,
            }) by {
                if k < before.len() {
                    assert(plan[k] == before[k]);
                    assert(r.newly[k] == f.newly[k]);
                    assert(ids_of(front).contains(before[k].pane_id));
                }
            }
        }
    }
}

/// Once a layout is applied, the pane kept for each leaf that was new has the size and the
/// place of the leaf's cell, and its local pane is the one that was created for it; the panes
/// that were known are kept as they were.
pub proof fn law_applied_layout_keeps_the_cells(
    v: DomainView,
    window: TmuxWindowId,
    tree: LayoutTree,
    active_pane: Option<TmuxPaneId>,
    zoomed_pane: Option<TmuxPaneId>,
    capture_new: bool,
    facts: FactsView,
    i: int,
)
    requires
        layout_applied(v, window, tree, active_pane, zoomed_pane, capture_new, facts).result is Ok,
        is_new(v, tree.leaves(), i),
    ensures
        ({
            let after = layout_applied(
                v,
                window,
                tree,
                active_pane,
                zoomed_pane,
                capture_new,
                facts,
            ).view;
            let pane = tree.leaves()[i].0;
            &&& after.panes.dom().contains(pane)
            &&& stands_for(after.panes[pane], window, pane, tree.leaves()[i].1)
            &&& facts.created.contains(Some(after.panes[pane].local_pane_id))
            &&& forall|p: TmuxPaneId| #[trigger]
                v.panes.dom().contains(p) ==> after.panes.dom().contains(p) && after.panes[p]
                    == v.panes[p]
        }),
{
    let leaves = tree.leaves();
    let capture = if capture_new {
        Some(v.tabs[window].history_limit)
    } else {
        None
    };
    let r = reconciled(v, window, leaves, facts.created, capture);
    let plan = planned(v, window, leaves);
    lemma_reconciled(v, window, leaves, facts.created, capture);
    law_plan_asks_for_each_new_pane_once(v, window, leaves, i);
    let k = choose|k: int|
        0 <= k < plan.len() && asks_for(#[trigger] plan[k], window, leaves[i].0, leaves[i].1);
    assert(ids_of(leaves)[i] == leaves[i].0);
    assert(facts.created[k] == Some(r.newly[k]));
}

/// Capturing asks for the contents of every new pane, with the window's limit and in the plan's
/// order; without capturing nothing is asked for.
pub proof fn law_new_panes_are_captured(
    v: DomainView,
    window: TmuxWindowId,
    leaves: Seq<(TmuxPaneId, TmuxLayoutCell)>,
    created: Seq<Option<PaneId>>,
    history_limit: isize,
)
    requires
        reconciled(v, window, leaves, created, None).failed is None,
    ensures
        reconciled(v, window, leaves, created, None).view.queue == v.queue,
        reconciled(v, window, leaves, created, Some(history_limit)).view.queue == v.queue
            + captures(planned(v, window, leaves), history_limit),
        reconciled(v, window, leaves, created, Some(history_limit)).failed is None,
    decreases leaves.len(),
{
    if leaves.len() > 0 {
        let front = leaves.drop_last();
        law_new_panes_are_captured(v, window, front, created, history_limit);
        lemma_reconciled(v, window, front, created, None);
        lemma_reconciled(v, window, front, created, Some(history_limit));
        lemma_ids_pushed(leaves);
        let before = planned(v, window, front);
        let plan = planned(v, window, leaves);
        if plan.len() > before.len() {
            assert(captures(plan, history_limit) == captures(before, history_limit).push(
                captures(plan, history_limit).last(),
            ));
            assert(v.queue + captures(plan, history_limit) == (v.queue + captures(
                before,
                history_limit,
            )).push(captures(plan, history_limit).last()));
        }
    } else {
        assert(captures(planned(v, window, leaves), history_limit) == Seq::<TmuxCommand>::empty());
        assert(v.queue + Seq::<TmuxCommand>::empty() == v.queue);
    }
}

/// A new pane is added, and then written what tmux sent for it before it was known, once: the
/// output is no longer kept, and that of other panes is kept as it was.
pub proof fn law_new_pane_is_written_its_early_output(
    v: DomainView,
    item: PaneItem,
    local: PaneId,
    capture: Option<isize>,
)
    ensures
        ({
            let step = pane_created(v, item, local, capture);
            let n = step.actions.len() as int;
            &&& v.backlog.dom().contains(item.pane_id) ==> {
                &&& n >= 2
                &&& step.actions[n - 2] == (ActionView::AddPane { pane: local })
                &&& step.actions[n - 1] == (ActionView::WriteOutput {
                    pane: item.pane_id,
                    text: v.backlog[item.pane_id],
                })
            }
            &&& !v.backlog.dom().contains(item.pane_id) ==> {
                &&& n >= 1
                &&& step.actions[n - 1] == (ActionView::AddPane { pane: local })
            }
            &&& !step.view.backlog.dom().contains(item.pane_id)
            &&& forall|p: TmuxPaneId|
                p != item.pane_id ==> (#[trigger] step.view.backlog.dom().contains(p)
                    <==> v.backlog.dom().contains(p)) && (v.backlog.dom().contains(p)
                    ==> step.view.backlog[p] == v.backlog[p])
            &&& step.view.panes == v.panes.insert(item.pane_id, step.view.panes[item.pane_id])
            &&& step.view.panes[item.pane_id].local_pane_id == local
            &&& step.view.tabs == v.tabs && step.view.state == v.state && step.view.session
                == v.session && step.view.gui_window == v.gui_window
        }),
{
}

/// Early output and local panes survive a whole layout: each new pane is added and written what
/// was kept for it, and nothing is kept for it any more; what is kept for others stays.
pub proof fn law_layout_adds_each_new_pane(
    v: DomainView,
    window: TmuxWindowId,
    leaves: Seq<(TmuxPaneId, TmuxLayoutCell)>,
    created: Seq<Option<PaneId>>,
    capture: Option<isize>,
    k: int,
)
    requires
        reconciled(v, window, leaves, created, capture).failed is None,
        0 <= k < planned(v, window, leaves).len(),
    ensures
        ({
            let r = reconciled(v, window, leaves, created, capture);
            let pane = planned(v, window, leaves)[k].pane_id;
            &&& r.actions.contains(ActionView::AddPane { pane: created[k]->0 })
            &&& v.backlog.dom().contains(pane) ==> r.actions.contains(
                ActionView::WriteOutput { pane, text: v.backlog[pane] },
            )
            &&& !r.view.backlog.dom().contains(pane)
        }),
    decreases leaves.len(),
{
    let front = leaves.drop_last();
    let before = planned(v, window, front);
    let plan = planned(v, window, leaves);
    let f = reconciled(v, window, front, created, capture);
    let r = reconciled(v, window, leaves, created, capture);
    lemma_reconciled(v, window, front, created, capture);
    lemma_reconciled(v, window, leaves, created, capture);
    lemma_ids_pushed(leaves);
    lemma_plan_ids(v, window, leaves);
    lemma_plan_ids(v, window, front);
    lemma_backlog_of_others(v, window, front, created, capture);
    let leaf = leaves.last();
    if k < before.len() {
        law_layout_adds_each_new_pane(v, window, front, created, capture, k);
        assert(plan[k] == before[k]);
        let pane = plan[k].pane_id;
        let added = ActionView::AddPane { pane: created[k]->0 };
        let i = choose|i: int| 0 <= i < f.actions.len() && f.actions[i] == added;
        assert(r.actions[i] == added);
        if v.backlog.dom().contains(pane) {
            let written = ActionView::WriteOutput { pane, text: v.backlog[pane] };
            let j = choose|j: int| 0 <= j < f.actions.len() && f.actions[j] == written;
            assert(r.actions[j] == written);
        }
    } else {
        let local = created[k]->0;
        let item = plan[k];
        law_new_pane_is_written_its_early_output(f.view, item, local, capture);
        let step = pane_created(f.view, item, local, capture);
        let n = step.actions.len() as int;
        let m = f.actions.len() as int;
        assert(r.actions == f.actions + step.actions);
        assert(!ids_of(front).contains(item.pane_id));
        if v.backlog.dom().contains(item.pane_id) {
            assert(r.actions[m + n - 2] == step.actions[n - 2]);
            assert(r.actions[m + n - 1] == step.actions[n - 1]);
        } else {
            assert(r.actions[m + n - 1] == step.actions[n - 1]);
        }
    }
}

proof fn lemma_backlog_of_others(
    v: DomainView,
    window: TmuxWindowId,
    leaves: Seq<(TmuxPaneId, TmuxLayoutCell)>,
    created: Seq<Option<PaneId>>,
    capture: Option<isize>,
)
    ensures
        forall|p: TmuxPaneId|
            !ids_of(leaves).contains(p) ==> (#[trigger] reconciled(
                v,
                window,
                leaves,
                created,
                capture,
            ).view.backlog.dom().contains(p) <==> v.backlog.dom().contains(p)) && (
            v.backlog.dom().contains(p) ==> reconciled(
                v,
                window,
                leaves,
                created,
                capture,
            ).view.backlog[p] == v.backlog[p]),
    decreases leaves.len(),
{
    if leaves.len() > 0 {
        lemma_ids_pushed(leaves);
        lemma_backlog_of_others(v, window, leaves.drop_last(), created, capture);
    }
}

// ---------------------------------------------------------------------------
// Cursors
// ---------------------------------------------------------------------------

/// A pane that tmux lists is brought in line: early output is written only where the local
/// cursor is at the origin, with both its coordinates zero; anywhere else the cursor is set to
/// where tmux has it, unless tmux has it at the origin. The pane is focused if it is the active
/// one of its window, and no output is kept for it any more.
pub proof fn law_listed_pane_is_brought_in_line(
    v: DomainView,
    item: PaneItem,
    cursors: Map<PaneId, StableCursorPosition>,
)
    requires
        v.session == Some(item.session_id),
        v.tabs.dom().contains(item.window_id),
        v.tabs[item.window_id].panes.contains(item.pane_id),
        v.panes.dom().contains(item.pane_id),
        cursors.dom().contains(v.panes[item.pane_id].local_pane_id),
    ensures
        ({
            let local = v.panes[item.pane_id].local_pane_id;
            let at_origin = cursors[local].x == 0 && cursors[local].y == 0;
            let tmux_at_origin = item.cursor_x == 0 && item.cursor_y == 0;
            let step = pane_synced(v, item, cursors);
            let set = ActionView::SetCursor {
                pane: local,
                x: item.cursor_x as usize,
                y: item.cursor_y as usize,
            };
            let written = ActionView::WriteOutput {
                pane: item.pane_id,
                text: v.backlog[item.pane_id],
            };
            let focused = ActionView::FocusPane {
                tab: v.tabs[item.window_id].tab_id,
                pane: local,
                notify: true,
            };
            &&& step.actions.contains(set) <==> !at_origin && !tmux_at_origin
            &&& step.actions.contains(written) <==> at_origin && v.backlog.dom().contains(
                item.pane_id,
            )
            &&& step.actions.contains(focused) <==> item.pane_active
            &&& forall|i: int|
                0 <= i < step.actions.len() ==> {
                    let action = #[trigger] step.actions[i];
                    action == set || action == written || action == focused
                }
            &&& step.actions.no_duplicates()
            &&& !step.view.backlog.dom().contains(item.pane_id)
            &&& step.view.panes == v.panes
            &&& step.view.queue == v.queue
            &&& step.view.tabs[item.window_id].active_pane == if item.pane_active {
                Some(item.pane_id)
            } else {
                v.tabs[item.window_id].active_pane
            }
            &&& step.view.tabs[item.window_id].panes == v.tabs[item.window_id].panes
            &&& step.view.tabs[item.window_id].tab_id == v.tabs[item.window_id].tab_id
            &&& forall|w: TmuxWindowId|
                w != item.window_id ==> (#[trigger] step.view.tabs.dom().contains(w)
                    <==> v.tabs.dom().contains(w)) && step.view.tabs[w] == v.tabs[w]
        }),
{
    let local = v.panes[item.pane_id].local_pane_id;
    let step = pane_synced(v, item, cursors);
    let n = step.actions.len();
    if n > 0 {
        assert(step.actions.contains(step.actions[0]));
    }
    if n > 1 {
        assert(step.actions.contains(step.actions[1]));
    }
}

/// A pane that tmux lists is left alone where it belongs to another session, is not attached to
/// its window, is not known, or has no local pane.
pub proof fn law_other_listed_panes_are_left_alone(
    v: DomainView,
    item: PaneItem,
    cursors: Map<PaneId, StableCursorPosition>,
)
    requires
        v.session != Some(item.session_id) || !v.tabs.dom().contains(item.window_id)
            || !v.tabs[item.window_id].panes.contains(item.pane_id) || !v.panes.dom().contains(
            item.pane_id,
        ) || !cursors.dom().contains(v.panes[item.pane_id].local_pane_id),
    ensures
        pane_synced(v, item, cursors).view == v,
        pane_synced(v, item, cursors).actions.len() == 0,
{
}

/// The panes of a list are brought in line one after the other.
pub proof fn law_listed_panes_are_taken_in_order(
    v: DomainView,
    first: Seq<PaneItem>,
    second: Seq<PaneItem>,
    cursors: Map<PaneId, StableCursorPosition>,
    item: PaneItem,
)
    ensures
        ({
            let front = panes_synced(v, first, cursors);
            let back = panes_synced(front.view, second, cursors);
            let whole = panes_synced(v, first + second, cursors);
            whole.view == back.view && whole.actions == front.actions + back.actions
        }),
        panes_synced(v, seq![item], cursors) == pane_synced(v, item, cursors),
    decreases second.len(),
{
    let nothing = Seq::<PaneItem>::empty();
    assert(panes_synced(v, nothing, cursors) == stays(v));
    assert(seq![item].drop_last() == nothing);
    assert(Seq::<ActionView>::empty() + pane_synced(v, item, cursors).actions == pane_synced(
        v,
        item,
        cursors,
    ).actions);
    let front = panes_synced(v, first, cursors);
    if second.len() == 0 {
        assert(first + second == first);
        assert(front.actions + Seq::<ActionView>::empty() == front.actions);
    } else {
        law_listed_panes_are_taken_in_order(v, first, second.drop_last(), cursors, item);
        assert((first + second).drop_last() == first + second.drop_last());
        assert((first + second).last() == second.last());
        let mid = panes_synced(front.view, second.drop_last(), cursors);
        let last = pane_synced(mid.view, second.last(), cursors);
        assert(front.actions + mid.actions + last.actions == front.actions + (mid.actions
            + last.actions));
    }
}

// ---------------------------------------------------------------------------
// Layouts
// ---------------------------------------------------------------------------

/// A layout for a window without a tab, or whose tab is gone, fails and changes nothing; without
/// a window to show the tabs in no layout is applied.
pub proof fn law_layout_needs_its_tab(
    v: DomainView,
    window: TmuxWindowId,
    tree: LayoutTree,
    active_pane: Option<TmuxPaneId>,
    zoomed_pane: Option<TmuxPaneId>,
    capture_new: bool,
    facts: FactsView,
)
    ensures
        ({
            let outcome = layout_applied(
                v,
                window,
                tree,
                active_pane,
                zoomed_pane,
                capture_new,
                facts,
            );
            &&& !v.tabs.dom().contains(window) ==> {
                &&& outcome.result == Err::<(), TmuxError>(TmuxError::NoLocalTab(window))
                &&& outcome.view == v
                &&& outcome.actions.len() == 0
            }
            &&& v.tabs.dom().contains(window) && !facts.tab_exists ==> {
                &&& outcome.result == Err::<(), TmuxError>(
                    TmuxError::LocalTabGone(v.tabs[window].tab_id),
                )
                &&& outcome.view == v
                &&& outcome.actions.len() == 0
            }
            &&& v.gui_window is None ==> outcome.result is Err
        }),
{
    let capture = if capture_new {
        Some(v.tabs[window].history_limit)
    } else {
        None
    };
    lemma_reconcile_keeps(v, window, tree.leaves(), facts.created, capture);
}

proof fn lemma_creation_fails(
    v: DomainView,
    window: TmuxWindowId,
    leaves: Seq<(TmuxPaneId, TmuxLayoutCell)>,
    created: Seq<Option<PaneId>>,
    capture: Option<isize>,
    k: int,
)
    requires
        0 <= k < planned(v, window, leaves).len(),
        k <= created.len(),
        forall|j: int| 0 <= j < k ==> (#[trigger] created[j]) is Some,
        k == created.len() || created[k] is None,
    ensures
        reconciled(v, window, leaves, created, capture).failed == Some(
            planned(v, window, leaves)[k].pane_id,
        ),
        reconciled(v, window, leaves, created, capture).newly.len() == k,
    decreases leaves.len(),
{
    let front = leaves.drop_last();
    let before = planned(v, window, front);
    let f = reconciled(v, window, front, created, capture);
    lemma_ids_pushed(leaves);
    if k < before.len() {
        lemma_creation_fails(v, window, front, created, capture, k);
    } else {
        lemma_creation_holds(v, window, front, created, capture);
        lemma_reconciled(v, window, front, created, capture);
    }
}

proof fn lemma_creation_holds(
    v: DomainView,
    window: TmuxWindowId,
    leaves: Seq<(TmuxPaneId, TmuxLayoutCell)>,
    created: Seq<Option<PaneId>>,
    capture: Option<isize>,
)
    requires
        planned(v, window, leaves).len() <= created.len(),
        forall|j: int|
            0 <= j < planned(v, window, leaves).len() ==> (#[trigger] created[j]) is Some,
    ensures
        reconciled(v, window, leaves, created, capture).failed is None,
    decreases leaves.len(),
{
    if leaves.len() > 0 {
        let front = leaves.drop_last();
        lemma_ids_pushed(leaves);
        lemma_creation_holds(v, window, front, created, capture);
        lemma_reconciled(v, window, front, created, capture);
        let n = planned(v, window, front).len() as int;
        if planned(v, window, leaves).len() > n {
            assert(created[n] is Some);
        }
    }
}

/// The first pane of the plan that was not created fails the layout.
pub proof fn law_layout_fails_at_the_first_pane_not_created(
    v: DomainView,
    window: TmuxWindowId,
    tree: LayoutTree,
    active_pane: Option<TmuxPaneId>,
    zoomed_pane: Option<TmuxPaneId>,
    capture_new: bool,
    facts: FactsView,
    k: int,
)
    requires
        v.tabs.dom().contains(window),
        facts.tab_exists,
        0 <= k < planned(v, window, tree.leaves()).len(),
        k <= facts.created.len(),
        forall|j: int| 0 <= j < k ==> (#[trigger] facts.created[j]) is Some,
        k == facts.created.len() || facts.created[k] is None,
    ensures
        layout_applied(v, window, tree, active_pane, zoomed_pane, capture_new, facts).result
            == Err::<(), TmuxError>(
            TmuxError::PaneCreationFailed(planned(v, window, tree.leaves())[k].pane_id),
        ),
{
    let capture = if capture_new {
        Some(v.tabs[window].history_limit)
    } else {
        None
    };
    lemma_creation_fails(v, window, tree.leaves(), facts.created, capture, k);
}

proof fn lemma_first_missing(
    v: DomainView,
    leaves: Seq<(TmuxPaneId, TmuxLayoutCell)>,
    live: Seq<PaneId>,
    i: int,
)
    requires
        0 <= i < leaves.len(),
        forall|j: int| 0 <= j < leaves.len() ==> v.panes.dom().contains((#[trigger] leaves[j]).0),
        forall|j: int|
            0 <= j < i ==> live.contains(v.panes[(#[trigger] leaves[j]).0].local_pane_id),
        !live.contains(v.panes[leaves[i].0].local_pane_id),
    ensures
        missing(v, leaves, live) == Some(
            TmuxError::LocalPaneMissing(v.panes[leaves[i].0].local_pane_id),
        ),
    decreases leaves.len(),
{
    let front = leaves.drop_last();
    assert forall|j: int| 0 <= j < front.len() implies v.panes.dom().contains(
        (#[trigger] front[j]).0,
    ) by {
        assert(front[j] == leaves[j]);
    }
    if i < leaves.len() - 1 {
        assert forall|j: int| 0 <= j < i implies live.contains(
            v.panes[(#[trigger] front[j]).0].local_pane_id,
        ) by {
            assert(front[j] == leaves[j]);
        }
        assert(front[i] == leaves[i]);
        lemma_first_missing(v, front, live, i);
    } else {
        assert forall|j: int| 0 <= j < front.len() implies v.panes.dom().contains(
            (#[trigger] front[j]).0,
        ) && live.contains(v.panes[front[j].0].local_pane_id) by {
            assert(front[j] == leaves[j]);
        }
        lemma_nothing_is_missing(v, front, live);
        assert(leaves[leaves.len() - 1] == leaves.last());
    }
}

/// Where all panes are known but the local pane of one is gone, the first such pane fails the
/// layout, and nothing changes.
pub proof fn law_layout_fails_at_the_first_pane_gone(
    v: DomainView,
    window: TmuxWindowId,
    tree: LayoutTree,
    active_pane: Option<TmuxPaneId>,
    zoomed_pane: Option<TmuxPaneId>,
    capture_new: bool,
    facts: FactsView,
    i: int,
)
    requires
        v.tabs.dom().contains(window),
        facts.tab_exists,
        ({
            let leaves = tree.leaves();
            &&& 0 <= i < leaves.len()
            &&& forall|j: int|
                0 <= j < leaves.len() ==> v.panes.dom().contains((#[trigger] leaves[j]).0)
            &&& forall|j: int|
                0 <= j < i ==> facts.live.contains(v.panes[(#[trigger] leaves[j]).0].local_pane_id)
            &&& !facts.live.contains(v.panes[leaves[i].0].local_pane_id)
        }),
    ensures
        ({
            let outcome = layout_applied(
                v,
                window,
                tree,
                active_pane,
                zoomed_pane,
                capture_new,
                facts,
            );
            &&& outcome.result == Err::<(), TmuxError>(
                TmuxError::LocalPaneMissing(v.panes[tree.leaves()[i].0].local_pane_id),
            )
            &&& outcome.view == v
            &&& outcome.actions.len() == 0
        }),
{
    let capture = if capture_new {
        Some(v.tabs[window].history_limit)
    } else {
        None
    };
    lemma_nothing_to_reconcile(v, window, tree.leaves(), facts.created, capture);
    lemma_first_missing(v, tree.leaves(), facts.live, i);
}

/// Whether a size in pixels is that of its cells in a window of these dimensions, wherever it is
/// no larger than a number can be, and has the resolution of the window.
pub open spec fn is_scaled(size: TerminalSize, dimensions: Option<RenderableDimensions>) -> bool {
    match dimensions {
        Some(d) => {
            &&& size.dpi == d.dpi
            &&& d.cols > 0 && size.cols * (d.pixel_width / d.cols) <= usize::MAX
                ==> size.pixel_width == size.cols * (d.pixel_width / d.cols)
            &&& d.viewport_rows > 0 && size.rows * (d.pixel_height / d.viewport_rows) <= usize::MAX
                ==> size.pixel_height == size.rows * (d.pixel_height / d.viewport_rows)
        },
        None => size.dpi == 0 && size.pixel_width == 0 && size.pixel_height == 0,
    }
}

proof fn lemma_scaled(
    ctx: ContextView,
    cell: TmuxLayoutCell,
    dimensions: Option<RenderableDimensions>,
)
    requires
        ctx.dpi == dpi_of(dimensions),
        ctx.cell_pixel_width == cell_pixels(dimensions).width,
        ctx.cell_pixel_height == cell_pixels(dimensions).height,
    ensures
        is_scaled(size_of(ctx, cell), dimensions),
{
    let size = size_of(ctx, cell);
    assert(size.cols * 0 == 0 && size.rows * 0 == 0);
    if let Some(d) = dimensions {
        if d.cols > 0 {
            lemma_quotient(d.pixel_width as int, d.cols as int);
            lemma_product(size.cols as int, (d.pixel_width / d.cols) as int);
        }
        if d.viewport_rows > 0 {
            lemma_quotient(d.pixel_height as int, d.viewport_rows as int);
            lemma_product(size.rows as int, (d.pixel_height / d.viewport_rows) as int);
        }
    }
}

proof fn lemma_product(a: int, b: int)
    by (nonlinear_arith)
    requires
        a >= 0,
        b >= 0,
    ensures
        a * b >= 0,
{
}

/// A layout that is applied is shown in its tab, as large as the layout says, with one entry for
/// each leaf in order: the local pane that is kept for it, as large as its cell, active or zoomed
/// where tmux has it so, in the window that shows the tabs.
pub proof fn law_applied_layout_is_shown(
    v: DomainView,
    window: TmuxWindowId,
    tree: LayoutTree,
    active_pane: Option<TmuxPaneId>,
    zoomed_pane: Option<TmuxPaneId>,
    capture_new: bool,
    facts: FactsView,
)
    requires
        layout_applied(v, window, tree, active_pane, zoomed_pane, capture_new, facts).result is Ok,
    ensures
        ({
            let outcome = layout_applied(
                v,
                window,
                tree,
                active_pane,
                zoomed_pane,
                capture_new,
                facts,
            );
            exists|n: int|
                0 <= n < outcome.actions.len() && (
                #[trigger] outcome.actions[n] matches ActionView::SyncPaneTree { tab, size, root }
                    && {
                    &&& tab == v.tabs[window].tab_id
                    &&& size.cols == tree.cell().width as usize
                    &&& size.rows == tree.cell().height as usize
                    &&& is_scaled(size, facts.dimensions)
                    &&& entries(root).len() == tree.leaves().len()
                    &&& forall|i: int|
                        0 <= i < tree.leaves().len() ==> {
                            let entry = #[trigger] entries(root)[i];
                            let (pane, cell) = tree.leaves()[i];
                            &&& entry.pane_id == outcome.view.panes[pane].local_pane_id
                            &&& entry.size.cols == cell.width as usize
                            &&& entry.size.rows == cell.height as usize
                            &&& is_scaled(entry.size, facts.dimensions)
                            &&& entry.is_active_pane <==> active_pane == Some(pane)
                            &&& entry.is_zoomed_pane <==> zoomed_pane == Some(pane)
                            &&& Some(entry.window_id) == v.gui_window
                            &&& entry.tab_id == tab
                            &&& entry.workspace == facts.workspace
                        }
                })
        }),
{
    let leaves = tree.leaves();
    let capture = if capture_new {
        Some(v.tabs[window].history_limit)
    } else {
        None
    };
    let r = reconciled(v, window, leaves, facts.created, capture);
    lemma_reconcile_keeps(v, window, leaves, facts.created, capture);
    let gui_window = v.gui_window->0;
    let ctx = context_of(r.view, window, gui_window, tree, active_pane, zoomed_pane, facts);
    law_tree_shows_each_pane(tree, ctx);
    let outcome = layout_applied(v, window, tree, active_pane, zoomed_pane, capture_new, facts);
    let n = r.actions.len() as int;
    let root = node_of(tree, ctx);
    assert(outcome.actions[n] == (ActionView::SyncPaneTree {
        tab: v.tabs[window].tab_id,
        size: size_of(ctx, tree.cell()),
        root,
    }));
    lemma_scaled(ctx, tree.cell(), facts.dimensions);
    assert forall|i: int| 0 <= i < leaves.len() implies ({
        let entry = #[trigger] entries(root)[i];
        &&& is_scaled(entry.size, facts.dimensions)
        &&& entry.pane_id == outcome.view.panes[leaves[i].0].local_pane_id
        &&& Some(entry.window_id) == v.gui_window
    }) by {
        assert(ids_of(leaves)[i] == leaves[i].0);
        assert(ids_of(leaves).contains(leaves[i].0));
        assert(entries(root)[i].size == size_of(ctx, leaves[i].1));
        lemma_scaled(ctx, leaves[i].1, facts.dimensions);
    }
}

/// An applied layout has a live local pane for each leaf. It notes its panes in the tab of its
/// window, in order, and changes nothing else of that tab, no other tab, and nothing but the
/// panes, what is kept for them, the commands, the splits that wait and the prune.
pub proof fn law_applied_layout_changes_no_more(
    v: DomainView,
    window: TmuxWindowId,
    tree: LayoutTree,
    active_pane: Option<TmuxPaneId>,
    zoomed_pane: Option<TmuxPaneId>,
    capture_new: bool,
    facts: FactsView,
)
    requires
        layout_applied(v, window, tree, active_pane, zoomed_pane, capture_new, facts).result is Ok,
    ensures
        ({
            let outcome = layout_applied(
                v,
                window,
                tree,
                active_pane,
                zoomed_pane,
                capture_new,
                facts,
            );
            let after = outcome.view;
            &&& after.tabs[window] == (TabView { panes: tree.pane_ids(), ..v.tabs[window] })
            &&& after.tabs == v.tabs.insert(window, after.tabs[window])
            &&& after.prune_pending
            &&& after == (DomainView {
                tabs: after.tabs,
                panes: after.panes,
                backlog: after.backlog,
                queue: after.queue,
                pending_splits: after.pending_splits,
                prune_pending: true,
                ..v
            })
            &&& !v.prune_pending ==> outcome.actions.last() == (ActionView::SchedulePrune {
                domain_id: v.domain_id,
            })
            &&& forall|i: int|
                0 <= i < tree.leaves().len() ==> facts.live.contains(
                    after.panes[(#[trigger] tree.leaves()[i]).0].local_pane_id,
                )
        }),
{
    let capture = if capture_new {
        Some(v.tabs[window].history_limit)
    } else {
        None
    };
    lemma_reconcile_keeps(v, window, tree.leaves(), facts.created, capture);
    let r = reconciled(v, window, tree.leaves(), facts.created, capture);
    lemma_all_live(r.view, tree.leaves(), facts.live);
}

proof fn lemma_all_live(
    v: DomainView,
    leaves: Seq<(TmuxPaneId, TmuxLayoutCell)>,
    live: Seq<PaneId>,
)
    requires
        missing(v, leaves, live) is None,
    ensures
        forall|i: int|
            0 <= i < leaves.len() ==> live.contains(
                v.panes[(#[trigger] leaves[i]).0].local_pane_id,
            ),
    decreases leaves.len(),
{
    if leaves.len() > 0 {
        let front = leaves.drop_last();
        lemma_all_live(v, front, live);
        assert forall|i: int| 0 <= i < leaves.len() implies live.contains(
            v.panes[(#[trigger] leaves[i]).0].local_pane_id,
        ) by {
            if i < front.len() {
                assert(front[i] == leaves[i]);
            }
        }
    }
}

/// Splits that wait for their panes get them in turn: the longest waiting split gets the first
/// new pane, and so on while there are both; the others go on waiting.
pub proof fn law_splits_get_their_panes_in_turn(v: DomainView, newly: Seq<PaneId>)
    ensures
        ({
            let step = splits_resolved(v, newly);
            let n = step.actions.len() as int;
            &&& n == v.pending_splits.len() || n == newly.len()
            &&& n <= v.pending_splits.len() && n <= newly.len()
            &&& forall|i: int|
                0 <= i < n ==> #[trigger] step.actions[i] == (ActionView::ResolveSplit {
                    ticket: v.pending_splits[i],
                    pane: newly[i],
                })
            &&& step.view.pending_splits == v.pending_splits.subrange(
                n,
                v.pending_splits.len() as int,
            )
            &&& step.view == (DomainView { pending_splits: step.view.pending_splits, ..v })
        }),
{
}

/// A layout that changed resolves the splits that wait with its new panes; one that is captured
/// resolves none.
pub proof fn law_changed_layout_resolves_splits(
    v: DomainView,
    window: TmuxWindowId,
    tree: LayoutTree,
    active_pane: Option<TmuxPaneId>,
    zoomed_pane: Option<TmuxPaneId>,
    facts: FactsView,
    k: int,
)
    requires
        layout_applied(v, window, tree, active_pane, zoomed_pane, false, facts).result is Ok,
        layout_applied(v, window, tree, active_pane, zoomed_pane, true, facts).result is Ok,
        0 <= k < v.pending_splits.len(),
    ensures
        ({
            let changed = layout_applied(
                v,
                window,
                tree,
                active_pane,
                zoomed_pane,
                false,
                facts,
            );
            let seen = layout_applied(v, window, tree, active_pane, zoomed_pane, true, facts);
            let plan = planned(v, window, tree.leaves());
            &&& seen.view.pending_splits == v.pending_splits
            &&& k < plan.len() ==> changed.actions.contains(
                ActionView::ResolveSplit {
                    ticket: v.pending_splits[k],
                    pane: facts.created[k]->0,
                },
            )
            &&& changed.view.pending_splits == v.pending_splits.skip(
                if plan.len() < v.pending_splits.len() {
                    plan.len() as int
                } else {
                    v.pending_splits.len() as int
                },
            )
            &&& changed.view.queue == v.queue
            &&& seen.view.queue == v.queue + captures(plan, v.tabs[window].history_limit)
        }),
{
    let leaves = tree.leaves();
    let plan = planned(v, window, leaves);
    let limit = v.tabs[window].history_limit;
    let r = reconciled(v, window, leaves, facts.created, None);
    lemma_reconcile_keeps(v, window, leaves, facts.created, None);
    lemma_reconcile_keeps(v, window, leaves, facts.created, Some(limit));
    lemma_reconciled(v, window, leaves, facts.created, None);
    law_new_panes_are_captured(v, window, leaves, facts.created, limit);
    let changed = layout_applied(v, window, tree, active_pane, zoomed_pane, false, facts);
    let noted = with_panes(r.view, window, tree.pane_ids());
    let told = splits_resolved(noted, r.newly);
    if k < plan.len() {
        let n = r.actions.len() as int + 1 + k;
        assert(told.actions[k] == (ActionView::ResolveSplit {
            ticket: v.pending_splits[k],
            pane: r.newly[k],
        }));
        assert(facts.created[k] == Some(r.newly[k]));
        assert(changed.actions[n] == told.actions[k]);
    }
}

/// The flags of a window say that it is zoomed where there is a `Z` among them.
pub proof fn law_zoom_is_flagged(flags: Seq<char>)
    ensures
        is_zoomed(flags) <==> flags.contains('Z'),
{
    lemma_until_char(flags, 'Z');
    if flags.contains('Z') {
        let i = choose|i: int| 0 <= i < flags.len() && flags[i] == 'Z';
        assert(i >= until_char(flags, 'Z'));
    }
    if is_zoomed(flags) {
        assert(flags[until_char(flags, 'Z') as int] == 'Z');
    }
}

/// The zoomed pane is the only one that is visible, or else the active one, where the flags say
/// that the window is zoomed; without flags, or without the zoom among them, there is none.
pub proof fn law_zoomed_pane_is_the_visible_one(
    cell: TmuxLayoutCell,
    pane_id: TmuxPaneId,
    split: LayoutTree,
    flags: Seq<char>,
    active: Option<TmuxPaneId>,
)
    requires
        split is Split,
        alternates(split),
    ensures
        ({
            let sole = Some(layout_text(LayoutTree::Leaf { cell, pane_id }));
            let several = Some(layout_text(split));
            &&& zoomed_after_change(sole, None, active) is None
            &&& zoomed_after_change(None, None, active) is None
            &&& flags.contains('Z') ==> {
                &&& zoomed_after_change(sole, Some(flags), active) == Some(pane_id)
                &&& zoomed_after_change(several, Some(flags), active) == active
                &&& zoomed_after_change(None, Some(flags), active) == active
            }
            &&& !flags.contains('Z') ==> {
                &&& zoomed_after_change(sole, Some(flags), active) is None
                &&& zoomed_after_change(several, Some(flags), active) is None
                &&& zoomed_after_change(None, Some(flags), active) is None
            }
            &&& sole_pane(layout_text(LayoutTree::Leaf { cell, pane_id })) == Some(pane_id)
            &&& sole_pane(layout_text(split)) is None
        }),
{
    law_zoom_is_flagged(flags);
    let checksum = seq!['0', '0', '0', '0'];
    law_layout_directions_alternate(
        Seq::empty(),
        LayoutTree::Leaf { cell, pane_id },
        checksum,
        seq!['x'],
    );
    law_layout_directions_alternate(Seq::empty(), split, checksum, seq!['x']);
}

/// A changed layout of a window without a tab is let pass; text that is no layout fails; any
/// other is applied with the active pane that was noted for the window and the zoomed pane that
/// the announcement tells, and nothing is captured.
pub proof fn law_changed_layout_is_applied(
    v: DomainView,
    window: TmuxWindowId,
    layout: Seq<char>,
    visible: Option<Seq<char>>,
    flags: Option<Seq<char>>,
    facts: FactsView,
)
    ensures
        ({
            let outcome = layout_changed(v, window, layout, visible, flags, facts);
            let active = v.tabs[window].active_pane;
            &&& !v.tabs.dom().contains(window) ==> {
                &&& outcome.result is Ok
                &&& outcome.view == v
                &&& outcome.actions.len() == 0
            }
            &&& v.tabs.dom().contains(window) ==> match layout_of(layout) {
                Some(tree) => outcome == layout_applied(
                    v,
                    window,
                    tree,
                    active,
                    zoomed_after_change(visible, flags, active),
                    false,
                    facts,
                ),
                None => {
                    &&& outcome.result == Err::<(), TmuxError>(TmuxError::InvalidLayout)
                    &&& outcome.view == v
                    &&& outcome.actions.len() == 0
                },
            }
        }),
{
}

// ---------------------------------------------------------------------------
// Windows
// ---------------------------------------------------------------------------

/// A window that is listed gets its name for the title of its tab and its limit for the history;
/// a tab that is new begins without panes, and one that was there keeps them.
pub proof fn law_listed_window_has_a_tab(v: DomainView, window: WindowView, new_tab: TabId)
    ensures
        ({
            let step = tab_ensured(v, window, new_tab);
            let id = window.window_id;
            let tab = step.view.tabs[id];
            &&& step.view.tabs.dom().contains(id)
            &&& tab.history_limit == window.history_limit
            &&& step.view == (DomainView { tabs: v.tabs.insert(id, tab), ..v })
            &&& step.actions.len() > 0
            &&& step.actions[0] == (ActionView::SetTabTitle {
                tab: tab.tab_id,
                title: window.window_name,
            })
            &&& v.tabs.dom().contains(id) ==> {
                &&& step.actions.len() == 1
                &&& tab.tab_id == v.tabs[id].tab_id
                &&& tab.tmux_window_id == v.tabs[id].tmux_window_id
                &&& tab.panes == v.tabs[id].panes
                &&& tab.active_pane == v.tabs[id].active_pane
            }
            &&& !v.tabs.dom().contains(id) ==> {
                &&& step.actions.len() == 2
                &&& step.actions[1] == (ActionView::AddTab { tab: new_tab })
                &&& tab.tab_id == new_tab
                &&& tab.tmux_window_id == id
                &&& tab.panes.len() == 0
                &&& tab.active_pane is None
            }
        }),
{
}

/// A window of another session, or whose layout is no layout, is let pass. Any other ends up in
/// its tab; a tab that is new is linked, last of all, into the window that shows the tabs, if the
/// layout could be applied, and no other tab is.
pub proof fn law_new_tab_is_linked(
    v: DomainView,
    window: WindowView,
    new_window: bool,
    new_tab: TabId,
    facts: FactsView,
)
    ensures
        ({
            let outcome = window_synced(v, window, new_window, new_tab, facts);
            let concerned = v.session == Some(window.session_id) && layout_of(window.window_layout)
                is Some;
            let known = v.tabs.dom().contains(window.window_id);
            &&& !concerned ==> {
                &&& outcome.result is Ok
                &&& outcome.view == v
                &&& outcome.actions.len() == 0
            }
            &&& concerned && outcome.result is Ok && !known ==> outcome.actions.len() > 0
                && v.gui_window is Some && outcome.actions.last() == (ActionView::AddTabToWindow {
                tab: new_tab,
                window: v.gui_window->0,
            })
            &&& concerned ==> outcome.view.tabs.dom().contains(window.window_id)
            &&& concerned ==> outcome.view.tabs[window.window_id].history_limit
                == window.history_limit
            &&& concerned ==> outcome.view.tabs[window.window_id].tab_id == if known {
                v.tabs[window.window_id].tab_id
            } else {
                new_tab
            }
            &&& concerned ==> outcome.actions.len() > 0 && outcome.actions[0] == (
            ActionView::SetTabTitle {
                tab: outcome.view.tabs[window.window_id].tab_id,
                title: window.window_name,
            })
        }),
{
    if is_synced(v, window) {
        let tree = layout_of(window.window_layout)->0;
        let ensured = tab_ensured(v, window, new_tab);
        let tab = ensured.view.tabs[window.window_id];
        let capture = if !new_window {
            Some(tab.history_limit)
        } else {
            None
        };
        lemma_reconcile_keeps(
            ensured.view,
            window.window_id,
            tree.leaves(),
            facts.created,
            capture,
        );
    }
}

/// A listed window is applied with the active pane that was noted for it, and with the zoomed
/// pane that is visible alone where its flags say so; the contents of its new panes are asked for
/// unless the window itself is new.
pub proof fn law_listed_window_is_applied(
    v: DomainView,
    window: WindowView,
    new_window: bool,
    new_tab: TabId,
    facts: FactsView,
    tree: LayoutTree,
)
    requires
        v.session == Some(window.session_id),
        layout_of(window.window_layout) == Some(tree),
    ensures
        ({
            let outcome = window_synced(v, window, new_window, new_tab, facts);
            let ensured = tab_ensured(v, window, new_tab);
            let applied = layout_applied(
                ensured.view,
                window.window_id,
                tree,
                if v.tabs.dom().contains(window.window_id) {
                    v.tabs[window.window_id].active_pane
                } else {
                    None
                },
                if window.window_raw_flags.contains('Z') {
                    sole_pane(window.window_visible_layout)
                } else {
                    None
                },
                !new_window,
                facts,
            );
            let n = (ensured.actions + applied.actions).len() as int;
            &&& outcome.result == applied.result
            &&& outcome.view == applied.view
            &&& outcome.actions.take(n) == ensured.actions + applied.actions
            &&& v.tabs.dom().contains(window.window_id) || applied.result is Err
                ==> outcome.actions.len() == n
            &&& new_window && applied.result is Ok ==> outcome.view.queue == v.queue
        }),
{
    law_zoom_is_flagged(window.window_raw_flags);
    let outcome = window_synced(v, window, new_window, new_tab, facts);
    let ensured = tab_ensured(v, window, new_tab);
    if new_window && outcome.result is Ok {
        law_new_panes_are_captured(
            ensured.view,
            window.window_id,
            tree.leaves(),
            facts.created,
            0,
        );
    }
}

/// The panes of a window that is not active are asked for once it is shown, behind whatever
/// waits; those of the active one are not, at that point.
pub proof fn law_inactive_windows_are_asked_at_once(v: DomainView, window: WindowView)
    requires
        v.session == Some(window.session_id),
        layout_of(window.window_layout) is Some,
    ensures
        window.window_active ==> window_backfilled(v, window) == v,
        !window.window_active ==> window_backfilled(v, window) == (DomainView {
            queue: v.queue.push(
                TmuxCommand::ListAllPanes(ListAllPanes { window_id: window.window_id }),
            ),
            ..v
        }),
{
}

/// The active window of a list is the first that is active.
pub proof fn law_first_active_window(windows: Seq<WindowView>)
    ensures
        match active_among(windows) {
            Some(window) => exists|i: int|
                0 <= i < windows.len() && #[trigger] windows[i] == window && window.window_active
                    && forall|j: int| 0 <= j < i ==> !(#[trigger] windows[j]).window_active,
            None => forall|i: int|
                0 <= i < windows.len() ==> !(#[trigger] windows[i]).window_active,
        },
    decreases windows.len(),
{
    if windows.len() > 0 && !windows[0].window_active {
        let rest = windows.skip(1);
        law_first_active_window(rest);
        match active_among(rest) {
            Some(window) => {
                let i = choose|i: int|
                    0 <= i < rest.len() && #[trigger] rest[i] == window && forall|j: int|
                        0 <= j < i ==> !(#[trigger] rest[j]).window_active;
                assert(windows[i + 1] == window);
                assert forall|j: int| 0 <= j < i + 1 implies !(
                #[trigger] windows[j]).window_active by {
                    if j > 0 {
                        assert(rest[j - 1] == windows[j]);
                    }
                }
            },
            None => {
                assert forall|i: int| 0 <= i < windows.len() implies !(
                #[trigger] windows[i]).window_active by {
                    if i > 0 {
                        assert(rest[i - 1] == windows[i]);
                    }
                }
            },
        }
    } else if windows.len() > 0 {
        assert(windows[0].window_active);
    }
}

/// Behind a list of windows the sending is scheduled, where there is a session, and the end of
/// the attaching is asked for where it has not ended; nothing else changes.
pub proof fn law_list_ends_with_sending(v: DomainView, windows: Seq<WindowView>)
    ensures
        ({
            let step = windows_listed(v, windows);
            &&& v.session is None ==> step == stays(v)
            &&& v.session is Some ==> {
                &&& step.actions == seq![ActionView::ScheduleSend { domain_id: v.domain_id }]
                &&& step.view == (DomainView { queue: step.view.queue, ..v })
                &&& v.attach_state == AttachState::Init ==> step.view.queue.last()
                    == TmuxCommand::AttachDone(AttachDone)
                &&& active_among(windows) is None && v.attach_state == AttachState::Done
                    ==> step.view.queue == v.queue
                &&& active_among(windows) is None && v.attach_state == AttachState::Init
                    ==> step.view.queue == v.queue.push(TmuxCommand::AttachDone(AttachDone))
            }
        }),
{
}

/// The plan for a window asks for a tab where the window has none, as wide and as high as the
/// window, and for the panes of its layout that are not known.
pub proof fn law_window_plan_asks_for_what_is_missing(v: DomainView, window: WindowView)
    requires
        layout_of(window.window_layout) is Some,
    ensures
        ({
            let plan = window_plan(v, window);
            &&& plan.new_tab <==> !v.tabs.dom().contains(window.window_id)
            &&& plan.size.cols == window.window_width as usize
            &&& plan.size.rows == window.window_height as usize
            &&& plan.size.pixel_width == 0 && plan.size.pixel_height == 0 && plan.size.dpi == 0
            &&& Some(plan.layout) == layout_of(window.window_layout)
            &&& plan.panes == planned(v, window.window_id, plan.layout.leaves())
        }),
{
}

// ---------------------------------------------------------------------------
// Dead panes
// ---------------------------------------------------------------------------

proof fn lemma_prune_actions(
    panes: Map<TmuxPaneId, TmuxRemotePane>,
    dead: Seq<TmuxPaneId>,
    i: int,
)
    requires
        0 <= i < dead.len(),
    ensures
        ({
            let actions = prune_actions(panes, dead);
            &&& actions.len() == 2 * dead.len()
            &&& actions[2 * i] == (ActionView::ReleasePane { pane: dead[i] })
            &&& actions[2 * i + 1] == (ActionView::RemovePane {
                pane: panes[dead[i]].local_pane_id,
            })
        }),
    decreases dead.len(),
{
    let front = dead.drop_last();
    if front.len() > 0 {
        let k = if i < front.len() {
            i
        } else {
            0
        };
        lemma_prune_actions(panes, front, k);
        if i < front.len() {
            assert(front[i] == dead[i]);
        }
    } else {
        assert(prune_actions(panes, front) == Seq::<ActionView>::empty());
    }
    assert(dead[dead.len() - 1] == dead.last());
}

/// Pruning releases and removes each pane that is attached to no window, first the one and then
/// the other, in the order of their ids, and no other pane; no output is kept for them.
pub proof fn law_dead_panes_are_removed(v: DomainView, i: int)
    requires
        v.panes.dom().finite(),
        0 <= i < dead_panes(v).len(),
    ensures
        ({
            let dead = dead_panes(v);
            let step = pruned(v);
            &&& step.actions.len() == 2 * dead.len()
            &&& step.actions[2 * i] == (ActionView::ReleasePane { pane: dead[i] })
            &&& step.actions[2 * i + 1] == (ActionView::RemovePane {
                pane: v.panes[dead[i]].local_pane_id,
            })
            &&& v.panes.dom().contains(dead[i])
            &&& forall|w: TmuxWindowId| #[trigger]
                v.tabs.dom().contains(w) ==> !v.tabs[w].panes.contains(dead[i])
            &&& !step.view.panes.dom().contains(dead[i])
            &&& !step.view.backlog.dom().contains(dead[i])
        }),
{
    let dead = dead_panes(v);
    lemma_ascending(v.panes.dom());
    let ids = ascending(v.panes.dom());
    lemma_dead_among(v, ids);
    lemma_prune_actions(v.panes, dead, i);
    assert(dead.contains(dead[i]));
    assert(ids.to_set().contains(dead[i]));
    lemma_without(v.panes, dead, dead[i]);
    lemma_without(v.backlog, dead, dead[i]);
    assert forall|w: TmuxWindowId| #[trigger]
        v.tabs.dom().contains(w) implies !v.tabs[w].panes.contains(dead[i]) by {
        assert(!is_live(v, dead[i]));
        assert(!pane_attached(v, w, dead[i]));
    }
}

/// Panes that are attached to a window, and the output that is kept for them, survive pruning.
pub proof fn law_live_panes_survive(v: DomainView, window: TmuxWindowId, pane: TmuxPaneId)
    requires
        v.panes.dom().finite(),
        v.tabs.dom().contains(window),
        v.tabs[window].panes.contains(pane),
    ensures
        ({
            let after = pruned(v).view;
            &&& v.panes.dom().contains(pane) ==> after.panes.dom().contains(pane)
                && after.panes[pane] == v.panes[pane]
            &&& v.backlog.dom().contains(pane) ==> after.backlog.dom().contains(pane)
                && after.backlog[pane] == v.backlog[pane]
            &&& after == (DomainView { panes: after.panes, backlog: after.backlog, ..v })
        }),
{
    lemma_ascending(v.panes.dom());
    lemma_dead_among(v, ascending(v.panes.dom()));
    assert(pane_attached(v, window, pane));
    lemma_without(v.panes, dead_panes(v), pane);
    lemma_without(v.backlog, dead_panes(v), pane);
}

/// The prune that was scheduled runs once nothing is in flight and nothing waits, and is then no
/// longer pending; until then it is put off.
pub proof fn law_prune_runs_when_idle(v: DomainView)
    ensures
        v.state == State::Idle && v.queue.len() == 0 ==> prune_task_run(v) == pruned(
            DomainView { prune_pending: false, ..v },
        ) && !prune_task_run(v).view.prune_pending,
        v.state != State::Idle || v.queue.len() > 0 ==> prune_task_run(v).view == v
            && prune_task_run(v).actions == seq![
            ActionView::SchedulePrune { domain_id: v.domain_id },
        ],
{
}

/// The size of a cell in pixels is how often the columns fit the width and the rows the height,
/// or nothing where there are none.
pub proof fn law_cell_size_divides_the_window(d: RenderableDimensions)
    ensures
        ({
            let cell = cell_pixels(Some(d));
            &&& d.cols > 0 ==> cell.width * d.cols <= d.pixel_width < (cell.width + 1) * d.cols
            &&& d.cols == 0 ==> cell.width == 0
            &&& d.viewport_rows > 0 ==> cell.height * d.viewport_rows <= d.pixel_height < (
            cell.height + 1) * d.viewport_rows
            &&& d.viewport_rows == 0 ==> cell.height == 0
            &&& cell_pixels(None).width == 0 && cell_pixels(None).height == 0
            &&& dpi_of(Some(d)) == d.dpi && dpi_of(None) == 0
        }),
{
    if d.cols > 0 {
        lemma_quotient(d.pixel_width as int, d.cols as int);
    }
    if d.viewport_rows > 0 {
        lemma_quotient(d.pixel_height as int, d.viewport_rows as int);
    }
}

proof fn lemma_quotient(a: int, b: int)
    by (nonlinear_arith)
    requires
        a >= 0,
        b > 0,
    ensures
        (a / b) * b <= a < (a / b + 1) * b,
        0 <= a / b <= a,
{
}

} // verus!
