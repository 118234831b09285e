//! What holds of the tmux domain across its operations.

use vstd::prelude::*;

use crate::action::ActionView;
use crate::config::TmuxFormatSubscription;
use crate::id_map::{ascending, lemma_ascending};
use crate::string_table::{law_lookup_finds_what_was_inserted, lookup};
use crate::tab::{PaneId, StableCursorPosition, TabId, TerminalSize};
use crate::tmux::{
    active_pane_set, command_line, event_applied, initial, locals_of, next_sent, notified,
    pane_attached, peer_among, peer_of, prune_scheduled, value_changed, value_targets,
    values_of_window, AttachState, DomainView, MuxNotification, TmuxRemotePane,
};
use crate::tmux_cc::event::{EventView, GuardedView};
use crate::tmux_cc::layout::{
    ids_of, layout_of, LayoutTree, TmuxLayoutCell, TmuxPaneId, TmuxSessionId, TmuxWindowId,
};
use crate::tmux_commands::{
    listed_panes, AttachDone, ListAllPanes, PaneItem, TmuxCommand, WindowView,
};
use crate::tmux_listing::{window_taken, windows_taken, WindowAnswer};
use crate::tmux_results::result_processed;
use crate::tmux_sync::{
    active_among, dead_panes, is_synced, is_zoomed, layout_applied, lemma_missing_rests_on_panes,
    lemma_reconcile_keeps, missing, pane_created, pane_synced, panes_synced, planned, pruned,
    reconciled, sole_pane, splits_resolved, tab_ensured, window_backfilled, window_synced,
    windows_listed, with_panes, without, FactsView,
};

verus! {

// ---------------------------------------------------------------------------
// Layouts
// ---------------------------------------------------------------------------

/// Where every pane that the plan asks for was created, reconciling succeeds, takes each of
/// them for new in the plan's order, and leaves no leaf of the layout without a local pane.
pub proof fn law_plan_is_what_reconciling_needs(
    v: DomainView,
    window: TmuxWindowId,
    leaves: Seq<(TmuxPaneId, TmuxLayoutCell)>,
    created: Seq<Option<PaneId>>,
    capture: Option<isize>,
)
    requires
        created.len() >= planned(v, window, leaves).len(),
        forall|i: int| 0 <= i < created.len() ==> (#[trigger] created[i]) is Some,
    ensures
        ({
            let r = reconciled(v, window, leaves, created, capture);
            &&& r.failed is None
            &&& r.newly.len() == planned(v, window, leaves).len()
            &&& forall|i: int| 0 <= i < r.newly.len() ==> Some(#[trigger] r.newly[i]) == created[i]
            &&& forall|pane: TmuxPaneId| #[trigger]
                r.view.panes.dom().contains(pane) <==> v.panes.dom().contains(pane) || ids_of(
                    leaves,
                ).contains(pane)
        }),
    decreases leaves.len(),
{
    if leaves.len() > 0 {
        let front = leaves.drop_last();
        let leaf = leaves.last();
        law_plan_is_what_reconciling_needs(v, window, front, created, capture);
        let r = reconciled(v, window, front, created, capture);
        assert(ids_of(leaves) == ids_of(front).push(leaf.0));
        assert forall|pane: TmuxPaneId| ids_of(leaves).contains(pane) <==> ids_of(front).contains(
            pane,
        ) || pane == leaf.0 by {
            let small = ids_of(front);
            let large = ids_of(leaves);
            if small.contains(pane) {
                let j = choose|j: int| 0 <= j < small.len() && small[j] == pane;
                assert(large[j] == pane);
            }
            if pane == leaf.0 {
                assert(large[small.len() as int] == pane);
            }
        }
        if !r.view.panes.dom().contains(leaf.0) {
            assert(created[r.newly.len() as int] is Some);
        }
    }
}

pub proof fn lemma_nothing_to_reconcile(
    v: DomainView,
    window: TmuxWindowId,
    leaves: Seq<(TmuxPaneId, TmuxLayoutCell)>,
    created: Seq<Option<PaneId>>,
    capture: Option<isize>,
)
    requires
        forall|i: int| 0 <= i < leaves.len() ==> v.panes.dom().contains((#[trigger] leaves[i]).0),
    ensures
        ({
            let r = reconciled(v, window, leaves, created, capture);
            &&& r.view == v
            &&& r.actions == Seq::<ActionView>::empty()
            &&& r.newly == Seq::<PaneId>::empty()
            &&& r.failed is None
        }),
        planned(v, window, leaves) == Seq::<PaneItem>::empty(),
    decreases leaves.len(),
{
    if leaves.len() > 0 {
        let front = leaves.drop_last();
        assert forall|i: int| 0 <= i < front.len() implies v.panes.dom().contains(
            (#[trigger] front[i]).0,
        ) by {
            assert(front[i] == leaves[i]);
        }
        assert(v.panes.dom().contains(leaves[leaves.len() - 1].0));
        lemma_nothing_to_reconcile(v, window, front, created, capture);
    }
}

proof fn lemma_present(
    v: DomainView,
    leaves: Seq<(TmuxPaneId, TmuxLayoutCell)>,
    live: Seq<PaneId>,
)
    requires
        missing(v, leaves, live) is None,
    ensures
        forall|i: int| 0 <= i < leaves.len() ==> v.panes.dom().contains((#[trigger] leaves[i]).0),
    decreases leaves.len(),
{
    if leaves.len() > 0 {
        let front = leaves.drop_last();
        lemma_present(v, front, live);
        assert forall|i: int| 0 <= i < leaves.len() implies v.panes.dom().contains(
            (#[trigger] leaves[i]).0,
        ) by {
            if i < front.len() {
                assert(front[i] == leaves[i]);
            }
        }
    }
}

/// A layout that was applied shows all its panes, each with a local peer; the tabs are as
/// they were but for that, and what is not shown any more will be pruned.
pub proof fn law_applied_layout_is_attached(
    v: DomainView,
    window: TmuxWindowId,
    tree: LayoutTree,
    active_pane: Option<TmuxPaneId>,
    zoomed_pane: Option<TmuxPaneId>,
    capture_new: bool,
    facts: FactsView,
)
    requires
        layout_applied(v, window, tree, active_pane, zoomed_pane, capture_new, facts).result is Ok,
    ensures
        ({
            let after = layout_applied(
                v,
                window,
                tree,
                active_pane,
                zoomed_pane,
                capture_new,
                facts,
            ).view;
            &&& forall|pane: TmuxPaneId| #[trigger]
                pane_attached(after, window, pane) <==> tree.pane_ids().contains(pane)
            &&& forall|pane: TmuxPaneId|
                tree.pane_ids().contains(pane) ==> #[trigger] after.panes.dom().contains(pane)
            &&& after.tabs == with_panes(v, window, tree.pane_ids()).tabs
            &&& after.prune_pending
        }),
{
    let leaves = tree.leaves();
    let capture = if capture_new {
        Some(v.tabs[window].history_limit)
    } else {
        None
    };
    lemma_reconcile_keeps(v, window, leaves, facts.created, capture);
    let r = reconciled(v, window, leaves, facts.created, capture);
    lemma_present(r.view, leaves, facts.live);
    let after = layout_applied(
        v,
        window,
        tree,
        active_pane,
        zoomed_pane,
        capture_new,
        facts,
    ).view;
    assert forall|pane: TmuxPaneId| tree.pane_ids().contains(
        pane,
    ) implies #[trigger] after.panes.dom().contains(pane) by {
        let ids = tree.pane_ids();
        let i = choose|i: int| 0 <= i < ids.len() && ids[i] == pane;
        assert(leaves[i].0 == pane);
    }
}

/// Applying a layout again changes nothing: no pane is created, the state stays as it is, and
/// all that is asked for is to swap in the same tree once more.
pub proof fn law_applying_a_layout_again_changes_nothing(
    v: DomainView,
    window: TmuxWindowId,
    tree: LayoutTree,
    active_pane: Option<TmuxPaneId>,
    zoomed_pane: Option<TmuxPaneId>,
    capture_new: bool,
    facts: FactsView,
    created: Seq<Option<PaneId>>,
)
    requires
        layout_applied(v, window, tree, active_pane, zoomed_pane, capture_new, facts).result is Ok,
    ensures
        ({
            let once = layout_applied(
                v,
                window,
                tree,
                active_pane,
                zoomed_pane,
                capture_new,
                facts,
            );
            let twice = layout_applied(
                once.view,
                window,
                tree,
                active_pane,
                zoomed_pane,
                capture_new,
                FactsView { created, ..facts },
            );
            &&& planned(once.view, window, tree.leaves()).len() == 0
            &&& twice.result is Ok
            &&& twice.view == once.view
            &&& twice.actions.len() == 1
            &&& twice.actions[0] is SyncPaneTree
            &&& once.actions.contains(twice.actions[0])
        }),
{
    let leaves = tree.leaves();
    let capture = if capture_new {
        Some(v.tabs[window].history_limit)
    } else {
        None
    };
    lemma_reconcile_keeps(v, window, leaves, facts.created, capture);
    let r = reconciled(v, window, leaves, facts.created, capture);
    lemma_present(r.view, leaves, facts.live);
    let once = layout_applied(
        v,
        window,
        tree,
        active_pane,
        zoomed_pane,
        capture_new,
        facts,
    );
    let again = FactsView { created, ..facts };
    let twice = layout_applied(
        once.view,
        window,
        tree,
        active_pane,
        zoomed_pane,
        capture_new,
        again,
    );
    lemma_nothing_to_reconcile(once.view, window, leaves, created, capture);
    lemma_missing_rests_on_panes(r.view, once.view, leaves, facts.live);
    let noted = with_panes(once.view, window, tree.pane_ids());
    assert(noted.tabs == once.view.tabs);
    assert(noted == once.view);
    let told = splits_resolved(noted, Seq::empty());
    assert(told.view.pending_splits == noted.pending_splits);
    assert(told.view == once.view);
    assert(told.actions == Seq::<ActionView>::empty());
    assert(prune_scheduled(once.view).actions == Seq::<ActionView>::empty());
    assert(twice.view == once.view);
    let shown = once.actions[r.actions.len() as int];
    assert(shown is SyncPaneTree);
    assert(twice.actions == seq![shown]);
    assert(once.actions.contains(shown));
}

/// When windows were listed, the cursors of the active one are asked for behind everything
/// that waits already, so that the focus settles there; only the end of the attaching comes
/// later.
pub proof fn law_active_window_is_asked_last(v: DomainView, windows: Seq<WindowView>)
    requires
        v.session is Some,
        active_among(windows) is Some,
    ensures
        ({
            let queue = windows_listed(v, windows).view.queue;
            let asked = v.queue.push(
                TmuxCommand::ListAllPanes(
                    ListAllPanes { window_id: active_among(windows)->0.window_id },
                ),
            );
            queue == if v.attach_state == AttachState::Init {
                asked.push(TmuxCommand::AttachDone(AttachDone))
            } else {
                asked
            }
        }),
{
}

// ---------------------------------------------------------------------------
// Consistency
// ---------------------------------------------------------------------------

/// Whether every pane and every tab is kept under its own tmux id.
pub open spec fn is_consistent(v: DomainView) -> bool {
    &&& forall|k: TmuxPaneId| #[trigger]
        v.panes.dom().contains(k) ==> v.panes[k].pane_id == k
    &&& forall|k: TmuxWindowId| #[trigger]
        v.tabs.dom().contains(k) ==> v.tabs[k].tmux_window_id == k
}

/// The state at the beginning of the conversation is consistent.
pub proof fn law_initial_state_is_consistent(pane_id: PaneId, domain_id: usize)
    ensures
        is_consistent(initial(pane_id, domain_id)),
{
}

/// Events keep the state consistent.
pub proof fn law_event_keeps_consistency(v: DomainView, event: EventView)
    requires
        is_consistent(v),
    ensures
        is_consistent(event_applied(v, event).view),
{
    reveal(event_applied);
}

/// Sending a command keeps the state consistent.
pub proof fn law_sending_keeps_consistency(v: DomainView, sizes: Map<TabId, TerminalSize>)
    requires
        is_consistent(v),
    ensures
        is_consistent(next_sent(v, sizes).view),
    decreases v.queue.len(),
{
    if v.queue.len() > 0 {
        let (next, line) = command_line(v, sizes, v.queue[0]);
        let rest = DomainView { queue: v.queue.subrange(1, v.queue.len() as int), ..next };
        if line.len() == 0 {
            law_sending_keeps_consistency(rest, sizes);
        }
    }
}

/// The focus of the multiplexer and of tmux keep the state consistent.
pub proof fn law_focus_keeps_consistency(
    v: DomainView,
    n: MuxNotification,
    window: TmuxWindowId,
    pane: TmuxPaneId,
)
    requires
        is_consistent(v),
    ensures
        is_consistent(notified(v, n).view),
        is_consistent(active_pane_set(v, window, pane).view),
{
}

proof fn lemma_reconciling_keeps_consistency(
    v: DomainView,
    window: TmuxWindowId,
    leaves: Seq<(TmuxPaneId, TmuxLayoutCell)>,
    created: Seq<Option<PaneId>>,
    capture: Option<isize>,
)
    requires
        is_consistent(v),
    ensures
        is_consistent(reconciled(v, window, leaves, created, capture).view),
    decreases leaves.len(),
{
    if leaves.len() > 0 {
        lemma_reconciling_keeps_consistency(v, window, leaves.drop_last(), created, capture);
    }
}

/// Applying a layout keeps the state consistent, whether it succeeds or not.
pub proof fn law_layout_keeps_consistency(
    v: DomainView,
    window: TmuxWindowId,
    tree: LayoutTree,
    active_pane: Option<TmuxPaneId>,
    zoomed_pane: Option<TmuxPaneId>,
    capture_new: bool,
    facts: FactsView,
)
    requires
        is_consistent(v),
    ensures
        is_consistent(
            layout_applied(v, window, tree, active_pane, zoomed_pane, capture_new, facts).view,
        ),
{
    let capture = if capture_new {
        Some(v.tabs[window].history_limit)
    } else {
        None
    };
    lemma_reconcile_keeps(v, window, tree.leaves(), facts.created, capture);
    lemma_reconciling_keeps_consistency(v, window, tree.leaves(), facts.created, capture);
}

/// Bringing a tab in line with a window keeps the state consistent.
pub proof fn law_window_sync_keeps_consistency(
    v: DomainView,
    window: WindowView,
    new_window: bool,
    new_tab: TabId,
    facts: FactsView,
)
    requires
        is_consistent(v),
    ensures
        is_consistent(window_synced(v, window, new_window, new_tab, facts).view),
{
    if is_synced(v, window) {
        let ensured = tab_ensured(v, window, new_tab).view;
        let zoomed_pane = if is_zoomed(window.window_raw_flags) {
            sole_pane(window.window_visible_layout)
        } else {
            None
        };
        law_layout_keeps_consistency(
            ensured,
            window.window_id,
            layout_of(window.window_layout)->0,
            ensured.tabs[window.window_id].active_pane,
            zoomed_pane,
            !new_window,
            facts,
        );
    }
}

/// Going through a list of windows keeps the state consistent, however it ends.
pub proof fn law_listing_keeps_consistency(
    v: DomainView,
    windows: Seq<WindowView>,
    new_window: bool,
    i: int,
    answers: Seq<WindowAnswer>,
)
    requires
        0 <= i,
        is_consistent(v),
    ensures
        is_consistent(windows_taken(v, windows, new_window, i, answers).view),
    decreases windows.len() - i,
{
    if i < windows.len() {
        if !is_synced(v, windows[i]) {
            law_listing_keeps_consistency(v, windows, new_window, i + 1, answers);
        } else {
            let answer = answers[i];
            law_window_sync_keeps_consistency(
                v,
                windows[i],
                new_window,
                answer.tab,
                answer.facts,
            );
            let taken = window_taken(v, windows[i], new_window, answer);
            law_listing_keeps_consistency(
                window_backfilled(taken.view, windows[i]),
                windows,
                new_window,
                i + 1,
                answers,
            );
        }
    }
}

/// Bringing panes in line with what tmux lists keeps the state consistent.
pub proof fn law_pane_sync_keeps_consistency(
    v: DomainView,
    items: Seq<PaneItem>,
    cursors: Map<PaneId, StableCursorPosition>,
)
    requires
        is_consistent(v),
    ensures
        is_consistent(panes_synced(v, items, cursors).view),
    decreases items.len(),
{
    if items.len() > 0 {
        law_pane_sync_keeps_consistency(v, items.drop_last(), cursors);
        let before = panes_synced(v, items.drop_last(), cursors).view;
        assert(is_consistent(pane_synced(before, items.last(), cursors).view));
    }
}

/// The answers of tmux keep the state consistent.
pub proof fn law_answer_keeps_consistency(
    v: DomainView,
    command: TmuxCommand,
    result: GuardedView,
    cursors: Map<PaneId, StableCursorPosition>,
    subs: Vec<TmuxFormatSubscription>,
)
    requires
        is_consistent(v),
    ensures
        is_consistent(result_processed(v, command, result, cursors, subs).view),
{
    if let Ok(items) = listed_panes(result.error, result.output) {
        law_pane_sync_keeps_consistency(v, items, cursors);
    }
}

proof fn lemma_without_keeps_consistency(
    panes: Map<TmuxPaneId, TmuxRemotePane>,
    dead: Seq<TmuxPaneId>,
)
    requires
        forall|k: TmuxPaneId| #[trigger] panes.dom().contains(k) ==> panes[k].pane_id == k,
    ensures
        forall|k: TmuxPaneId| #[trigger]
            without(panes, dead).dom().contains(k) ==> without(panes, dead)[k].pane_id == k,
    decreases dead.len(),
{
    if dead.len() > 0 {
        lemma_without_keeps_consistency(panes, dead.drop_last());
        let before = without(panes, dead.drop_last());
        assert forall|k: TmuxPaneId| #[trigger]
            without(panes, dead).dom().contains(k) implies without(panes, dead)[k].pane_id == k by {
            assert(before.dom().contains(k));
        }
    }
}

/// Pruning keeps the state consistent.
pub proof fn law_prune_keeps_consistency(v: DomainView)
    requires
        is_consistent(v),
    ensures
        is_consistent(pruned(v).view),
{
    lemma_without_keeps_consistency(v.panes, dead_panes(v));
}

proof fn lemma_peer_among(
    panes: Map<TmuxPaneId, TmuxRemotePane>,
    ids: Seq<TmuxPaneId>,
    local: PaneId,
)
    ensures
        match peer_among(panes, ids, local) {
            Some(pane) => pane.local_pane_id == local && exists|i: int|
                0 <= i < ids.len() && panes[#[trigger] ids[i]] == pane,
            None => forall|i: int|
                0 <= i < ids.len() ==> panes[#[trigger] ids[i]].local_pane_id != local,
        },
    decreases ids.len(),
{
    if ids.len() > 0 {
        let rest = ids.skip(1);
        lemma_peer_among(panes, rest, local);
        if panes[ids[0]].local_pane_id == local {
            assert(panes[ids[0]] == peer_among(panes, ids, local)->0);
        } else {
            match peer_among(panes, rest, local) {
                Some(pane) => {
                    let i = choose|i: int| 0 <= i < rest.len() && panes[#[trigger] rest[i]] == pane;
                    assert(panes[ids[i + 1]] == pane);
                },
                None => {
                    assert forall|i: int| 0 <= i < ids.len() implies panes[#[trigger]
                    ids[i]].local_pane_id != local by {
                        if i > 0 {
                            assert(ids[i] == rest[i - 1]);
                        }
                    }
                },
            }
        }
    }
}

/// The tmux pane of a local pane is found if there is one, and is the one that is kept under
/// the id by which tmux is told of it.
pub proof fn law_peer_is_found(v: DomainView, local: PaneId)
    requires
        is_consistent(v),
        v.panes.dom().finite(),
    ensures
        match peer_of(v.panes, local) {
            Some(pane) => {
                &&& pane.local_pane_id == local
                &&& v.panes.dom().contains(pane.pane_id)
                &&& v.panes[pane.pane_id] == pane
            },
            None => forall|k: TmuxPaneId| #[trigger]
                v.panes.dom().contains(k) ==> v.panes[k].local_pane_id != local,
        },
{
    let ids = ascending(v.panes.dom());
    lemma_ascending(v.panes.dom());
    lemma_peer_among(v.panes, ids, local);
    match peer_of(v.panes, local) {
        Some(pane) => {
            let i = choose|i: int| 0 <= i < ids.len() && v.panes[#[trigger] ids[i]] == pane;
            assert(ids.to_set().contains(ids[i]));
        },
        None => {
            assert forall|k: TmuxPaneId| #[trigger]
                v.panes.dom().contains(k) implies v.panes[k].local_pane_id != local by {
                assert(ids.to_set().contains(k));
                let i = choose|i: int| 0 <= i < ids.len() && ids[i] == k;
                assert(v.panes[ids[i]].local_pane_id != local);
            }
        },
    }
}

// ---------------------------------------------------------------------------
// Subscriptions
// ---------------------------------------------------------------------------

proof fn lemma_local_is_listed(
    panes: Map<TmuxPaneId, TmuxRemotePane>,
    ids: Seq<TmuxPaneId>,
    pane: TmuxPaneId,
)
    requires
        ids.contains(pane),
        panes.dom().contains(pane),
    ensures
        locals_of(panes, ids).contains(panes[pane].local_pane_id),
    decreases ids.len(),
{
    let front = ids.drop_last();
    let all = locals_of(panes, ids);
    if ids.last() == pane {
        assert(all[all.len() - 1] == panes[pane].local_pane_id);
    } else {
        let i = choose|i: int| 0 <= i < ids.len() && ids[i] == pane;
        assert(front[i] == pane);
        lemma_local_is_listed(panes, front, pane);
        let before = locals_of(panes, front);
        let j = choose|j: int|
            0 <= j < before.len() && before[j] == panes[pane].local_pane_id;
        assert(all[j] == panes[pane].local_pane_id);
    }
}

proof fn lemma_listed_locals_are_set(
    v: DomainView,
    name: Seq<char>,
    session: Option<TmuxSessionId>,
    window: Option<TmuxWindowId>,
    window_index: Option<u64>,
    scope: Option<TmuxPaneId>,
    value: Seq<char>,
    ids: Seq<TmuxPaneId>,
    pane: TmuxPaneId,
)
    requires
        value_targets(v, window, scope) == locals_of(v.panes, ids),
        ids.contains(pane),
        v.panes.dom().contains(pane),
    ensures
        value_changed(v, name, session, window, window_index, scope, value).actions.contains(
            ActionView::SetUserVar { pane: v.panes[pane].local_pane_id, name, value },
        ),
{
    lemma_local_is_listed(v.panes, ids, pane);
    let locals = value_targets(v, window, scope);
    let i = choose|i: int| 0 <= i < locals.len() && locals[i] == v.panes[pane].local_pane_id;
    let step = value_changed(v, name, session, window, window_index, scope, value);
    assert(step.actions[i] == (ActionView::SetUserVar {
        pane: v.panes[pane].local_pane_id,
        name,
        value,
    }));
}

/// The value of a session-scoped subscription reaches every pane, and is there for the panes
/// to come.
pub proof fn law_session_value_reaches_every_pane(
    v: DomainView,
    name: Seq<char>,
    session: Option<TmuxSessionId>,
    window_index: Option<u64>,
    value: Seq<char>,
    pane: TmuxPaneId,
)
    requires
        v.panes.dom().finite(),
        v.panes.dom().contains(pane),
    ensures
        ({
            let step = value_changed(v, name, session, None, window_index, None, value);
            &&& step.actions.contains(
                ActionView::SetUserVar { pane: v.panes[pane].local_pane_id, name, value },
            )
            &&& lookup(step.view.session_format_values, name) == Some(value)
        }),
{
    let ids = ascending(v.panes.dom());
    lemma_ascending(v.panes.dom());
    assert(ids.to_set().contains(pane));
    lemma_listed_locals_are_set(
        v,
        name,
        session,
        None,
        window_index,
        None,
        value,
        ids,
        pane,
    );
    law_lookup_finds_what_was_inserted(v.session_format_values, name, value, name);
}

/// The value of a window-scoped subscription reaches every pane of the window, and is there
/// for the panes to come of that window alone.
pub proof fn law_window_value_reaches_its_panes(
    v: DomainView,
    name: Seq<char>,
    session: Option<TmuxSessionId>,
    window: TmuxWindowId,
    window_index: Option<u64>,
    value: Seq<char>,
    pane: TmuxPaneId,
)
    requires
        pane_attached(v, window, pane),
        v.panes.dom().contains(pane),
    ensures
        ({
            let step = value_changed(
                v,
                name,
                session,
                Some(window),
                window_index,
                None,
                value,
            );
            &&& step.actions.contains(
                ActionView::SetUserVar { pane: v.panes[pane].local_pane_id, name, value },
            )
            &&& lookup(values_of_window(step.view, window), name) == Some(value)
            &&& step.view.session_format_values == v.session_format_values
            &&& forall|other: TmuxWindowId|
                other != window ==> #[trigger] values_of_window(step.view, other)
                    == values_of_window(v, other)
        }),
{
    lemma_listed_locals_are_set(
        v,
        name,
        session,
        Some(window),
        window_index,
        None,
        value,
        v.tabs[window].panes,
        pane,
    );
    law_lookup_finds_what_was_inserted(values_of_window(v, window), name, value, name);
}

/// The value of a pane-scoped subscription reaches that pane and no other, and is not kept
/// for the panes to come.
pub proof fn law_pane_value_reaches_its_pane_alone(
    v: DomainView,
    name: Seq<char>,
    session: Option<TmuxSessionId>,
    window: Option<TmuxWindowId>,
    window_index: Option<u64>,
    pane: TmuxPaneId,
    value: Seq<char>,
)
    requires
        v.panes.dom().contains(pane),
    ensures
        ({
            let step = value_changed(v, name, session, window, window_index, Some(pane), value);
            &&& step.view == v
            &&& step.actions.len() > 0
            &&& step.actions[0] == (ActionView::SetUserVar {
                pane: v.panes[pane].local_pane_id,
                name,
                value,
            })
            &&& forall|i: int|
                0 < i < step.actions.len() ==> (#[trigger] step.actions[i]) is NotifySubscription
        }),
{
    let locals = locals_of(v.panes, seq![pane]);
    let none = seq![pane].drop_last();
    assert(none == Seq::<TmuxPaneId>::empty());
    assert(locals_of(v.panes, none) == Seq::<PaneId>::empty());
    assert(locals == seq![v.panes[pane].local_pane_id]);
}

/// Every change of a value is told of once, with its name and the value, wherever there is a
/// window that shows the session.
pub proof fn law_value_change_is_told_of_once(
    v: DomainView,
    name: Seq<char>,
    session: Option<TmuxSessionId>,
    window: Option<TmuxWindowId>,
    window_index: Option<u64>,
    pane: Option<TmuxPaneId>,
    value: Seq<char>,
)
    requires
        v.gui_window is Some,
    ensures
        ({
            let actions = value_changed(
                v,
                name,
                session,
                window,
                window_index,
                pane,
                value,
            ).actions;
            &&& actions.len() > 0
            &&& actions.last() matches ActionView::NotifySubscription(change)
            &&& change.window == v.gui_window->0
            &&& change.name == name
            &&& change.value == value
            &&& forall|i: int|
                0 <= i < actions.len() - 1 ==> (#[trigger] actions[i]) is SetUserVar
        }),
{
}

/// A new pane begins with the values that are kept for the session and for its own window,
/// and with no others: each is set as a user var before the pane is added.
pub proof fn law_new_pane_begins_with_the_values(
    v: DomainView,
    item: PaneItem,
    local: PaneId,
    capture: Option<isize>,
)
    ensures
        ({
            let actions = pane_created(v, item, local, capture).actions;
            let values = v.session_format_values + values_of_window(v, item.window_id);
            let n = values.len() as int;
            &&& actions.len() > n
            &&& actions[n] == (ActionView::AddPane { pane: local })
            &&& forall|i: int|
                0 <= i < n ==> (#[trigger] actions[i]) == (ActionView::SetUserVar {
                    pane: local,
                    name: values[i].0,
                    value: values[i].1,
                })
            &&& forall|i: int| n <= i < actions.len() ==> !((#[trigger] actions[i]) is SetUserVar)
        }),
{
}

} // verus!
