//! Keeping tabs and panes in line with tmux's windows and panes.

use std::collections::HashMap;

use vstd::prelude::*;

use crate::action::{action_views, opt_action, push_action, push_opt_action, Action, ActionView};
use crate::id_map::{ascending, lemma_ascending};
use crate::string_table::StringTable;
use crate::tab::{PaneId, StableCursorPosition, TabId, TerminalSize, WindowId};
use crate::text::{chars_of, find_char, until_char};
use crate::tmux::{
    enqueued, lemma_bytes_removed, lemma_tab_inserted, pane_attached, prune_scheduled, quiescent,
    stays, values_of_window, with_active, AttachState, DomainView, Step, TabView, TmuxDomainState,
    TmuxRemotePane, TmuxTab,
};
use crate::tmux_cc::layout::{
    ids_of, layout_of, parse_layout_tree, LayoutTree, TmuxLayoutCell, TmuxLayoutNode, TmuxPaneId,
    TmuxWindowId,
};
use crate::tmux_commands::{
    window_views, AttachDone, CapturePane, ListAllPanes, PaneItem, TmuxCommand, TmuxError,
    WindowItem, WindowView,
};
use crate::tmux_layout::{
    build_pane_node, node_of, size_of, window_fits, CellPixels, ContextView, LayoutContext,
};

verus! {

// ---------------------------------------------------------------------------
// Pruning
// ---------------------------------------------------------------------------

/// Whether a pane appears in the last applied layout of some window.
pub open spec fn is_live(v: DomainView, pane: TmuxPaneId) -> bool {
    exists|window: TmuxWindowId| #[trigger] pane_attached(v, window, pane)
}

/// Those of `ids` that appear in no window.
pub open spec fn dead_among(v: DomainView, ids: Seq<TmuxPaneId>) -> Seq<TmuxPaneId>
    decreases ids.len(),
{
    if ids.len() == 0 {
        Seq::empty()
    } else if is_live(v, ids.last()) {
        dead_among(v, ids.drop_last())
    } else {
        dead_among(v, ids.drop_last()).push(ids.last())
    }
}

/// The panes that appear in no window.
pub open spec fn dead_panes(v: DomainView) -> Seq<TmuxPaneId> {
    dead_among(v, ascending(v.panes.dom()))
}

/// A map without the entries for `ids`.
pub open spec fn without<V>(m: Map<u64, V>, ids: Seq<u64>) -> Map<u64, V>
    decreases ids.len(),
{
    if ids.len() == 0 {
        m
    } else {
        without(m, ids.drop_last()).remove(ids.last())
    }
}

/// Each of the panes `dead` is let go and removed.
pub open spec fn prune_actions(
    panes: Map<TmuxPaneId, TmuxRemotePane>,
    dead: Seq<TmuxPaneId>,
) -> Seq<ActionView>
    decreases dead.len(),
{
    if dead.len() == 0 {
        Seq::empty()
    } else {
        prune_actions(panes, dead.drop_last()).push(
            ActionView::ReleasePane { pane: dead.last() },
        ).push(ActionView::RemovePane { pane: panes[dead.last()].local_pane_id })
    }
}

/// The state and the actions after dead panes were pruned.
pub open spec fn pruned(v: DomainView) -> Step {
    let dead = dead_panes(v);
    Step {
        view: DomainView {
            panes: without(v.panes, dead),
            backlog: without(v.backlog, dead),
            ..v
        },
        actions: prune_actions(v.panes, dead),
    }
}

/// The state and the actions after the prune task ran: it waits until pending work has
/// drained.
pub open spec fn prune_task_run(v: DomainView) -> Step {
    if quiescent(v) {
        pruned(DomainView { prune_pending: false, ..v })
    } else {
        Step { view: v, actions: seq![ActionView::SchedulePrune { domain_id: v.domain_id }] }
    }
}

impl TmuxDomainState {
    /// Whether a pane appears in the last applied layout of some window.
    fn is_live_pane(&self, pane: TmuxPaneId) -> (r: bool)
        ensures
            r == is_live(self@, pane),
    {
        let ids = self.gui_tabs.ids();
        let mut i: usize = 0;
        while i < ids.len()
            invariant
                i <= ids@.len(),
                ids@.to_set() == self.gui_tabs@.dom(),
                forall|j: int| 0 <= j < i ==> !#[trigger] pane_attached(self@, ids@[j], pane),
            decreases ids@.len() - i,
        {
            if self.check_pane_attached(ids[i], pane) {
                return true;
            }
            i += 1;
        }
        proof {
            if is_live(self@, pane) {
                let window = choose|window: TmuxWindowId| #[trigger]
                    pane_attached(self@, window, pane);
                assert(ids@.to_set().contains(window));
                let j = choose|j: int| 0 <= j < ids@.len() && ids@[j] == window;
                assert(!pane_attached(self@, ids@[j], pane));
            }
        }
        false
    }

    /// The panes that appear in no window.
    fn find_dead_panes(&self) -> (dead: Vec<TmuxPaneId>)
        ensures
            dead@ == dead_panes(self@),
            dead@.no_duplicates(),
            forall|i: int|
                0 <= i < dead@.len() ==> self@.panes.dom().contains(#[trigger] dead@[i]),
    {
        let ids = self.remote_panes.ids();
        let mut dead: Vec<TmuxPaneId> = Vec::new();
        let mut i: usize = 0;
        assert(ids@.take(0) == Seq::<TmuxPaneId>::empty());
        while i < ids.len()
            invariant
                i <= ids@.len(),
                dead@ == dead_among(self@, ids@.take(i as int)),
            decreases ids@.len() - i,
        {
            assert(ids@.take(i + 1).drop_last() == ids@.take(i as int));
            if !self.is_live_pane(ids[i]) {
                dead.push(ids[i]);
            }
            i += 1;
        }
        assert(ids@.take(ids@.len() as int) == ids@);
        proof {
            lemma_dead_among(self@, ids@);
            assert forall|i: int| 0 <= i < dead@.len() implies self@.panes.dom().contains(
                #[trigger] dead@[i],
            ) by {
                assert(dead@.contains(dead@[i]));
                assert(ids@.to_set().contains(dead@[i]));
            }
        }
        dead
    }

    /// Destroys local panes whose tmux id no longer appears in any window's last
    /// applied layout. Runs at a quiescent point so that a pane moved between
    /// windows (its source removal observed before the destination insertion)
    /// keeps its identity instead of being destroyed and recreated.
    pub fn prune_dead_panes(&mut self) -> (actions: Vec<Action>)
        ensures
            pruned(old(self)@) == (Step { view: final(self)@, actions: action_views(actions@) }),
    {
        let dead = self.find_dead_panes();
        let ghost start = self@;
        let mut actions: Vec<Action> = Vec::new();
        let mut i: usize = 0;
        assert(dead@.take(0) == Seq::<TmuxPaneId>::empty());
        assert(action_views(actions@) == Seq::<ActionView>::empty());
        while i < dead.len()
            invariant
                i <= dead@.len(),
                start == old(self)@,
                dead@ == dead_panes(start),
                dead@.no_duplicates(),
                forall|j: int|
                    0 <= j < dead@.len() ==> start.panes.dom().contains(#[trigger] dead@[j]),
                self@ == (DomainView {
                    panes: without(start.panes, dead@.take(i as int)),
                    backlog: without(start.backlog, dead@.take(i as int)),
                    ..start
                }),
                action_views(actions@) == prune_actions(start.panes, dead@.take(i as int)),
            decreases dead@.len() - i,
        {
            let id = dead[i];
            let ghost front = dead@.take(i as int);
            proof {
                assert(dead@.take(i + 1).drop_last() == front);
                assert(dead@.take(i + 1).last() == id);
                assert forall|j: int| 0 <= j < front.len() implies front[j] != id by {
                    assert(front[j] == dead@[j]);
                }
                lemma_without(start.panes, front, id);
                lemma_bytes_removed(self.backlog@, id);
            }
            // Release the fake child so the pane's reader can exit.
            push_action(&mut actions, Action::ReleasePane { pane: id });
            if let Some(pane) = self.remote_panes.remove(id) {
                push_action(&mut actions, Action::RemovePane { pane: pane.local_pane_id });
            }
            self.backlog.remove(id);
            i += 1;
        }
        assert(dead@.take(dead@.len() as int) == dead@);
        actions
    }

    /// Runs the prune that was scheduled.
    pub fn run_prune_task(&mut self) -> (actions: Vec<Action>)
        ensures
            prune_task_run(old(self)@) == (Step {
                view: final(self)@,
                actions: action_views(actions@),
            }),
    {
        if !self.is_quiescent() {
            // Not settled yet; retry after pending work drains.
            let mut actions: Vec<Action> = Vec::new();
            push_action(&mut actions, Action::SchedulePrune { domain_id: self.domain_id });
            assert(action_views(actions@) == seq![
                ActionView::SchedulePrune { domain_id: self.domain_id },
            ]);
            return actions;
        }
        self.prune_pending = false;
        self.prune_dead_panes()
    }
}

pub proof fn lemma_without<V>(m: Map<u64, V>, ids: Seq<u64>, id: u64)
    ensures
        without(m, ids).dom().contains(id) <==> m.dom().contains(id) && !ids.contains(id),
        without(m, ids).dom().contains(id) ==> without(m, ids)[id] == m[id],
    decreases ids.len(),
{
    if ids.len() > 0 {
        lemma_without(m, ids.drop_last(), id);
        let front = ids.drop_last();
        if ids.contains(id) && !front.contains(id) {
            let i = choose|i: int| 0 <= i < ids.len() && ids[i] == id;
            if i < front.len() {
                assert(front[i] == id);
            }
        }
        if front.contains(id) {
            let i = choose|i: int| 0 <= i < front.len() && front[i] == id;
            assert(ids[i] == id);
        }
    }
}

pub proof fn lemma_dead_among(v: DomainView, ids: Seq<TmuxPaneId>)
    requires
        ids.no_duplicates(),
    ensures
        dead_among(v, ids).no_duplicates(),
        forall|p: TmuxPaneId| #[trigger]
            dead_among(v, ids).contains(p) <==> ids.contains(p) && !is_live(v, p),
    decreases ids.len(),
{
    if ids.len() > 0 {
        let front = ids.drop_last();
        let last = ids.last();
        assert forall|i: int, j: int| 0 <= i < j < front.len() implies front[i] != front[j] by {
            assert(ids[i] != ids[j]);
        }
        lemma_dead_among(v, front);
        assert(!front.contains(last)) by {
            if front.contains(last) {
                let i = choose|i: int| 0 <= i < front.len() && front[i] == last;
                assert(ids[i] != ids[ids.len() - 1]);
            }
        }
        let d = dead_among(v, front);
        let all = dead_among(v, ids);
        assert forall|p: TmuxPaneId| #[trigger] all.contains(p) <==> ids.contains(p) && !is_live(
            v,
            p,
        ) by {
            if all.contains(p) {
                let i = choose|i: int| 0 <= i < all.len() && all[i] == p;
                if i < d.len() {
                    assert(d[i] == p);
                    assert(d.contains(p));
                    let j = choose|j: int| 0 <= j < front.len() && front[j] == p;
                    assert(ids[j] == p);
                } else {
                    assert(ids[ids.len() - 1] == p);
                }
            }
            if ids.contains(p) && !is_live(v, p) {
                let i = choose|i: int| 0 <= i < ids.len() && ids[i] == p;
                if i < front.len() {
                    assert(front[i] == p);
                    assert(d.contains(p));
                    let j = choose|j: int| 0 <= j < d.len() && d[j] == p;
                    assert(all[j] == p);
                } else {
                    assert(all[d.len() as int] == p);
                }
            }
        }
        assert(all.no_duplicates()) by {
            assert(!d.contains(last));
        }
    }
}

/// Pruning keeps exactly the panes that some window shows, and with the local peers they
/// had: a pane that was moved to another window is not touched.
pub proof fn law_prune_keeps_exactly_the_live_panes(v: DomainView, pane: TmuxPaneId)
    requires
        v.panes.dom().finite(),
    ensures
        pruned(v).view.panes.dom().contains(pane) <==> v.panes.dom().contains(pane) && is_live(
            v,
            pane,
        ),
        pruned(v).view.panes.dom().contains(pane) ==> pruned(v).view.panes[pane] == v.panes[pane],
{
    lemma_ascending(v.panes.dom());
    let ids = ascending(v.panes.dom());
    lemma_dead_among(v, ids);
    lemma_without(v.panes, dead_panes(v), pane);
    if v.panes.dom().contains(pane) {
        assert(ids.to_set().contains(pane));
    }
}

/// The prune waits for pending work: until the domain is quiescent it touches nothing and
/// stays scheduled.
pub proof fn law_prune_waits_for_pending_work(v: DomainView)
    requires
        !quiescent(v),
    ensures
        prune_task_run(v).view == v,
        prune_task_run(v).actions == seq![ActionView::SchedulePrune { domain_id: v.domain_id }],
{
}

// ---------------------------------------------------------------------------
// Layouts
// ---------------------------------------------------------------------------

/// The size of a pane that is drawn, in cells and in pixels.
#[derive(Debug, Clone, Copy, PartialEq, Eq)]
pub struct RenderableDimensions {
    pub cols: usize,
    pub viewport_rows: usize,
    pub pixel_width: usize,
    pub pixel_height: usize,
    pub dpi: u32,
}

/// The size of one character in a pane; zero where the pane has none.
pub open spec fn cell_pixels(d: Option<RenderableDimensions>) -> CellPixels {
    match d {
        Some(d) => CellPixels {
            width: if d.cols > 0 {
                (d.pixel_width / d.cols) as usize
            } else {
                0
            },
            height: if d.viewport_rows > 0 {
                (d.pixel_height / d.viewport_rows) as usize
            } else {
                0
            },
        },
        None => CellPixels { width: 0, height: 0 },
    }
}

/// The resolution of a pane; zero where there is none.
pub open spec fn dpi_of(d: Option<RenderableDimensions>) -> u32 {
    match d {
        Some(d) => d.dpi,
        None => 0,
    }
}

/// Cell pixel geometry + dpi from the controlling tmux pane, used to fill
/// `TerminalSize` pixel fields. Falls back to zeros (tolerated by the layout
/// math) if the controlling pane is unavailable.
pub fn cell_pixel_dimensions(d: Option<RenderableDimensions>) -> (r: (CellPixels, u32))
    ensures
        r == (cell_pixels(d), dpi_of(d)),
{
    match d {
        Some(d) => {
            let width = if d.cols > 0 {
                d.pixel_width / d.cols
            } else {
                0
            };
            let height = if d.viewport_rows > 0 {
                d.pixel_height / d.viewport_rows
            } else {
                0
            };
            (CellPixels { width, height }, d.dpi)
        },
        None => (CellPixels { width: 0, height: 0 }, 0),
    }
}

/// What the multiplexer has to say when a layout is applied.
#[derive(Debug)]
pub struct LayoutFacts {
    /// Whether the local tab exists.
    pub tab_exists: bool,
    /// The local panes that were created, one for each that [`TmuxDomainState::plan_layout`]
    /// asks for, in that order; nothing for one that could not be created.
    pub created: Vec<Option<PaneId>>,
    /// The local panes that exist, those that were created among them.
    pub live: Vec<PaneId>,
    /// The workspace of the window that shows the tabs.
    pub workspace: String,
    /// The size of the pane that tmux runs in, if it exists.
    pub dimensions: Option<RenderableDimensions>,
}

/// [`LayoutFacts`] as a mathematical value.
pub struct FactsView {
    pub tab_exists: bool,
    pub created: Seq<Option<PaneId>>,
    pub live: Seq<PaneId>,
    pub workspace: Seq<char>,
    pub dimensions: Option<RenderableDimensions>,
}

impl View for LayoutFacts {
    type V = FactsView;

    open spec fn view(&self) -> FactsView {
        FactsView {
            tab_exists: self.tab_exists,
            created: self.created@,
            live: self.live@,
            workspace: self.workspace@,
            dimensions: self.dimensions,
        }
    }
}

/// A state, the actions that lead there, and whether it went well.
pub struct Outcome {
    pub view: DomainView,
    pub actions: Seq<ActionView>,
    pub result: Result<(), TmuxError>,
}

/// A failure that leaves the state as it is.
pub open spec fn fails(v: DomainView, e: TmuxError) -> Outcome {
    Outcome { view: v, actions: Seq::empty(), result: Err(e) }
}

/// The pane that a leaf of a layout describes.
pub open spec fn item_of(
    window: TmuxWindowId,
    leaf: (TmuxPaneId, TmuxLayoutCell),
) -> PaneItem {
    PaneItem {
        session_id: 0,
        window_id: window,
        pane_id: leaf.0,
        pane_index: 0,
        cursor_x: 0,
        cursor_y: 0,
        pane_width: leaf.1.width,
        pane_height: leaf.1.height,
        pane_left: leaf.1.left,
        pane_top: leaf.1.top,
        pane_active: false,
    }
}

/// The pane that is kept for a pane that tmux tells about.
pub open spec fn remote_pane(item: PaneItem, local: PaneId) -> TmuxRemotePane {
    TmuxRemotePane {
        local_pane_id: local,
        session_id: 0,
        window_id: item.window_id,
        pane_id: item.pane_id,
        cursor_x: item.cursor_x,
        cursor_y: item.cursor_y,
        pane_width: item.pane_width,
        pane_height: item.pane_height,
        pane_left: item.pane_left,
        pane_top: item.pane_top,
    }
}

/// Every value of a table is set as a user var of a pane.
pub open spec fn seeded(local: PaneId, values: Seq<(Seq<char>, Seq<char>)>) -> Seq<ActionView> {
    values.map_values(
        |entry: (Seq<char>, Seq<char>)|
            ActionView::SetUserVar { pane: local, name: entry.0, value: entry.1 },
    )
}

/// The state and the actions after a local pane was created: it is kept and added, shows the
/// current values of subscriptions and what tmux wrote before it was there, and its content
/// is captured if `capture` gives the length of its history.
pub open spec fn pane_created(
    v: DomainView,
    item: PaneItem,
    local: PaneId,
    capture: Option<isize>,
) -> Step {
    let kept = DomainView {
        panes: v.panes.insert(item.pane_id, remote_pane(item, local)),
        backlog: v.backlog.remove(item.pane_id),
        ..v
    };
    let added = seeded(local, v.session_format_values + values_of_window(v, item.window_id)).push(
        ActionView::AddPane { pane: local },
    );
    Step {
        view: match capture {
            Some(history_limit) => enqueued(
                kept,
                TmuxCommand::CapturePane(CapturePane { pane_id: item.pane_id, history_limit }),
            ),
            None => kept,
        },
        actions: if v.backlog.dom().contains(item.pane_id) {
            added.push(
                ActionView::WriteOutput { pane: item.pane_id, text: v.backlog[item.pane_id] },
            )
        } else {
            added
        },
    }
}

/// The outcome of reconciling the panes with the leaves of a layout.
pub struct Reconciled {
    pub view: DomainView,
    pub actions: Seq<ActionView>,
    /// The local panes that are new.
    pub newly: Seq<PaneId>,
    /// The pane that could not be created, if any.
    pub failed: Option<TmuxPaneId>,
}

/// Creates local panes for tmux panes that were not seen yet, and reuses the rest. Stops at
/// the first pane that could not be created.
pub open spec fn reconciled(
    v: DomainView,
    window: TmuxWindowId,
    leaves: Seq<(TmuxPaneId, TmuxLayoutCell)>,
    created: Seq<Option<PaneId>>,
    capture: Option<isize>,
) -> Reconciled
    decreases leaves.len(),
{
    if leaves.len() == 0 {
        Reconciled { view: v, actions: Seq::empty(), newly: Seq::empty(), failed: None }
    } else {
        let r = reconciled(v, window, leaves.drop_last(), created, capture);
        let leaf = leaves.last();
        if r.failed is Some || r.view.panes.dom().contains(leaf.0) {
            r
        } else if r.newly.len() < created.len() && created[r.newly.len() as int] is Some {
            let local = created[r.newly.len() as int]->0;
            let step = pane_created(r.view, item_of(window, leaf), local, capture);
            Reconciled {
                view: step.view,
                actions: r.actions + step.actions,
                newly: r.newly.push(local),
                failed: None,
            }
        } else {
            Reconciled { failed: Some(leaf.0), ..r }
        }
    }
}

/// Why the local peer of one of the leaves is missing, if one is.
pub open spec fn missing(
    v: DomainView,
    leaves: Seq<(TmuxPaneId, TmuxLayoutCell)>,
    live: Seq<PaneId>,
) -> Option<TmuxError>
    decreases leaves.len(),
{
    if leaves.len() == 0 {
        None
    } else {
        match missing(v, leaves.drop_last(), live) {
            Some(e) => Some(e),
            None => if !v.panes.dom().contains(leaves.last().0) {
                Some(TmuxError::PaneMissing(leaves.last().0))
            } else if !live.contains(v.panes[leaves.last().0].local_pane_id) {
                Some(TmuxError::LocalPaneMissing(v.panes[leaves.last().0].local_pane_id))
            } else {
                None
            },
        }
    }
}

/// The local peers of the leaves.
pub open spec fn peers(
    panes: Map<TmuxPaneId, TmuxRemotePane>,
    leaves: Seq<(TmuxPaneId, TmuxLayoutCell)>,
) -> Map<TmuxPaneId, PaneId> {
    Map::new(
        |pane: TmuxPaneId| ids_of(leaves).contains(pane),
        |pane: TmuxPaneId| panes[pane].local_pane_id,
    )
}

/// What a layout is turned into a tree of panes with.
pub open spec fn context_of(
    v: DomainView,
    window: TmuxWindowId,
    gui_window: WindowId,
    tree: LayoutTree,
    active_pane: Option<TmuxPaneId>,
    zoomed_pane: Option<TmuxPaneId>,
    facts: FactsView,
) -> ContextView {
    ContextView {
        window_id: gui_window,
        tab_id: v.tabs[window].tab_id,
        workspace: facts.workspace,
        dpi: dpi_of(facts.dimensions),
        cell_pixel_width: cell_pixels(facts.dimensions).width,
        cell_pixel_height: cell_pixels(facts.dimensions).height,
        active_pane,
        zoomed_pane,
        local_pane_ids: peers(v.panes, tree.leaves()),
    }
}

/// How many of the splits that wait can be told of a new pane.
pub open spec fn resolvable(v: DomainView, newly: Seq<PaneId>) -> nat {
    if newly.len() < v.pending_splits.len() {
        newly.len()
    } else {
        v.pending_splits.len()
    }
}

/// The state and the actions after those who wait for a split were told of the new panes,
/// the first who asked being told of the first pane.
pub open spec fn splits_resolved(v: DomainView, newly: Seq<PaneId>) -> Step {
    let n = resolvable(v, newly);
    Step {
        view: DomainView { pending_splits: v.pending_splits.skip(n as int), ..v },
        actions: Seq::new(
            n,
            |i: int| ActionView::ResolveSplit { ticket: v.pending_splits[i], pane: newly[i] },
        ),
    }
}

/// The state with the panes of a window noted.
pub open spec fn with_panes(
    v: DomainView,
    window: TmuxWindowId,
    panes: Seq<TmuxPaneId>,
) -> DomainView {
    DomainView { tabs: v.tabs.insert(window, TabView { panes, ..v.tabs[window] }), ..v }
}

/// The outcome of applying a layout to a window that has a local tab: the panes are
/// reconciled, the tab's tree is rebuilt, the window's panes are noted, and those who wait
/// for a split are told (unless the window is being captured). Panes that are in no window
/// any more will be pruned.
pub open spec fn layout_applied(
    v: DomainView,
    window: TmuxWindowId,
    tree: LayoutTree,
    active_pane: Option<TmuxPaneId>,
    zoomed_pane: Option<TmuxPaneId>,
    capture_new: bool,
    facts: FactsView,
) -> Outcome {
    if !v.tabs.dom().contains(window) {
        fails(v, TmuxError::NoLocalTab(window))
    } else if !facts.tab_exists {
        fails(v, TmuxError::LocalTabGone(v.tabs[window].tab_id))
    } else {
        let leaves = tree.leaves();
        let capture = if capture_new {
            Some(v.tabs[window].history_limit)
        } else {
            None
        };
        let r = reconciled(v, window, leaves, facts.created, capture);
        match (r.failed, missing(r.view, leaves, facts.live), r.view.gui_window) {
            (Some(pane), _, _) => Outcome {
                view: r.view,
                actions: r.actions,
                result: Err(TmuxError::PaneCreationFailed(pane)),
            },
            (None, Some(e), _) => Outcome { view: r.view, actions: r.actions, result: Err(e) },
            (None, None, None) => Outcome {
                view: r.view,
                actions: r.actions,
                result: Err(TmuxError::NoGuiWindow),
            },
            (None, None, Some(gui_window)) => {
                let ctx = context_of(
                    r.view,
                    window,
                    gui_window,
                    tree,
                    active_pane,
                    zoomed_pane,
                    facts,
                );
                let shown = ActionView::SyncPaneTree {
                    tab: v.tabs[window].tab_id,
                    size: size_of(ctx, tree.cell()),
                    root: node_of(tree, ctx),
                };
                let noted = with_panes(r.view, window, tree.pane_ids());
                let told = if capture_new {
                    stays(noted)
                } else {
                    splits_resolved(noted, r.newly)
                };
                let prune = prune_scheduled(told.view);
                Outcome {
                    view: prune.view,
                    actions: r.actions.push(shown) + told.actions + prune.actions,
                    result: Ok(()),
                }
            },
        }
    }
}

/// Whether nothing stands in the way of applying a layout to a tab: the tab and a window for
/// it exist, every pane that is new was created, and every local pane exists.
pub open spec fn is_ready(
    v: DomainView,
    window: TmuxWindowId,
    tree: LayoutTree,
    facts: FactsView,
) -> bool {
    let r = reconciled(v, window, tree.leaves(), facts.created, None);
    &&& facts.tab_exists
    &&& r.failed is None
    &&& missing(r.view, tree.leaves(), facts.live) is None
    &&& v.gui_window is Some
}

/// The panes that have to be created for a layout to be applied, in layout order.
pub open spec fn planned(
    v: DomainView,
    window: TmuxWindowId,
    leaves: Seq<(TmuxPaneId, TmuxLayoutCell)>,
) -> Seq<PaneItem>
    decreases leaves.len(),
{
    if leaves.len() == 0 {
        Seq::empty()
    } else {
        let before = planned(v, window, leaves.drop_last());
        let leaf = leaves.last();
        if v.panes.dom().contains(leaf.0) || ids_of(leaves.drop_last()).contains(leaf.0) {
            before
        } else {
            before.push(item_of(window, leaf))
        }
    }
}

fn item_for(window: TmuxWindowId, pane: TmuxPaneId, cell: &TmuxLayoutCell) -> (item: PaneItem)
    ensures
        item == item_of(window, (pane, *cell)),
{
    PaneItem {
        session_id: 0,
        window_id: window,
        pane_id: pane,
        pane_index: 0,
        cursor_x: 0,
        cursor_y: 0,
        pane_width: cell.width,
        pane_height: cell.height,
        pane_left: cell.left,
        pane_top: cell.top,
        pane_active: false,
    }
}

fn contains_leaf(leaves: &Vec<(TmuxPaneId, TmuxLayoutCell)>, n: usize, pane: TmuxPaneId) -> (r:
    bool)
    requires
        n <= leaves@.len(),
    ensures
        r == ids_of(leaves@.take(n as int)).contains(pane),
{
    let ghost ids = ids_of(leaves@.take(n as int));
    let mut i: usize = 0;
    while i < n
        invariant
            i <= n <= leaves@.len(),
            ids == ids_of(leaves@.take(n as int)),
            forall|j: int| 0 <= j < i ==> ids[j] != pane,
        decreases n - i,
    {
        assert(ids[i as int] == leaves@[i as int].0);
        if leaves[i].0 == pane {
            return true;
        }
        i += 1;
    }
    false
}

fn contains_pane(live: &Vec<PaneId>, pane: PaneId) -> (r: bool)
    ensures
        r == live@.contains(pane),
{
    let mut i: usize = 0;
    while i < live.len()
        invariant
            i <= live@.len(),
            forall|j: int| 0 <= j < i ==> live@[j] != pane,
        decreases live@.len() - i,
    {
        if live[i] == pane {
            return true;
        }
        i += 1;
    }
    false
}

/// Appends the setting of every value of a table as a user var of a pane.
fn push_seeds(actions: &mut Vec<Action>, local: PaneId, values: &StringTable)
    ensures
        action_views(final(actions)@) == action_views(old(actions)@) + seeded(local, values@),
{
    let ghost before = action_views(actions@);
    let mut i: usize = 0;
    assert(action_views(actions@) == before + seeded(local, values@.take(0)));
    while i < values.entries.len()
        invariant
            i <= values.entries@.len(),
            before == action_views(old(actions)@),
            action_views(actions@) == before + seeded(local, values@.take(i as int)),
        decreases values.entries@.len() - i,
    {
        let name = values.entries[i].0.clone();
        let value = values.entries[i].1.clone();
        push_action(actions, Action::SetUserVar { pane: local, name, value });
        assert(action_views(actions@) == before + seeded(local, values@.take(i + 1)));
        i += 1;
    }
    assert(values@.take(values@.len() as int) == values@);
}

impl TmuxDomainState {
    /// The panes that have to be created for a layout to be applied, in layout order.
    pub fn plan_layout(&self, window_id: TmuxWindowId, layout: &TmuxLayoutNode) -> (plan: Vec<
        PaneItem,
    >)
        ensures
            plan@ == planned(self@, window_id, layout@.leaves()),
    {
        let leaves = layout.leaves();
        let mut plan: Vec<PaneItem> = Vec::new();
        let mut i: usize = 0;
        assert(leaves@.take(0) == Seq::<(TmuxPaneId, TmuxLayoutCell)>::empty());
        while i < leaves.len()
            invariant
                i <= leaves@.len(),
                plan@ == planned(self@, window_id, leaves@.take(i as int)),
            decreases leaves@.len() - i,
        {
            assert(leaves@.take(i + 1).drop_last() == leaves@.take(i as int));
            let (pane, cell) = leaves[i];
            if !self.remote_panes.contains(pane) && !contains_leaf(&leaves, i, pane) {
                plan.push(item_for(window_id, pane, &cell));
            }
            i += 1;
        }
        assert(leaves@.take(leaves@.len() as int) == leaves@);
        plan
    }

    /// The user vars that a new pane begins with. tmux only re-emits values when they
    /// change, so without these a new tab would have empty values until the
    /// next change (e.g. up to a minute for a clock in status-left).
    fn seed(&self, local: PaneId, window_id: TmuxWindowId) -> (actions: Vec<Action>)
        ensures
            action_views(actions@) == seeded(
                local,
                self@.session_format_values + values_of_window(self@, window_id),
            ),
    {
        let mut actions: Vec<Action> = Vec::new();
        push_seeds(&mut actions, local, &self.session_format_values);
        if let Some(values) = self.window_format_values.get(window_id) {
            push_seeds(&mut actions, local, values);
        }
        assert(action_views(actions@) == seeded(
            local,
            self@.session_format_values + values_of_window(self@, window_id),
        ));
        actions
    }

    /// Takes in a local pane that was created for a tmux pane.
    fn create_pane(&mut self, item: &PaneItem, local: PaneId, capture: Option<isize>) -> (actions:
        Vec<Action>)
        ensures
            pane_created(old(self)@, *item, local, capture) == (Step {
                view: final(self)@,
                actions: action_views(actions@),
            }),
    {
        let mut actions = self.seed(local, item.window_id);
        let pane = TmuxRemotePane {
            local_pane_id: local,
            session_id: 0,
            window_id: item.window_id,
            pane_id: item.pane_id,
            cursor_x: item.cursor_x,
            cursor_y: item.cursor_y,
            pane_width: item.pane_width,
            pane_height: item.pane_height,
            pane_left: item.pane_left,
            pane_top: item.pane_top,
        };
        self.remote_panes.insert(item.pane_id, pane);
        push_action(&mut actions, Action::AddPane { pane: local });
        proof {
            lemma_bytes_removed(self.backlog@, item.pane_id);
        }
        // Flush any output that arrived before the pane existed.
        if let Some(text) = self.backlog.remove(item.pane_id) {
            push_action(&mut actions, Action::WriteOutput { pane: item.pane_id, text });
        }
        if let Some(history_limit) = capture {
            self.cmd_queue.push_back(
                TmuxCommand::CapturePane(CapturePane { pane_id: item.pane_id, history_limit }),
            );
        }
        actions
    }

    /// Creates local panes for tmux panes we have not seen yet (split results, freshly
    /// attached windows); reuses the rest.
    fn reconcile(
        &mut self,
        window_id: TmuxWindowId,
        leaves: &Vec<(TmuxPaneId, TmuxLayoutCell)>,
        created: &Vec<Option<PaneId>>,
        capture: Option<isize>,
    ) -> (r: (Vec<Action>, Vec<PaneId>, Option<TmuxPaneId>))
        ensures
            reconciled(old(self)@, window_id, leaves@, created@, capture) == (Reconciled {
                view: final(self)@,
                actions: action_views(r.0@),
                newly: r.1@,
                failed: r.2,
            }),
    {
        let ghost start = self@;
        let mut actions: Vec<Action> = Vec::new();
        let mut newly: Vec<PaneId> = Vec::new();
        let mut i: usize = 0;
        assert(leaves@.take(0) == Seq::<(TmuxPaneId, TmuxLayoutCell)>::empty());
        assert(action_views(actions@) == Seq::<ActionView>::empty());
        while i < leaves.len()
            invariant
                i <= leaves@.len(),
                start == old(self)@,
                reconciled(start, window_id, leaves@.take(i as int), created@, capture) == (
                Reconciled {
                    view: self@,
                    actions: action_views(actions@),
                    newly: newly@,
                    failed: None,
                }),
            decreases leaves@.len() - i,
        {
            let ghost upto = leaves@.take(i + 1);
            assert(upto.drop_last() == leaves@.take(i as int));
            assert(upto.last() == leaves@[i as int]);
            let (pane, cell) = leaves[i];
            if !self.remote_panes.contains(pane) {
                let local = if newly.len() < created.len() {
                    created[newly.len()]
                } else {
                    None
                };
                match local {
                    Some(local) => {
                        let item = item_for(window_id, pane, &cell);
                        let ghost before = action_views(actions@);
                        let mut more = self.create_pane(&item, local, capture);
                        let ghost new = action_views(more@);
                        actions.append(&mut more);
                        assert(action_views(actions@) == before + new);
                        newly.push(local);
                    },
                    None => {
                        proof {
                            lemma_reconcile_stops(
                                start,
                                window_id,
                                leaves@,
                                created@,
                                capture,
                                i + 1,
                            );
                        }
                        return (actions, newly, Some(pane));
                    },
                }
            }
            i += 1;
        }
        assert(leaves@.take(leaves@.len() as int) == leaves@);
        (actions, newly, None)
    }

    /// Collects the local peers of the leaves.
    fn locate(&self, leaves: &Vec<(TmuxPaneId, TmuxLayoutCell)>, live: &Vec<PaneId>) -> (r: Result<
        HashMap<TmuxPaneId, PaneId>,
        TmuxError,
    >)
        ensures
            match r {
                Ok(ids) => missing(self@, leaves@, live@) is None && ids@ == peers(
                    self@.panes,
                    leaves@,
                ),
                Err(e) => missing(self@, leaves@, live@) == Some(e),
            },
    {
        broadcast use vstd::std_specs::hash::group_hash_axioms;

        let mut ids: HashMap<TmuxPaneId, PaneId> = HashMap::new();
        let mut i: usize = 0;
        assert(leaves@.take(0) == Seq::<(TmuxPaneId, TmuxLayoutCell)>::empty());
        assert(ids@ == peers(self@.panes, leaves@.take(0)));
        while i < leaves.len()
            invariant
                i <= leaves@.len(),
                missing(self@, leaves@.take(i as int), live@) is None,
                ids@ == peers(self@.panes, leaves@.take(i as int)),
            decreases leaves@.len() - i,
        {
            broadcast use vstd::std_specs::hash::group_hash_axioms;

            let ghost upto = leaves@.take(i + 1);
            assert(upto.drop_last() == leaves@.take(i as int));
            assert(upto.last() == leaves@[i as int]);
            let pane = leaves[i].0;
            let local = match self.remote_panes.get(pane) {
                Some(p) => p.local_pane_id,
                None => {
                    proof {
                        lemma_missing_stays(self@, leaves@, live@, i + 1);
                    }
                    return Err(TmuxError::PaneMissing(pane));
                },
            };
            if !contains_pane(live, local) {
                proof {
                    lemma_missing_stays(self@, leaves@, live@, i + 1);
                }
                return Err(TmuxError::LocalPaneMissing(local));
            }
            ids.insert(pane, local);
            proof {
                lemma_peers_grow(self@.panes, leaves@, i as int);
            }
            i += 1;
        }
        assert(leaves@.take(leaves@.len() as int) == leaves@);
        Ok(ids)
    }

    /// Tells those who wait for a split of the new panes.
    fn resolve_splits(&mut self, newly: &Vec<PaneId>) -> (actions: Vec<Action>)
        ensures
            splits_resolved(old(self)@, newly@) == (Step {
                view: final(self)@,
                actions: action_views(actions@),
            }),
    {
        let ghost start = self@;
        let mut actions: Vec<Action> = Vec::new();
        let mut i: usize = 0;
        assert(start.pending_splits.skip(0) == start.pending_splits);
        assert(action_views(actions@) == splits_resolved(start, newly@).actions.take(0));
        while i < newly.len() && self.pending_splits.len() > 0
            invariant
                i <= newly@.len(),
                i <= start.pending_splits.len(),
                start == old(self)@,
                self@ == (DomainView {
                    pending_splits: start.pending_splits.skip(i as int),
                    ..start
                }),
                action_views(actions@) == splits_resolved(start, newly@).actions.take(i as int),
            decreases newly@.len() - i,
        {
            let ghost rest = self@.pending_splits;
            if let Some(ticket) = self.pending_splits.pop_front() {
                assert(ticket == start.pending_splits[i as int]);
                assert(rest.subrange(1, rest.len() as int) == start.pending_splits.skip(i + 1));
                push_action(&mut actions, Action::ResolveSplit { ticket, pane: newly[i] });
                assert(action_views(actions@) == splits_resolved(start, newly@).actions.take(
                    i + 1,
                ));
            }
            i += 1;
        }
        proof {
            assert(i == resolvable(start, newly@));
            assert(splits_resolved(start, newly@).actions.take(i as int) == splits_resolved(
                start,
                newly@,
            ).actions);
        }
        actions
    }

    /// Notes the panes of a window that has a local tab.
    fn note_panes(&mut self, window_id: TmuxWindowId, panes: Vec<TmuxPaneId>)
        requires
            old(self)@.tabs.dom().contains(window_id),
        ensures
            final(self)@ == with_panes(old(self)@, window_id, panes@),
    {
        if let Some(tab) = self.gui_tabs.remove(window_id) {
            let tab = TmuxTab { panes, ..tab };
            let ghost m = self.gui_tabs@;
            self.gui_tabs.insert(window_id, tab);
            proof {
                lemma_tab_inserted(m, window_id, tab);
                assert(self@.tabs == with_panes(old(self)@, window_id, panes@).tabs);
            }
        }
    }
}

proof fn lemma_reconcile_stops(
    v: DomainView,
    window: TmuxWindowId,
    leaves: Seq<(TmuxPaneId, TmuxLayoutCell)>,
    created: Seq<Option<PaneId>>,
    capture: Option<isize>,
    n: int,
)
    requires
        0 <= n <= leaves.len(),
        reconciled(v, window, leaves.take(n), created, capture).failed is Some,
    ensures
        reconciled(v, window, leaves, created, capture) == reconciled(
            v,
            window,
            leaves.take(n),
            created,
            capture,
        ),
    decreases leaves.len() - n,
{
    if n == leaves.len() {
        assert(leaves.take(n) == leaves);
    } else {
        assert(leaves.take(n + 1).drop_last() == leaves.take(n));
        lemma_reconcile_stops(v, window, leaves, created, capture, n + 1);
    }
}

proof fn lemma_missing_stays(
    v: DomainView,
    leaves: Seq<(TmuxPaneId, TmuxLayoutCell)>,
    live: Seq<PaneId>,
    n: int,
)
    requires
        0 <= n <= leaves.len(),
        missing(v, leaves.take(n), live) is Some,
    ensures
        missing(v, leaves, live) == missing(v, leaves.take(n), live),
    decreases leaves.len() - n,
{
    if n == leaves.len() {
        assert(leaves.take(n) == leaves);
    } else {
        assert(leaves.take(n + 1).drop_last() == leaves.take(n));
        lemma_missing_stays(v, leaves, live, n + 1);
    }
}

proof fn lemma_peers_grow(
    panes: Map<TmuxPaneId, TmuxRemotePane>,
    leaves: Seq<(TmuxPaneId, TmuxLayoutCell)>,
    i: int,
)
    requires
        0 <= i < leaves.len(),
    ensures
        peers(panes, leaves.take(i + 1)) == peers(panes, leaves.take(i)).insert(
            leaves[i].0,
            panes[leaves[i].0].local_pane_id,
        ),
{
    lemma_leaf_ids_grow(leaves, i);
    assert(peers(panes, leaves.take(i + 1)) =~= peers(panes, leaves.take(i)).insert(
        leaves[i].0,
        panes[leaves[i].0].local_pane_id,
    ));
}

/// Reconciling touches nothing but the panes, their early output and the queue.
pub proof fn lemma_reconcile_keeps(
    v: DomainView,
    window: TmuxWindowId,
    leaves: Seq<(TmuxPaneId, TmuxLayoutCell)>,
    created: Seq<Option<PaneId>>,
    capture: Option<isize>,
)
    ensures
        ({
            let r = reconciled(v, window, leaves, created, capture).view;
            r == (DomainView { panes: r.panes, backlog: r.backlog, queue: r.queue, ..v })
        }),
    decreases leaves.len(),
{
    if leaves.len() > 0 {
        lemma_reconcile_keeps(v, window, leaves.drop_last(), created, capture);
    }
}

/// Which panes reconciling comes to rests on the panes that are known and on those that were
/// created, and on nothing else.
proof fn lemma_reconcile_rests_on_panes(
    v: DomainView,
    w: DomainView,
    window: TmuxWindowId,
    leaves: Seq<(TmuxPaneId, TmuxLayoutCell)>,
    created: Seq<Option<PaneId>>,
    capture: Option<isize>,
    other: Option<isize>,
)
    requires
        v.panes == w.panes,
    ensures
        ({
            let a = reconciled(v, window, leaves, created, capture);
            let b = reconciled(w, window, leaves, created, other);
            a.view.panes == b.view.panes && a.newly == b.newly && a.failed == b.failed
        }),
    decreases leaves.len(),
{
    if leaves.len() > 0 {
        lemma_reconcile_rests_on_panes(
            v,
            w,
            window,
            leaves.drop_last(),
            created,
            capture,
            other,
        );
    }
}

/// What is missing rests on the panes alone.
pub proof fn lemma_missing_rests_on_panes(
    v: DomainView,
    w: DomainView,
    leaves: Seq<(TmuxPaneId, TmuxLayoutCell)>,
    live: Seq<PaneId>,
)
    requires
        v.panes == w.panes,
    ensures
        missing(v, leaves, live) == missing(w, leaves, live),
    decreases leaves.len(),
{
    if leaves.len() > 0 {
        lemma_missing_rests_on_panes(v, w, leaves.drop_last(), live);
    }
}

/// One more leaf is one more id.
proof fn lemma_leaf_ids_grow(leaves: Seq<(TmuxPaneId, TmuxLayoutCell)>, i: int)
    requires
        0 <= i < leaves.len(),
    ensures
        forall|p: TmuxPaneId| #[trigger]
            ids_of(leaves.take(i + 1)).contains(p) <==> ids_of(leaves.take(i)).contains(p) || p
                == leaves[i].0,
{
    let small = ids_of(leaves.take(i));
    let large = ids_of(leaves.take(i + 1));
    assert(large == small.push(leaves[i].0));
    assert forall|p: TmuxPaneId| #[trigger] large.contains(p) <==> small.contains(p) || p
        == leaves[i].0 by {
        if small.contains(p) {
            let j = choose|j: int| 0 <= j < small.len() && small[j] == p;
            assert(large[j] == p);
        }
        if p == leaves[i].0 {
            assert(large[i] == p);
        }
    }
}

/// Reconciling keeps the panes that are known.
proof fn lemma_reconcile_keeps_panes(
    v: DomainView,
    window: TmuxWindowId,
    leaves: Seq<(TmuxPaneId, TmuxLayoutCell)>,
    created: Seq<Option<PaneId>>,
    capture: Option<isize>,
    n: int,
    pane: TmuxPaneId,
)
    requires
        0 <= n <= leaves.len(),
        reconciled(v, window, leaves.take(n), created, capture).view.panes.dom().contains(pane),
    ensures
        ({
            let front = reconciled(v, window, leaves.take(n), created, capture).view.panes;
            let all = reconciled(v, window, leaves, created, capture).view.panes;
            all.dom().contains(pane) && all[pane] == front[pane]
        }),
    decreases leaves.len(),
{
    if n == leaves.len() {
        assert(leaves.take(n) == leaves);
    } else {
        assert(leaves.drop_last().take(n) == leaves.take(n));
        lemma_reconcile_keeps_panes(v, window, leaves.drop_last(), created, capture, n, pane);
    }
}

/// Where the local pane of a leaf does not exist, something is missing.
proof fn lemma_lost_leaf_is_missing(
    v: DomainView,
    leaves: Seq<(TmuxPaneId, TmuxLayoutCell)>,
    live: Seq<PaneId>,
    i: int,
)
    requires
        0 <= i < leaves.len(),
        !live.contains(v.panes[leaves[i].0].local_pane_id),
    ensures
        missing(v, leaves, live) is Some,
    decreases leaves.len(),
{
    if i < leaves.len() - 1 {
        assert(leaves.drop_last()[i] == leaves[i]);
        lemma_lost_leaf_is_missing(v, leaves.drop_last(), live, i);
    }
}

/// Where the local pane of every leaf exists, nothing is missing.
pub proof fn lemma_nothing_is_missing(
    v: DomainView,
    leaves: Seq<(TmuxPaneId, TmuxLayoutCell)>,
    live: Seq<PaneId>,
)
    requires
        forall|i: int|
            0 <= i < leaves.len() ==> v.panes.dom().contains((#[trigger] leaves[i]).0)
                && live.contains(v.panes[leaves[i].0].local_pane_id),
    ensures
        missing(v, leaves, live) is None,
    decreases leaves.len(),
{
    if leaves.len() > 0 {
        let front = leaves.drop_last();
        assert forall|i: int| 0 <= i < front.len() implies v.panes.dom().contains(
            (#[trigger] front[i]).0,
        ) && live.contains(v.panes[front[i].0].local_pane_id) by {
            assert(front[i] == leaves[i]);
        }
        lemma_nothing_is_missing(v, front, live);
        assert(v.panes.dom().contains(leaves[leaves.len() - 1].0));
    }
}

/// What stands in the way rests on the panes and the window for tabs alone.
proof fn lemma_ready_after(
    v: DomainView,
    w: DomainView,
    window: TmuxWindowId,
    tree: LayoutTree,
    facts: FactsView,
)
    requires
        v.panes == w.panes,
        v.gui_window == w.gui_window,
    ensures
        is_ready(v, window, tree, facts) == is_ready(w, window, tree, facts),
{
    let leaves = tree.leaves();
    let a = reconciled(v, window, leaves, facts.created, None);
    let b = reconciled(w, window, leaves, facts.created, None);
    lemma_reconcile_rests_on_panes(v, w, window, leaves, facts.created, None, None);
    lemma_missing_rests_on_panes(a.view, b.view, leaves, facts.live);
}

/// A layout is applied to a window that has a local tab if and only if nothing stands in the
/// way.
pub proof fn law_ready_layout_is_applied(
    v: DomainView,
    window: TmuxWindowId,
    tree: LayoutTree,
    active_pane: Option<TmuxPaneId>,
    zoomed_pane: Option<TmuxPaneId>,
    capture_new: bool,
    facts: FactsView,
)
    ensures
        layout_applied(v, window, tree, active_pane, zoomed_pane, capture_new, facts).result is Ok
            <==> v.tabs.dom().contains(window) && is_ready(v, window, tree, facts),
{
    let leaves = tree.leaves();
    let capture = if capture_new {
        Some(v.tabs[window].history_limit)
    } else {
        None
    };
    let a = reconciled(v, window, leaves, facts.created, capture);
    let b = reconciled(v, window, leaves, facts.created, None);
    lemma_reconcile_keeps(v, window, leaves, facts.created, capture);
    lemma_reconcile_rests_on_panes(v, v, window, leaves, facts.created, capture, None);
    lemma_missing_rests_on_panes(a.view, b.view, leaves, facts.live);
}

impl TmuxDomainState {
    /// Whether nothing stands in the way of applying a layout to the tab of a window. If so,
    /// its sizes have to fit.
    pub fn can_apply(
        &self,
        window_id: TmuxWindowId,
        layout: &TmuxLayoutNode,
        facts: &LayoutFacts,
    ) -> (r: bool)
        ensures
            r == is_ready(self@, window_id, layout@, facts@),
    {
        if !facts.tab_exists || self.gui_window.is_none() {
            return false;
        }
        let leaves = layout.leaves();
        let ghost created = facts.created@;
        let ghost live = facts.live@;
        let ghost all = reconciled(self@, window_id, leaves@, created, None);
        let mut fresh: usize = 0;
        let mut i: usize = 0;
        assert(leaves@.take(0) == Seq::<(TmuxPaneId, TmuxLayoutCell)>::empty());
        while i < leaves.len()
            invariant
                fresh <= i <= leaves@.len(),
                leaves@ == layout@.leaves(),
                created == facts.created@,
                live == facts.live@,
                facts.tab_exists,
                self.gui_window is Some,
                all == reconciled(self@, window_id, leaves@, created, None),
                ({
                    let r = reconciled(self@, window_id, leaves@.take(i as int), created, None);
                    &&& r.failed is None
                    &&& r.newly.len() == fresh
                    &&& forall|p: TmuxPaneId| #[trigger]
                        r.view.panes.dom().contains(p) <==> self@.panes.dom().contains(p) || ids_of(
                            leaves@.take(i as int),
                        ).contains(p)
                    &&& forall|p: TmuxPaneId| #[trigger]
                        self@.panes.dom().contains(p) ==> r.view.panes[p] == self@.panes[p]
                }),
                forall|j: int|
                    0 <= j < i ==> all.view.panes.dom().contains((#[trigger] leaves@[j]).0)
                        && live.contains(all.view.panes[leaves@[j].0].local_pane_id),
            decreases leaves@.len() - i,
        {
            let ghost upto = leaves@.take(i + 1);
            let ghost next = reconciled(self@, window_id, upto, created, None);
            let pane = leaves[i].0;
            proof {
                assert(upto.drop_last() == leaves@.take(i as int));
                assert(upto.last() == leaves@[i as int]);
                lemma_leaf_ids_grow(leaves@, i as int);
                if next.failed is Some {
                    lemma_reconcile_stops(self@, window_id, leaves@, created, None, i + 1);
                } else {
                    lemma_reconcile_keeps_panes(
                        self@,
                        window_id,
                        leaves@,
                        created,
                        None,
                        i + 1,
                        pane,
                    );
                }
            }
            if contains_leaf(&leaves, i, pane) {
                proof {
                    let ids = ids_of(leaves@.take(i as int));
                    let j = choose|j: int| 0 <= j < ids.len() && ids[j] == pane;
                    assert(leaves@[j].0 == pane);
                }
            } else {
                let local = match self.remote_panes.get(pane) {
                    Some(p) => Some(p.local_pane_id),
                    None => {
                        let local = if fresh < facts.created.len() {
                            facts.created[fresh]
                        } else {
                            None
                        };
                        fresh += 1;
                        local
                    },
                };
                let there = match local {
                    Some(local) => contains_pane(&facts.live, local),
                    None => false,
                };
                if !there {
                    proof {
                        if next.failed is None {
                            lemma_lost_leaf_is_missing(all.view, leaves@, live, i as int);
                        }
                    }
                    return false;
                }
            }
            i += 1;
        }
        assert(leaves@.take(leaves@.len() as int) == leaves@);
        proof {
            lemma_nothing_is_missing(all.view, leaves@, live);
        }
        true
    }

    /// Applies a parsed tmux window layout to the corresponding local tab,
    /// rebuilding its pane tree atomically (flicker-free, idempotent). New tmux
    /// panes are created and existing ones reused; panes that disappeared are
    /// reaped by the deferred global prune. The local tab for `window_id` must
    /// already exist.
    ///
    /// We always rebuild rather than skipping on an unchanged checksum: the
    /// rebuild reuses existing pane objects (so it is flicker-free and
    /// effectively idempotent), and zoom toggles arrive as a %layout-change
    /// whose full layout - and thus checksum - is unchanged, so a checksum
    /// skip would miss them.
    pub fn apply_layout(
        &mut self,
        window_id: TmuxWindowId,
        layout: &TmuxLayoutNode,
        active_pane: Option<TmuxPaneId>,
        zoomed_pane: Option<TmuxPaneId>,
        capture_new: bool,
        facts: &LayoutFacts,
    ) -> (r: (Vec<Action>, Result<(), TmuxError>))
        requires
            old(self)@.tabs.dom().contains(window_id) && is_ready(
                old(self)@,
                window_id,
                layout@,
                facts@,
            ) ==> window_fits(layout@, cell_pixels(facts.dimensions)),
        ensures
            layout_applied(
                old(self)@,
                window_id,
                layout@,
                active_pane,
                zoomed_pane,
                capture_new,
                facts@,
            ) == (Outcome { view: final(self)@, actions: action_views(r.0@), result: r.1 }),
    {
        let nothing: Vec<Action> = Vec::new();
        assert(action_views(nothing@) == Seq::<ActionView>::empty());
        let (tab_id, history_limit) = match self.gui_tabs.get(window_id) {
            Some(tab) => (tab.tab_id, tab.history_limit),
            None => {
                return (nothing, Err(TmuxError::NoLocalTab(window_id)));
            },
        };
        if !facts.tab_exists {
            return (nothing, Err(TmuxError::LocalTabGone(tab_id)));
        }
        // 1) Reconcile the pane set.

        let leaves = layout.leaves();
        let capture = if capture_new {
            Some(history_limit)
        } else {
            None
        };
        proof {
            lemma_reconcile_keeps(self@, window_id, leaves@, facts.created@, capture);
            law_ready_layout_is_applied(
                self@,
                window_id,
                layout@,
                active_pane,
                zoomed_pane,
                capture_new,
                facts@,
            );
        }
        let (mut actions, newly, failed) = self.reconcile(
            window_id,
            &leaves,
            &facts.created,
            capture,
        );
        if let Some(pane) = failed {
            return (actions, Err(TmuxError::PaneCreationFailed(pane)));
        }
        // 2) Collect the local ids; bail before touching
        // the tab if anything is unexpectedly missing.

        let local_pane_ids = match self.locate(&leaves, &facts.live) {
            Ok(ids) => ids,
            Err(e) => {
                return (actions, Err(e));
            },
        };
        // 3) Build the tree from the tmux layout.
        let gui_window = match self.gui_window {
            Some(w) => w,
            None => {
                return (actions, Err(TmuxError::NoGuiWindow));
            },
        };
        let (pixels, dpi) = cell_pixel_dimensions(facts.dimensions);
        let ctx = LayoutContext {
            window_id: gui_window,
            tab_id,
            workspace: facts.workspace.clone(),
            dpi,
            cell_pixel_width: pixels.width,
            cell_pixel_height: pixels.height,
            active_pane,
            zoomed_pane,
            local_pane_ids: &local_pane_ids,
        };
        let cell = layout.cell();
        let root = build_pane_node(layout, &ctx);
        let size = ctx.terminal_size(&cell);
        // 4) Atomically swap in the rebuilt tree, reusing existing pane objects.
        push_action(&mut actions, Action::SyncPaneTree { tab: tab_id, size, root });
        // 5) Record the new pane set (used by the global prune).
        let panes = layout.pane_ids();
        self.note_panes(window_id, panes);
        // 6) Resolve any user-initiated split awaiting a freshly created pane.
        let ghost before = action_views(actions@);
        let mut told: Vec<Action> = Vec::new();
        assert(action_views(told@) == Seq::<ActionView>::empty());
        if !capture_new {
            told = self.resolve_splits(&newly);
        }
        let ghost new = action_views(told@);
        actions.append(&mut told);
        assert(action_views(actions@) == before + new);
        // 7) Reap panes that no longer appear in any window, once quiescent.
        let prune = self.schedule_prune();
        push_opt_action(&mut actions, prune);
        (actions, Ok(()))
    }
}

/// Whether the flags of a window say that a pane of it is zoomed.
pub open spec fn is_zoomed(flags: Seq<char>) -> bool {
    until_char(flags, 'Z') < flags.len()
}

/// The pane that fills a window, if its visible layout is a single pane.
pub open spec fn sole_pane(visible: Seq<char>) -> Option<TmuxPaneId> {
    match layout_of(visible) {
        Some(LayoutTree::Leaf { pane_id, .. }) => Some(pane_id),
        _ => None,
    }
}

/// The zoomed pane after a layout change: the sole pane of the visible layout, and otherwise
/// the active pane.
pub open spec fn zoomed_after_change(
    visible: Option<Seq<char>>,
    flags: Option<Seq<char>>,
    active: Option<TmuxPaneId>,
) -> Option<TmuxPaneId> {
    match flags {
        Some(flags) => if is_zoomed(flags) {
            match visible {
                Some(visible) => match sole_pane(visible) {
                    Some(pane) => Some(pane),
                    None => active,
                },
                None => active,
            }
        } else {
            None
        },
        None => None,
    }
}

/// The outcome of a `%layout-change`. A window without a local tab is not concerned.
pub open spec fn layout_changed(
    v: DomainView,
    window: TmuxWindowId,
    layout: Seq<char>,
    visible: Option<Seq<char>>,
    flags: Option<Seq<char>>,
    facts: FactsView,
) -> Outcome {
    if !v.tabs.dom().contains(window) {
        Outcome { view: v, actions: Seq::empty(), result: Ok(()) }
    } else {
        match layout_of(layout) {
            Some(tree) => {
                let active = v.tabs[window].active_pane;
                layout_applied(
                    v,
                    window,
                    tree,
                    active,
                    zoomed_after_change(visible, flags, active),
                    false,
                    facts,
                )
            },
            None => fails(v, TmuxError::InvalidLayout),
        }
    }
}

fn has_zoom_flag(flags: &str) -> (r: bool)
    ensures
        r == is_zoomed(flags@),
{
    let flags = chars_of(flags);
    find_char(flags.as_slice(), 'Z') < flags.len()
}

fn find_sole_pane(visible: &str) -> (r: Option<TmuxPaneId>)
    ensures
        r == sole_pane(visible@),
{
    match parse_layout_tree(visible) {
        Ok(TmuxLayoutNode::Leaf { pane_id, .. }) => Some(pane_id),
        _ => None,
    }
}

/// What an optional string slice holds.
pub open spec fn opt_str(s: Option<&str>) -> Option<Seq<char>> {
    match s {
        Some(s) => Some(s@),
        None => None,
    }
}

impl TmuxDomainState {
    /// Handles a `%layout-change`: parses the layout, derives the zoom state, and
    /// rebuilds the local tab.
    pub fn handle_layout_change(
        &mut self,
        window_id: TmuxWindowId,
        layout: &str,
        visible_layout: Option<&str>,
        raw_flags: Option<&str>,
        facts: &LayoutFacts,
    ) -> (r: (Vec<Action>, Result<(), TmuxError>))
        requires
            layout_of(layout@) matches Some(tree) ==> old(self)@.tabs.dom().contains(window_id)
                && is_ready(old(self)@, window_id, tree, facts@) ==> window_fits(
                tree,
                cell_pixels(facts.dimensions),
            ),
        ensures
            layout_changed(
                old(self)@,
                window_id,
                layout@,
                opt_str(visible_layout),
                opt_str(raw_flags),
                facts@,
            ) == (Outcome { view: final(self)@, actions: action_views(r.0@), result: r.1 }),
    {
        let nothing: Vec<Action> = Vec::new();
        assert(action_views(nothing@) == Seq::<ActionView>::empty());
        let active = match self.gui_tabs.get(window_id) {
            Some(tab) => tab.active_pane,
            // tmux does not emit %layout-change for a window before it is linked
            // (window-add + list-windows build its tab); ignore until then.
            None => {
                return (nothing, Ok(()));
            },
        };
        let tree = match parse_layout_tree(layout) {
            Ok(tree) => tree,
            Err(_) => {
                return (nothing, Err(TmuxError::InvalidLayout));
            },
        };
        // The full layout always lists every pane; zoom is signalled by the `Z`
        // flag and the zoomed pane is the sole leaf of the visible layout
        // (equivalently, the active pane).
        let zoomed = match raw_flags {
            Some(flags) => has_zoom_flag(flags),
            None => false,
        };
        let zoomed_pane = if zoomed {
            match visible_layout {
                Some(visible) => match find_sole_pane(visible) {
                    Some(pane) => Some(pane),
                    None => active,
                },
                None => active,
            }
        } else {
            None
        };
        self.apply_layout(window_id, &tree, active, zoomed_pane, false, facts)
    }
}

// ---------------------------------------------------------------------------
// Listed panes
// ---------------------------------------------------------------------------

/// The state and the actions after the cursor of a pane was looked at. A pane whose cursor
/// has not moved shows what tmux wrote early; otherwise its content was captured, which
/// supersedes that, and the cursor goes where tmux has it.
pub open spec fn cursor_synced(v: DomainView, item: PaneItem, c: StableCursorPosition) -> Step {
    let local = v.panes[item.pane_id].local_pane_id;
    let forgotten = DomainView { backlog: v.backlog.remove(item.pane_id), ..v };
    Step {
        view: forgotten,
        actions: if c.x == 0 && c.y == 0 {
            if v.backlog.dom().contains(item.pane_id) {
                seq![
                    ActionView::WriteOutput { pane: item.pane_id, text: v.backlog[item.pane_id] },
                ]
            } else {
                Seq::empty()
            }
        } else if item.cursor_x == 0 && item.cursor_y == 0 {
            Seq::empty()
        } else {
            seq![
                ActionView::SetCursor {
                    pane: local,
                    x: item.cursor_x as usize,
                    y: item.cursor_y as usize,
                },
            ]
        },
    }
}

/// Whether a pane that tmux lists is one of the session that has a local peer which exists.
pub open spec fn is_concerned(
    v: DomainView,
    item: PaneItem,
    cursors: Map<PaneId, StableCursorPosition>,
) -> bool {
    &&& v.session == Some(item.session_id)
    &&& pane_attached(v, item.window_id, item.pane_id)
    &&& v.panes.dom().contains(item.pane_id)
    &&& cursors.dom().contains(v.panes[item.pane_id].local_pane_id)
}

/// The state and the actions after tmux told about a pane.
pub open spec fn pane_synced(
    v: DomainView,
    item: PaneItem,
    cursors: Map<PaneId, StableCursorPosition>,
) -> Step {
    if !is_concerned(v, item, cursors) {
        stays(v)
    } else {
        let local = v.panes[item.pane_id].local_pane_id;
        let step = cursor_synced(v, item, cursors[local]);
        if item.pane_active {
            Step {
                view: with_active(step.view, item.window_id, item.pane_id),
                actions: step.actions.push(
                    ActionView::FocusPane {
                        tab: v.tabs[item.window_id].tab_id,
                        pane: local,
                        notify: true,
                    },
                ),
            }
        } else {
            step
        }
    }
}

/// The state and the actions after tmux told about panes.
pub open spec fn panes_synced(
    v: DomainView,
    items: Seq<PaneItem>,
    cursors: Map<PaneId, StableCursorPosition>,
) -> Step
    decreases items.len(),
{
    if items.len() == 0 {
        stays(v)
    } else {
        let before = panes_synced(v, items.drop_last(), cursors);
        let step = pane_synced(before.view, items.last(), cursors);
        Step { view: step.view, actions: before.actions + step.actions }
    }
}

impl TmuxDomainState {
    fn sync_pane(&mut self, item: &PaneItem, cursors: &HashMap<PaneId, StableCursorPosition>) -> (
        actions: Vec<Action>)
        ensures
            pane_synced(old(self)@, *item, cursors@) == (Step {
                view: final(self)@,
                actions: action_views(actions@),
            }),
    {
        broadcast use vstd::std_specs::hash::group_hash_axioms;

        let mut actions: Vec<Action> = Vec::new();
        assert(action_views(actions@) == Seq::<ActionView>::empty());
        let in_session = match self.tmux_session {
            Some(session) => session == item.session_id,
            None => false,
        };
        if !in_session || !self.check_pane_attached(item.window_id, item.pane_id) {
            return actions;
        }
        let local = match self.remote_panes.get(item.pane_id) {
            Some(pane) => pane.local_pane_id,
            None => {
                return actions;
            },
        };
        let c = match cursors.get(&local) {
            Some(c) => *c,
            None => {
                return actions;
            },
        };
        // We now have the cursor information, fix the cursor position
        proof {
            lemma_bytes_removed(self.backlog@, item.pane_id);
        }
        let early = self.backlog.remove(item.pane_id);
        if c.x == 0 && c.y == 0 {
            // no capture, output case
            if let Some(text) = early {
                push_action(&mut actions, Action::WriteOutput { pane: item.pane_id, text });
            }
        } else if !(item.cursor_x == 0 && item.cursor_y == 0) {
            push_action(
                &mut actions,
                Action::SetCursor {
                    pane: local,
                    x: item.cursor_x as usize,
                    y: item.cursor_y as usize,
                },
            );
        }
        assert(action_views(actions@) == cursor_synced(old(self)@, *item, c).actions);
        assert(self@ == cursor_synced(old(self)@, *item, c).view);
        if item.pane_active {
            if let Some(tab) = self.note_active_pane(item.window_id, item.pane_id) {
                push_action(&mut actions, Action::FocusPane { tab, pane: local, notify: true });
            }
        }
        actions
    }

    /// Brings the panes in line with what list-panes says, given the cursors of the local
    /// panes that exist.
    pub fn sync_pane_state(
        &mut self,
        panes: &Vec<PaneItem>,
        cursors: &HashMap<PaneId, StableCursorPosition>,
    ) -> (actions: Vec<Action>)
        ensures
            panes_synced(old(self)@, panes@, cursors@) == (Step {
                view: final(self)@,
                actions: action_views(actions@),
            }),
    {
        let ghost start = self@;
        let mut actions: Vec<Action> = Vec::new();
        let mut i: usize = 0;
        assert(panes@.take(0) == Seq::<PaneItem>::empty());
        assert(action_views(actions@) == Seq::<ActionView>::empty());
        while i < panes.len()
            invariant
                i <= panes@.len(),
                start == old(self)@,
                panes_synced(start, panes@.take(i as int), cursors@) == (Step {
                    view: self@,
                    actions: action_views(actions@),
                }),
            decreases panes@.len() - i,
        {
            assert(panes@.take(i + 1).drop_last() == panes@.take(i as int));
            let ghost before = action_views(actions@);
            let mut more = self.sync_pane(&panes[i], cursors);
            let ghost new = action_views(more@);
            actions.append(&mut more);
            assert(action_views(actions@) == before + new);
            i += 1;
        }
        assert(panes@.take(panes@.len() as int) == panes@);
        actions
    }
}

// ---------------------------------------------------------------------------
// Listed windows
// ---------------------------------------------------------------------------

/// Whether a window that tmux lists is one of the session and has a layout.
pub open spec fn is_synced(v: DomainView, window: WindowView) -> bool {
    v.session == Some(window.session_id) && layout_of(window.window_layout) is Some
}

/// The state and the actions after the local tab of a window was made sure of: `new_tab` is
/// taken if it has none.
pub open spec fn tab_ensured(v: DomainView, window: WindowView, new_tab: TabId) -> Step {
    let id = window.window_id;
    if v.tabs.dom().contains(id) {
        Step {
            view: DomainView {
                tabs: v.tabs.insert(
                    id,
                    TabView { history_limit: window.history_limit, ..v.tabs[id] },
                ),
                ..v
            },
            actions: seq![
                ActionView::SetTabTitle { tab: v.tabs[id].tab_id, title: window.window_name },
            ],
        }
    } else {
        Step {
            view: DomainView {
                tabs: v.tabs.insert(
                    id,
                    TabView {
                        tab_id: new_tab,
                        tmux_window_id: id,
                        panes: Seq::empty(),
                        active_pane: None,
                        history_limit: window.history_limit,
                    },
                ),
                ..v
            },
            actions: seq![
                ActionView::SetTabTitle { tab: new_tab, title: window.window_name },
                ActionView::AddTab { tab: new_tab },
            ],
        }
    }
}

/// The outcome of bringing a tab in line with a window that tmux lists. Its content is
/// captured unless the window is brand-new; a new tab is linked into the window that shows
/// the tabs.
pub open spec fn window_synced(
    v: DomainView,
    window: WindowView,
    new_window: bool,
    new_tab: TabId,
    facts: FactsView,
) -> Outcome {
    if !is_synced(v, window) {
        Outcome { view: v, actions: Seq::empty(), result: Ok(()) }
    } else {
        let ensured = tab_ensured(v, window, new_tab);
        let zoomed_pane = if is_zoomed(window.window_raw_flags) {
            sole_pane(window.window_visible_layout)
        } else {
            None
        };
        let applied = layout_applied(
            ensured.view,
            window.window_id,
            layout_of(window.window_layout)->0,
            ensured.view.tabs[window.window_id].active_pane,
            zoomed_pane,
            !new_window,
            facts,
        );
        Outcome {
            view: applied.view,
            actions: ensured.actions + applied.actions + match (applied.result, v.gui_window) {
                (Ok(_), Some(gui_window)) => if v.tabs.dom().contains(window.window_id) {
                    Seq::empty()
                } else {
                    seq![ActionView::AddTabToWindow { tab: new_tab, window: gui_window }]
                },
                _ => Seq::empty(),
            },
            result: applied.result,
        }
    }
}

/// The state after the tab of a window was linked: the cursors of a window that is not the
/// active one are asked for.
pub open spec fn window_backfilled(v: DomainView, window: WindowView) -> DomainView {
    if is_synced(v, window) && !window.window_active {
        enqueued(v, TmuxCommand::ListAllPanes(ListAllPanes { window_id: window.window_id }))
    } else {
        v
    }
}

/// The first active window of a list.
pub open spec fn active_among(windows: Seq<WindowView>) -> Option<WindowView>
    decreases windows.len(),
{
    if windows.len() == 0 {
        None
    } else if windows[0].window_active {
        Some(windows[0])
    } else {
        active_among(windows.skip(1))
    }
}

/// The state and the actions after all windows of a list were dealt with: the cursors of the
/// active window are asked for last, so that the focus settles there, and the end of the
/// attaching is noted once all that is done.
pub open spec fn windows_listed(v: DomainView, windows: Seq<WindowView>) -> Step {
    if v.session is None {
        stays(v)
    } else {
        let asked = match active_among(windows) {
            Some(window) => enqueued(
                v,
                TmuxCommand::ListAllPanes(ListAllPanes { window_id: window.window_id }),
            ),
            None => v,
        };
        Step {
            view: if v.attach_state == AttachState::Init {
                enqueued(asked, TmuxCommand::AttachDone(AttachDone))
            } else {
                asked
            },
            actions: seq![ActionView::ScheduleSend { domain_id: v.domain_id }],
        }
    }
}

/// What has to be done in the multiplexer before a tab can be brought in line with a window.
#[derive(Debug)]
pub struct WindowPlan {
    /// Whether a tab has to be created.
    pub new_tab: bool,
    /// The size of that tab.
    pub size: TerminalSize,
    /// The layout of the window.
    pub layout: TmuxLayoutNode,
    /// The panes that have to be created.
    pub panes: Vec<PaneItem>,
}

impl TmuxDomainState {
    /// What has to be done before [`TmuxDomainState::sync_window_state`]; nothing if the
    /// window is not concerned.
    pub fn plan_window(&self, window: &WindowItem) -> (plan: Option<WindowPlan>)
        ensures
            match plan {
                Some(plan) => {
                    &&& is_synced(self@, window@)
                    &&& layout_of(window.window_layout@) == Some(plan.layout@)
                    &&& plan.new_tab == !self@.tabs.dom().contains(window.window_id)
                    &&& plan.panes@ == planned(self@, window.window_id, plan.layout@.leaves())
                    &&& plan.size == (TerminalSize {
                        rows: window.window_height as usize,
                        cols: window.window_width as usize,
                        pixel_width: 0,
                        pixel_height: 0,
                        dpi: 0,
                    })
                },
                None => !is_synced(self@, window@),
            },
    {
        let in_session = match self.tmux_session {
            Some(session) => session == window.session_id,
            None => false,
        };
        if !in_session {
            return None;
        }
        match parse_layout_tree(window.window_layout.as_str()) {
            Ok(layout) => {
                let panes = self.plan_layout(window.window_id, &layout);
                Some(
                    WindowPlan {
                        new_tab: !self.check_window_attached(window.window_id),
                        size: TerminalSize {
                            rows: window.window_height as usize,
                            cols: window.window_width as usize,
                            pixel_width: 0,
                            pixel_height: 0,
                            dpi: 0,
                        },
                        layout,
                        panes,
                    },
                )
            },
            Err(_) => None,
        }
    }

    /// Makes sure of the local tab of a window.
    fn ensure_tab(&mut self, window: &WindowItem, new_tab: TabId) -> (actions: Vec<Action>)
        ensures
            tab_ensured(old(self)@, window@, new_tab) == (Step {
                view: final(self)@,
                actions: action_views(actions@),
            }),
    {
        let id = window.window_id;
        let mut actions: Vec<Action> = Vec::new();
        match self.gui_tabs.remove(id) {
            Some(tab) => {
                let tab_id = tab.tab_id;
                let tab = TmuxTab { history_limit: window.history_limit, ..tab };
                let ghost m = self.gui_tabs@;
                self.gui_tabs.insert(id, tab);
                proof {
                    lemma_tab_inserted(m, id, tab);
                    assert(self@.tabs == tab_ensured(old(self)@, window@, new_tab).view.tabs);
                }
                push_action(
                    &mut actions,
                    Action::SetTabTitle { tab: tab_id, title: window.window_name.clone() },
                );
            },
            None => {
                let tab = TmuxTab {
                    tab_id: new_tab,
                    tmux_window_id: id,
                    panes: Vec::new(),
                    active_pane: None,
                    history_limit: window.history_limit,
                };
                let ghost m = self.gui_tabs@;
                self.gui_tabs.insert(id, tab);
                proof {
                    lemma_tab_inserted(m, id, tab);
                    assert(tab@.panes == Seq::<TmuxPaneId>::empty());
                    assert(self@.tabs == tab_ensured(old(self)@, window@, new_tab).view.tabs);
                }
                push_action(
                    &mut actions,
                    Action::SetTabTitle { tab: new_tab, title: window.window_name.clone() },
                );
                push_action(&mut actions, Action::AddTab { tab: new_tab });
            },
        }
        assert(action_views(actions@) == tab_ensured(old(self)@, window@, new_tab).actions);
        actions
    }

    /// Brings a tab in line with a window that tmux lists. `new_tab` is the tab that was
    /// created if the plan asked for one.
    pub fn sync_window_state(
        &mut self,
        window: &WindowItem,
        new_window: bool,
        new_tab: TabId,
        facts: &LayoutFacts,
    ) -> (r: (Vec<Action>, Result<(), TmuxError>))
        requires
            layout_of(window.window_layout@) matches Some(tree) ==> is_synced(
                old(self)@,
                window@,
            ) && is_ready(old(self)@, window.window_id, tree, facts@) ==> window_fits(
                tree,
                cell_pixels(facts.dimensions),
            ),
        ensures
            window_synced(old(self)@, window@, new_window, new_tab, facts@) == (Outcome {
                view: final(self)@,
                actions: action_views(r.0@),
                result: r.1,
            }),
    {
        let nothing: Vec<Action> = Vec::new();
        assert(action_views(nothing@) == Seq::<ActionView>::empty());
        let in_session = match self.tmux_session {
            Some(session) => session == window.session_id,
            None => false,
        };
        if !in_session {
            return (nothing, Ok(()));
        }
        let tree = match parse_layout_tree(window.window_layout.as_str()) {
            Ok(tree) => tree,
            Err(_) => {
                return (nothing, Ok(()));
            },
        };
        // Create the local tab if this window is new to us.
        let is_new_tab = !self.check_window_attached(window.window_id);
        let gui_window = self.gui_window;
        let mut actions = self.ensure_tab(window, new_tab);
        // Zoom state from window flags; the zoomed pane is the sole leaf of
        // the visible layout.
        let zoomed_pane = if has_zoom_flag(window.window_raw_flags.as_str()) {
            find_sole_pane(window.window_visible_layout.as_str())
        } else {
            None
        };
        let active = match self.gui_tabs.get(window.window_id) {
            Some(tab) => tab.active_pane,
            None => None,
        };
        proof {
            lemma_ready_after(old(self)@, self@, window.window_id, tree@, facts@);
        }
        // Capture existing content only for the initial attach enumeration;
        // brand-new windows get their content via the live %output stream.
        let (mut more, result) = self.apply_layout(
            window.window_id,
            &tree,
            active,
            zoomed_pane,
            !new_window,
            facts,
        );
        let ghost before = action_views(actions@);
        let ghost new = action_views(more@);
        actions.append(&mut more);
        assert(action_views(actions@) == before + new);
        // Link the (now populated) tab into the gui window.
        let mut link: Option<Action> = None;
        if is_new_tab && result.is_ok() {
            if let Some(gui_window) = gui_window {
                link = Some(Action::AddTabToWindow { tab: new_tab, window: gui_window });
            }
        }
        push_opt_action(&mut actions, link);
        (actions, result)
    }

    /// Backfills the cursors and the active pane of a window whose tab was linked (the layout
    /// string carries neither). The active window comes last so that the focus settles there.
    pub fn backfill_window(&mut self, window: &WindowItem)
        ensures
            final(self)@ == window_backfilled(old(self)@, window@),
    {
        let in_session = match self.tmux_session {
            Some(session) => session == window.session_id,
            None => false,
        };
        if in_session && !window.window_active && parse_layout_tree(
            window.window_layout.as_str(),
        ).is_ok() {
            self.cmd_queue.push_back(
                TmuxCommand::ListAllPanes(ListAllPanes { window_id: window.window_id }),
            );
        }
    }

    /// Ends the dealing with a list of windows.
    pub fn finish_window_sync(&mut self, windows: &Vec<WindowItem>) -> (action: Option<Action>)
        ensures
            windows_listed(old(self)@, window_views(windows@)) == (Step {
                view: final(self)@,
                actions: opt_action(action),
            }),
    {
        if self.tmux_session.is_none() {
            return None;
        }
        if let Some(window_id) = find_active_window(windows) {
            self.cmd_queue.push_back(TmuxCommand::ListAllPanes(ListAllPanes { window_id }));
        }
        if self.attach_state == AttachState::Init {
            self.cmd_queue.push_back(TmuxCommand::AttachDone(AttachDone));
        }
        Some(TmuxDomainState::schedule_send_next_command(self.domain_id))
    }
}

fn find_active_window(windows: &Vec<WindowItem>) -> (r: Option<TmuxWindowId>)
    ensures
        r == match active_among(window_views(windows@)) {
            Some(window) => Some(window.window_id),
            None => None,
        },
{
    let ghost all = window_views(windows@);
    let mut i: usize = 0;
    assert(all.skip(0) == all);
    while i < windows.len()
        invariant
            i <= windows@.len(),
            all == window_views(windows@),
            active_among(all) == active_among(all.skip(i as int)),
        decreases windows@.len() - i,
    {
        assert(all.skip(i as int)[0] == windows@[i as int]@);
        assert(all.skip(i as int).skip(1) == all.skip(i + 1));
        if windows[i].window_active {
            return Some(windows[i].window_id);
        }
        i += 1;
    }
    None
}

} // verus!
