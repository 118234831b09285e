//! The tmux domain: what is known of the tmux session, and what its events and answers make
//! of it.
//!
//! The state holds plain values. What has to be done in the multiplexer comes out as a list
//! of [`Action`]s, in the order in which they are to be done.

use std::collections::{HashMap, VecDeque};

use vstd::prelude::*;

use crate::action::{
    action_views, opt_action, push_action, push_opt_action, Action, ActionView, SubscriptionChange,
    SubscriptionChangeView,
};
use crate::id_map::{ascending, IdMap};
use crate::string_table::{inserted, lookup, StringTable};
use crate::tab::{DomainId, PaneId, SplitDirection, TabId, TerminalSize, WindowId};
use crate::text::{chars_of, split_at_first, split_once};
use crate::tmux_cc::event::{opt_text, Event, EventView, Guarded, GuardedView};
use crate::tmux_cc::layout::{TmuxPaneId, TmuxSessionId, TmuxWindowId};
use crate::tmux_cc::parser::event_views;
use crate::tmux_commands::{
    capture_pane_line, list_panes_line, list_windows_line, raw_line, refresh_client_lines,
    resize_window_lines, select_pane_line, select_window_line, send_keys_line, size_options,
    split_pane_line, subscribe_line, ListAllWindows, ListCommands, NewWindow, RawCommand, Resize,
    SelectPane, SelectWindow, SplitPane, TmuxCommand, TmuxError,
};

verus! {

// ---------------------------------------------------------------------------
// State
// ---------------------------------------------------------------------------

/// Whether the initial enumeration of windows and panes is done.
#[derive(PartialEq, Eq, Debug, Copy, Clone, Structural)]
pub enum AttachState {
    Init,
    Done,
}

/// Where the conversation with tmux stands.
#[derive(PartialEq, Eq, Debug, Copy, Clone, Structural)]
pub enum State {
    WaitForInitialGuard,
    Idle,
    WaitingForResponse,
    Exit,
}

/// A tmux pane and its local peer.
#[derive(PartialEq, Eq, Debug, Copy, Clone)]
pub struct TmuxRemotePane {
    // members for local
    pub local_pane_id: PaneId,
    // members sync with remote
    pub session_id: TmuxSessionId,
    pub window_id: TmuxWindowId,
    pub pane_id: TmuxPaneId,
    pub cursor_x: u64,
    pub cursor_y: u64,
    pub pane_width: u64,
    pub pane_height: u64,
    pub pane_left: u64,
    pub pane_top: u64,
}

/// A tmux window and its local peer, a tab.
#[derive(Debug)]
pub struct TmuxTab {
    /// The local tab.
    pub tab_id: TabId,
    pub tmux_window_id: TmuxWindowId,
    /// tmux panes currently present in this window, per the last applied layout.
    pub panes: Vec<TmuxPaneId>,
    /// The tmux pane id that is active in this window, tracked from
    /// `%window-pane-changed` and list-panes; used to mark the active pane when
    /// (re)building the local tree.
    pub active_pane: Option<TmuxPaneId>,
    /// The window's scrollback limit, used when capturing newly discovered panes.
    pub history_limit: isize,
}

/// A [`TmuxTab`] as a mathematical value.
pub struct TabView {
    pub tab_id: TabId,
    pub tmux_window_id: TmuxWindowId,
    pub panes: Seq<TmuxPaneId>,
    pub active_pane: Option<TmuxPaneId>,
    pub history_limit: isize,
}

impl View for TmuxTab {
    type V = TabView;

    open spec fn view(&self) -> TabView {
        TabView {
            tab_id: self.tab_id,
            tmux_window_id: self.tmux_window_id,
            panes: self.panes@,
            active_pane: self.active_pane,
            history_limit: self.history_limit,
        }
    }
}

/// Everything that is known of a tmux session.
#[derive(Debug)]
pub struct TmuxDomainState {
    /// ID of the pane that tmux runs in
    pub pane_id: PaneId,
    /// ID of the domain
    pub domain_id: DomainId,
    pub state: State,
    pub cmd_queue: VecDeque<TmuxCommand>,
    pub gui_window: Option<WindowId>,
    pub gui_tabs: IdMap<TmuxTab>,
    pub remote_panes: IdMap<TmuxRemotePane>,
    pub tmux_session: Option<TmuxSessionId>,
    pub support_commands: StringTable,
    pub attach_state: AttachState,
    /// Tickets of user-initiated splits that await their pane; resolved (FIFO) with the
    /// local pane once the split's `%layout-change` creates it.
    pub pending_splits: VecDeque<u64>,
    pub backlog: IdMap<Vec<u8>>,
    /// The latest values of session-scoped format subscriptions.
    pub session_format_values: StringTable,
    /// The latest values of window-scoped format subscriptions, for each window.
    pub window_format_values: IdMap<StringTable>,
    /// Set when a global prune of dead panes has been scheduled but not yet run;
    /// coalesces multiple requests into a single quiescent prune.
    pub prune_pending: bool,
}

/// A [`TmuxDomainState`] as a mathematical value.
pub struct DomainView {
    pub pane_id: PaneId,
    pub domain_id: DomainId,
    pub state: State,
    pub queue: Seq<TmuxCommand>,
    pub gui_window: Option<WindowId>,
    pub tabs: Map<TmuxWindowId, TabView>,
    pub panes: Map<TmuxPaneId, TmuxRemotePane>,
    pub session: Option<TmuxSessionId>,
    pub support_commands: Seq<(Seq<char>, Seq<char>)>,
    pub attach_state: AttachState,
    pub pending_splits: Seq<u64>,
    pub backlog: Map<TmuxPaneId, Seq<u8>>,
    pub session_format_values: Seq<(Seq<char>, Seq<char>)>,
    pub window_format_values: Map<TmuxWindowId, Seq<(Seq<char>, Seq<char>)>>,
    pub prune_pending: bool,
}

/// Tabs as mathematical values.
pub open spec fn tab_views(m: Map<TmuxWindowId, TmuxTab>) -> Map<TmuxWindowId, TabView> {
    m.map_values(|t: TmuxTab| t@)
}

/// Byte strings as mathematical values.
pub open spec fn bytes_views(m: Map<TmuxPaneId, Vec<u8>>) -> Map<TmuxPaneId, Seq<u8>> {
    m.map_values(|v: Vec<u8>| v@)
}

/// Tables as mathematical values.
pub open spec fn table_views(m: Map<TmuxWindowId, StringTable>) -> Map<
    TmuxWindowId,
    Seq<(Seq<char>, Seq<char>)>,
> {
    m.map_values(|t: StringTable| t@)
}

impl View for TmuxDomainState {
    type V = DomainView;

    open spec fn view(&self) -> DomainView {
        DomainView {
            pane_id: self.pane_id,
            domain_id: self.domain_id,
            state: self.state,
            queue: self.cmd_queue@,
            gui_window: self.gui_window,
            tabs: tab_views(self.gui_tabs@),
            panes: self.remote_panes@,
            session: self.tmux_session,
            support_commands: self.support_commands@,
            attach_state: self.attach_state,
            pending_splits: self.pending_splits@,
            backlog: bytes_views(self.backlog@),
            session_format_values: self.session_format_values@,
            window_format_values: table_views(self.window_format_values@),
            prune_pending: self.prune_pending,
        }
    }
}

/// A state and the actions that lead there.
pub struct Step {
    pub view: DomainView,
    pub actions: Seq<ActionView>,
}

/// A step that does nothing.
pub open spec fn stays(v: DomainView) -> Step {
    Step { view: v, actions: Seq::empty() }
}

/// The state with one more command to send.
pub open spec fn enqueued(v: DomainView, command: TmuxCommand) -> DomainView {
    DomainView { queue: v.queue.push(command), ..v }
}

pub proof fn lemma_tab_inserted(m: Map<TmuxWindowId, TmuxTab>, k: TmuxWindowId, t: TmuxTab)
    ensures
        tab_views(m.insert(k, t)) == tab_views(m).insert(k, t@),
{
    assert(tab_views(m.insert(k, t)) =~= tab_views(m).insert(k, t@));
}

pub proof fn lemma_tab_removed(m: Map<TmuxWindowId, TmuxTab>, k: TmuxWindowId)
    ensures
        tab_views(m.remove(k)) == tab_views(m).remove(k),
{
    assert(tab_views(m.remove(k)) =~= tab_views(m).remove(k));
}

pub proof fn lemma_bytes_inserted(m: Map<TmuxPaneId, Vec<u8>>, k: TmuxPaneId, v: Vec<u8>)
    ensures
        bytes_views(m.insert(k, v)) == bytes_views(m).insert(k, v@),
{
    assert(bytes_views(m.insert(k, v)) =~= bytes_views(m).insert(k, v@));
}

pub proof fn lemma_bytes_removed(m: Map<TmuxPaneId, Vec<u8>>, k: TmuxPaneId)
    ensures
        bytes_views(m.remove(k)) == bytes_views(m).remove(k),
{
    assert(bytes_views(m.remove(k)) =~= bytes_views(m).remove(k));
}

proof fn lemma_table_inserted(m: Map<TmuxWindowId, StringTable>, k: TmuxWindowId, t: StringTable)
    ensures
        table_views(m.insert(k, t)) == table_views(m).insert(k, t@),
{
    assert(table_views(m.insert(k, t)) =~= table_views(m).insert(k, t@));
}

proof fn lemma_table_removed(m: Map<TmuxWindowId, StringTable>, k: TmuxWindowId)
    ensures
        table_views(m.remove(k)) == table_views(m).remove(k),
{
    assert(table_views(m.remove(k)) =~= table_views(m).remove(k));
}

/// A copy of bytes.
pub fn copy_bytes(v: &Vec<u8>) -> (r: Vec<u8>)
    ensures
        r@ == v@,
{
    let mut r: Vec<u8> = Vec::new();
    let mut i: usize = 0;
    while i < v.len()
        invariant
            i <= v@.len(),
            r@ == v@.take(i as int),
        decreases v@.len() - i,
    {
        r.push(v[i]);
        i += 1;
    }
    assert(v@.take(v@.len() as int) == v@);
    r
}

// ---------------------------------------------------------------------------
// The queue
// ---------------------------------------------------------------------------

/// The state and the actions after a prune was asked for: at most one is in flight.
pub open spec fn prune_scheduled(v: DomainView) -> Step {
    if v.prune_pending {
        stays(v)
    } else {
        Step {
            view: DomainView { prune_pending: true, ..v },
            actions: seq![ActionView::SchedulePrune { domain_id: v.domain_id }],
        }
    }
}

/// True when there are no in-flight commands.
pub open spec fn quiescent(v: DomainView) -> bool {
    v.state == State::Idle && v.queue.len() == 0
}

/// Whether there is a command that can be sent.
pub open spec fn can_send(v: DomainView) -> bool {
    v.state == State::Idle && v.queue.len() > 0
}

/// The next command is sent, if there is one that can be.
pub open spec fn sending(v: DomainView) -> Seq<ActionView> {
    if can_send(v) {
        seq![ActionView::ScheduleSend { domain_id: v.domain_id }]
    } else {
        Seq::empty()
    }
}

impl TmuxDomainState {
    /// The state at the beginning of the conversation.
    pub fn new(pane_id: PaneId, domain_id: DomainId) -> (r: Self)
        ensures
            r@ == initial(pane_id, domain_id),
    {
        let r = Self {
            pane_id,
            domain_id,
            state: State::WaitForInitialGuard,
            cmd_queue: VecDeque::new(),
            gui_window: None,
            gui_tabs: IdMap::new(),
            remote_panes: IdMap::new(),
            tmux_session: None,
            support_commands: StringTable::new(),
            attach_state: AttachState::Init,
            pending_splits: VecDeque::new(),
            backlog: IdMap::new(),
            session_format_values: StringTable::new(),
            window_format_values: IdMap::new(),
            prune_pending: false,
        };
        assert(r@.window_format_values =~= Map::<
            TmuxWindowId,
            Seq<(Seq<char>, Seq<char>)>,
        >::empty());
        assert(r@.tabs == Map::<TmuxWindowId, TabView>::empty());
        assert(r@.backlog == Map::<TmuxPaneId, Seq<u8>>::empty());
        r
    }

    /// Sends the next command, on the main thread.
    pub fn schedule_send_next_command(domain_id: DomainId) -> (action: Action)
        ensures
            action@ == (ActionView::ScheduleSend { domain_id }),
    {
        Action::ScheduleSend { domain_id }
    }

    /// True when there are no in-flight commands: the state is Idle and the
    /// command queue is empty. Used to defer the global prune until all the
    /// consequences of a compound operation (e.g. a cross-window move that
    /// emits the source and destination layout changes separately) have been
    /// applied.
    pub fn is_quiescent(&self) -> (r: bool)
        ensures
            r == quiescent(self@),
    {
        self.state == State::Idle && self.cmd_queue.len() == 0
    }

    /// Schedules sending the next queued command if we are idle and have work.
    pub fn maybe_schedule_send(&self) -> (action: Option<Action>)
        ensures
            opt_action(action) == sending(self@),
    {
        if self.state == State::Idle && self.cmd_queue.len() > 0 {
            Some(TmuxDomainState::schedule_send_next_command(self.domain_id))
        } else {
            None
        }
    }

    /// Requests a global prune of panes that no longer appear in any window.
    /// Coalesced: at most one prune is in flight, and it only runs once the
    /// domain is quiescent so that a pane moved between windows (whose source
    /// and destination `%layout-change` arrive as separate events) is never
    /// destroyed mid-move.
    pub fn schedule_prune(&mut self) -> (action: Option<Action>)
        ensures
            prune_scheduled(old(self)@) == (Step {
                view: final(self)@,
                actions: opt_action(action),
            }),
    {
        if self.prune_pending {
            return None;
        }
        self.prune_pending = true;
        Some(Action::SchedulePrune { domain_id: self.domain_id })
    }

    /// Queues a command, and sends it when its turn comes.
    pub fn send_command(&mut self, command: TmuxCommand) -> (action: Action)
        ensures
            final(self)@ == enqueued(old(self)@, command),
            action@ == (ActionView::ScheduleSend { domain_id: old(self)@.domain_id }),
    {
        self.cmd_queue.push_back(command);
        TmuxDomainState::schedule_send_next_command(self.domain_id)
    }

    /// Creates a tmux window.
    pub fn create_tmux_window(&mut self) -> (action: Action)
        ensures
            final(self)@ == enqueued(old(self)@, TmuxCommand::NewWindow(NewWindow)),
            action@ == (ActionView::ScheduleSend { domain_id: old(self)@.domain_id }),
    {
        self.send_command(TmuxCommand::NewWindow(NewWindow))
    }

    /// Where the tabs of windows that tmux lists are to be shown, given the window of the pane
    /// that tmux runs in.
    pub fn choose_window(&self, pane_window: Option<WindowId>) -> (r: WindowChoice)
        ensures
            r == window_choice(self@, pane_window),
    {
        if self.tmux_session.is_none() || self.gui_window.is_some() {
            return WindowChoice::Keep;
        }
        match pane_window {
            Some(window) => WindowChoice::Take(window),
            None => WindowChoice::Create,
        }
    }

    /// Takes a window to show tmux tabs in, unless there already is one.
    pub fn create_gui_window(&mut self, window: WindowId)
        ensures
            final(self)@ == (DomainView {
                gui_window: match old(self)@.gui_window {
                    Some(w) => Some(w),
                    None => Some(window),
                },
                ..old(self)@
            }),
    {
        if self.gui_window.is_none() {
            self.gui_window = Some(window);
        }
    }
}

/// What to do about the window that shows tmux tabs.
#[derive(Debug, Clone, Copy, PartialEq, Eq)]
pub enum WindowChoice {
    /// It stays as it is.
    Keep,
    /// The tabs go into this window.
    Take(WindowId),
    /// The tabs need a new window.
    Create,
}

/// Where the tabs of windows that tmux lists are to be shown: where they are shown already,
/// else in the window of the pane that tmux runs in, else in a new one. Without a session
/// there is nothing to show.
pub open spec fn window_choice(v: DomainView, pane_window: Option<WindowId>) -> WindowChoice {
    if v.session is None || v.gui_window is Some {
        WindowChoice::Keep
    } else {
        match pane_window {
            Some(window) => WindowChoice::Take(window),
            None => WindowChoice::Create,
        }
    }
}

/// The state at the beginning of the conversation.
pub open spec fn initial(pane_id: PaneId, domain_id: DomainId) -> DomainView {
    DomainView {
        pane_id,
        domain_id,
        state: State::WaitForInitialGuard,
        queue: Seq::empty(),
        gui_window: None,
        tabs: Map::empty(),
        panes: Map::empty(),
        session: None,
        support_commands: Seq::empty(),
        attach_state: AttachState::Init,
        pending_splits: Seq::empty(),
        backlog: Map::empty(),
        session_format_values: Seq::empty(),
        window_format_values: Map::empty(),
        prune_pending: false,
    }
}

// ---------------------------------------------------------------------------
// Peers
// ---------------------------------------------------------------------------

/// The first of `ids` whose pane has the local peer `local`.
pub open spec fn peer_among(
    panes: Map<TmuxPaneId, TmuxRemotePane>,
    ids: Seq<TmuxPaneId>,
    local: PaneId,
) -> Option<TmuxRemotePane>
    decreases ids.len(),
{
    if ids.len() == 0 {
        None
    } else if panes[ids[0]].local_pane_id == local {
        Some(panes[ids[0]])
    } else {
        peer_among(panes, ids.skip(1), local)
    }
}

/// The tmux pane whose local peer is `local`.
pub open spec fn peer_of(panes: Map<TmuxPaneId, TmuxRemotePane>, local: PaneId) -> Option<
    TmuxRemotePane,
> {
    peer_among(panes, ascending(panes.dom()), local)
}

/// The first of `ids` whose window has the local tab `tab`.
pub open spec fn window_among(
    tabs: Map<TmuxWindowId, TabView>,
    ids: Seq<TmuxWindowId>,
    tab: TabId,
) -> Option<TabView>
    decreases ids.len(),
{
    if ids.len() == 0 {
        None
    } else if tabs[ids[0]].tab_id == tab {
        Some(tabs[ids[0]])
    } else {
        window_among(tabs, ids.skip(1), tab)
    }
}

/// The tmux window whose local tab is `tab`.
pub open spec fn window_of_tab(tabs: Map<TmuxWindowId, TabView>, tab: TabId) -> Option<TabView> {
    window_among(tabs, ascending(tabs.dom()), tab)
}

/// The local peers of those of `ids` that have one, in order.
pub open spec fn locals_of(
    panes: Map<TmuxPaneId, TmuxRemotePane>,
    ids: Seq<TmuxPaneId>,
) -> Seq<PaneId>
    decreases ids.len(),
{
    if ids.len() == 0 {
        Seq::empty()
    } else if panes.dom().contains(ids.last()) {
        locals_of(panes, ids.drop_last()).push(panes[ids.last()].local_pane_id)
    } else {
        locals_of(panes, ids.drop_last())
    }
}

/// Whether the last applied layout of a window shows a pane.
pub open spec fn pane_attached(v: DomainView, window: TmuxWindowId, pane: TmuxPaneId) -> bool {
    v.tabs.dom().contains(window) && v.tabs[window].panes.contains(pane)
}

/// The state and the actions after a window was closed: its tab is removed, and the values
/// that are kept for it are forgotten.
pub open spec fn window_removed(v: DomainView, window: TmuxWindowId) -> Step {
    if v.tabs.dom().contains(window) {
        Step {
            view: DomainView {
                tabs: v.tabs.remove(window),
                window_format_values: v.window_format_values.remove(window),
                ..v
            },
            actions: seq![ActionView::RemoveTab { tab: v.tabs[window].tab_id }],
        }
    } else {
        stays(v)
    }
}

/// The state with the active pane of a window noted.
pub open spec fn with_active(
    v: DomainView,
    window: TmuxWindowId,
    pane: TmuxPaneId,
) -> DomainView {
    DomainView {
        tabs: v.tabs.insert(
            window,
            TabView { active_pane: Some(pane), ..v.tabs[window] },
        ),
        ..v
    }
}

/// The state and the actions after the active pane of a window changed: it is noted, and
/// the local pane gets the focus if there is one.
pub open spec fn active_pane_set(v: DomainView, window: TmuxWindowId, pane: TmuxPaneId) -> Step {
    if !v.tabs.dom().contains(window) {
        stays(v)
    } else {
        Step {
            view: with_active(v, window, pane),
            actions: if v.panes.dom().contains(pane) {
                seq![
                    ActionView::FocusPane {
                        tab: v.tabs[window].tab_id,
                        pane: v.panes[pane].local_pane_id,
                        notify: false,
                    },
                ]
            } else {
                Seq::empty()
            },
        }
    }
}

/// Something that happened in the multiplexer.
#[derive(Debug, Clone, Copy, PartialEq, Eq)]
pub enum MuxNotification {
    /// A pane got the focus.
    PaneFocused(PaneId),
    /// A window has to be redrawn; with its active tab, if it exists and has one.
    WindowInvalidated(Option<TabId>),
}

/// The state and the actions after something happened in the multiplexer: once attached,
/// tmux follows the focus.
pub open spec fn notified(v: DomainView, n: MuxNotification) -> Step {
    let send = seq![ActionView::ScheduleSend { domain_id: v.domain_id }];
    if v.attach_state == AttachState::Init {
        stays(v)
    } else {
        match n {
            MuxNotification::PaneFocused(local) => match peer_of(v.panes, local) {
                Some(pane) => Step {
                    view: enqueued(
                        v,
                        TmuxCommand::SelectPane(SelectPane { pane_id: pane.pane_id }),
                    ),
                    actions: send,
                },
                None => stays(v),
            },
            MuxNotification::WindowInvalidated(Some(tab)) => match window_of_tab(v.tabs, tab) {
                Some(window) => Step {
                    view: enqueued(
                        v,
                        TmuxCommand::SelectWindow(
                            SelectWindow { window_id: window.tmux_window_id },
                        ),
                    ),
                    actions: send,
                },
                None => stays(v),
            },
            MuxNotification::WindowInvalidated(None) => stays(v),
        }
    }
}

impl TmuxDomainState {
    /// The tmux pane whose local peer is `local`.
    fn find_pane(&self, local: PaneId) -> (r: Option<TmuxRemotePane>)
        ensures
            r == peer_of(self@.panes, local),
    {
        let ids = self.remote_panes.ids();
        let mut i: usize = 0;
        assert(ids@.skip(0) == ids@);
        while i < ids.len()
            invariant
                i <= ids@.len(),
                ids@ == ascending(self.remote_panes@.dom()),
                ids@.to_set() == self.remote_panes@.dom(),
                peer_of(self@.panes, local) == peer_among(
                    self@.panes,
                    ids@.skip(i as int),
                    local,
                ),
            decreases ids@.len() - i,
        {
            assert(ids@.to_set().contains(ids@[i as int]));
            assert(ids@.skip(i as int).skip(1) == ids@.skip(i + 1));
            if let Some(pane) = self.remote_panes.get(ids[i]) {
                if pane.local_pane_id == local {
                    return Some(*pane);
                }
            }
            i += 1;
        }
        None
    }

    /// The tmux window whose local tab is `tab`.
    fn find_window(&self, tab: TabId) -> (r: Option<TmuxWindowId>)
        ensures
            r == match window_of_tab(self@.tabs, tab) {
                Some(window) => Some(window.tmux_window_id),
                None => None,
            },
    {
        let ids = self.gui_tabs.ids();
        let ghost tabs = self@.tabs;
        let mut i: usize = 0;
        assert(tabs.dom() == self.gui_tabs@.dom());
        assert(ids@.skip(0) == ids@);
        while i < ids.len()
            invariant
                i <= ids@.len(),
                ids@.to_set() == self.gui_tabs@.dom(),
                forall|k: TmuxWindowId| #[trigger]
                    self.gui_tabs@.dom().contains(k) ==> tabs[k] == self.gui_tabs@[k]@,
                window_of_tab(tabs, tab) == window_among(tabs, ids@.skip(i as int), tab),
                tabs == self@.tabs,
            decreases ids@.len() - i,
        {
            assert(ids@.to_set().contains(ids@[i as int]));
            assert(ids@.skip(i as int).skip(1) == ids@.skip(i + 1));
            if let Some(t) = self.gui_tabs.get(ids[i]) {
                if t.tab_id == tab {
                    return Some(t.tmux_window_id);
                }
            }
            i += 1;
        }
        None
    }

    /// Splits the tmux pane.
    pub fn split_tmux_pane(&mut self, pane_id: PaneId, direction: SplitDirection) -> (r: Result<
        Action,
        TmuxError,
    >)
        ensures
            match peer_of(old(self)@.panes, pane_id) {
                Some(pane) => {
                    &&& final(self)@ == enqueued(
                        old(self)@,
                        TmuxCommand::SplitPane(SplitPane { pane_id: pane.pane_id, direction }),
                    )
                    &&& r matches Ok(action)
                    &&& action@ == (ActionView::ScheduleSend { domain_id: old(self)@.domain_id })
                },
                None => {
                    &&& final(self)@ == old(self)@
                    &&& r matches Err(e)
                    &&& e == TmuxError::NoTmuxPeer(pane_id)
                },
            },
    {
        match self.find_pane(pane_id) {
            Some(pane) => {
                self.cmd_queue.push_back(
                    TmuxCommand::SplitPane(SplitPane { pane_id: pane.pane_id, direction }),
                );
                Ok(TmuxDomainState::schedule_send_next_command(self.domain_id))
            },
            None => Err(TmuxError::NoTmuxPeer(pane_id)),
        }
    }

    /// Splits the tmux pane for someone who waits, under `ticket`, for the pane that comes
    /// of it.
    pub fn split_pane(&mut self, ticket: u64, pane_id: PaneId, direction: SplitDirection) -> (r:
        Result<Action, TmuxError>)
        ensures
            match peer_of(old(self)@.panes, pane_id) {
                Some(pane) => {
                    &&& final(self)@ == (DomainView {
                        pending_splits: old(self)@.pending_splits.push(ticket),
                        ..enqueued(
                            old(self)@,
                            TmuxCommand::SplitPane(SplitPane { pane_id: pane.pane_id, direction }),
                        )
                    })
                    &&& r matches Ok(action)
                    &&& action@ == (ActionView::ScheduleSend { domain_id: old(self)@.domain_id })
                },
                None => {
                    &&& final(self)@ == old(self)@
                    &&& r matches Err(e)
                    &&& e == TmuxError::NoTmuxPeer(pane_id)
                },
            },
    {
        let action = self.split_tmux_pane(pane_id, direction)?;
        self.pending_splits.push_back(ticket);
        Ok(action)
    }

    /// Checks if a pane that list-panes tells about has been attached.
    pub fn check_pane_attached(&self, window_id: TmuxWindowId, pane_id: TmuxPaneId) -> (r: bool)
        ensures
            r == pane_attached(self@, window_id, pane_id),
    {
        let tab = match self.gui_tabs.get(window_id) {
            Some(tab) => tab,
            None => {
                return false;
            },
        };
        let mut i: usize = 0;
        while i < tab.panes.len()
            invariant
                i <= tab.panes@.len(),
                self@.tabs.dom().contains(window_id),
                self@.tabs[window_id].panes == tab.panes@,
                forall|j: int| 0 <= j < i ==> tab.panes@[j] != pane_id,
            decreases tab.panes@.len() - i,
        {
            if tab.panes[i] == pane_id {
                return true;
            }
            i += 1;
        }
        false
    }

    /// Checks if a window has a local tab.
    pub fn check_window_attached(&self, window_id: TmuxWindowId) -> (r: bool)
        ensures
            r == self@.tabs.dom().contains(window_id),
    {
        self.gui_tabs.contains(window_id)
    }

    /// Removes the local tab of a window.
    pub fn remove_detached_window(&mut self, window_id: TmuxWindowId) -> (r: Result<
        Action,
        TmuxError,
    >)
        ensures
            window_removed(old(self)@, window_id) == (Step {
                view: final(self)@,
                actions: match r {
                    Ok(action) => seq![action@],
                    Err(_) => Seq::empty(),
                },
            }),
            r is Ok <==> old(self)@.tabs.dom().contains(window_id),
            r matches Err(e) ==> e == TmuxError::NoLocalTab(window_id),
    {
        proof {
            lemma_tab_removed(self.gui_tabs@, window_id);
            lemma_table_removed(self.window_format_values@, window_id);
        }
        match self.gui_tabs.remove(window_id) {
            Some(tab) => {
                self.window_format_values.remove(window_id);
                Ok(Action::RemoveTab { tab: tab.tab_id })
            },
            None => {
                assert(self@.tabs == old(self)@.tabs);
                Err(TmuxError::NoLocalTab(window_id))
            },
        }
    }

    /// Notes the active pane of a window that has a local tab.
    pub(crate) fn note_active_pane(&mut self, window_id: TmuxWindowId, pane_id: TmuxPaneId) -> (r:
        Option<TabId>)
        ensures
            match r {
                Some(tab_id) => {
                    &&& old(self)@.tabs.dom().contains(window_id)
                    &&& tab_id == old(self)@.tabs[window_id].tab_id
                    &&& final(self)@ == with_active(old(self)@, window_id, pane_id)
                },
                None => !old(self)@.tabs.dom().contains(window_id) && final(self)@ == old(self)@,
            },
    {
        match self.gui_tabs.remove(window_id) {
            Some(tab) => {
                let tab_id = tab.tab_id;
                let tab = TmuxTab { active_pane: Some(pane_id), ..tab };
                let ghost m = self.gui_tabs@;
                self.gui_tabs.insert(window_id, tab);
                proof {
                    lemma_tab_inserted(m, window_id, tab);
                    assert(self@.tabs == with_active(old(self)@, window_id, pane_id).tabs);
                }
                Some(tab_id)
            },
            None => {
                assert(self@.tabs == old(self)@.tabs);
                None
            },
        }
    }

    /// Tracks the active pane for a window (from `%window-pane-changed`) and, if
    /// the corresponding local pane already exists, focuses it.
    pub fn set_active_tmux_pane(&mut self, window_id: TmuxWindowId, pane_id: TmuxPaneId) -> (action:
        Option<Action>)
        ensures
            active_pane_set(old(self)@, window_id, pane_id) == (Step {
                view: final(self)@,
                actions: opt_action(action),
            }),
    {
        let tab_id = self.note_active_pane(window_id, pane_id)?;
        match self.remote_panes.get(pane_id) {
            Some(pane) => Some(
                Action::FocusPane { tab: tab_id, pane: pane.local_pane_id, notify: false },
            ),
            None => None,
        }
    }

    /// Follows the notifications of the multiplexer: takes in one of them.
    pub fn subscribe_notification(&mut self, n: MuxNotification) -> (action: Option<Action>)
        ensures
            notified(old(self)@, n) == (Step { view: final(self)@, actions: opt_action(action) }),
    {
        if self.attach_state == AttachState::Init {
            return None;
        }
        let command = match n {
            MuxNotification::PaneFocused(local) => match self.find_pane(local) {
                Some(pane) => TmuxCommand::SelectPane(SelectPane { pane_id: pane.pane_id }),
                None => {
                    return None;
                },
            },
            MuxNotification::WindowInvalidated(Some(tab)) => match self.find_window(tab) {
                Some(window_id) => TmuxCommand::SelectWindow(SelectWindow { window_id }),
                None => {
                    return None;
                },
            },
            MuxNotification::WindowInvalidated(None) => {
                return None;
            },
        };
        self.cmd_queue.push_back(command);
        Some(TmuxDomainState::schedule_send_next_command(self.domain_id))
    }
}

// ---------------------------------------------------------------------------
// Sending
// ---------------------------------------------------------------------------

/// The lines that resize a pane and its window to what is asked for; none if the session is
/// still being attached, if nothing changes, if the pane or its tab is gone, or if tmux has
/// no command for it. The size that is asked for is noted even if no line comes of it after
/// all.
pub open spec fn resize_lines(v: DomainView, sizes: Map<TabId, TerminalSize>, r: Resize) -> (
    DomainView,
    Seq<char>,
) {
    if v.attach_state == AttachState::Init || !v.panes.dom().contains(r.pane_id) {
        (v, Seq::empty())
    } else {
        let pane = v.panes[r.pane_id];
        if pane.pane_width == r.size.cols && pane.pane_height == r.size.rows {
            (v, Seq::empty())
        } else {
            let resized = TmuxRemotePane {
                pane_width: r.size.cols as u64,
                pane_height: r.size.rows as u64,
                ..pane
            };
            let noted = DomainView { panes: v.panes.insert(r.pane_id, resized), ..v };
            let window = pane.window_id;
            if !v.tabs.dom().contains(window) || !sizes.dom().contains(v.tabs[window].tab_id) {
                (noted, Seq::empty())
            } else {
                let size = sizes[v.tabs[window].tab_id];
                if lookup(v.support_commands, "resize-window"@) is Some {
                    (noted, resize_window_lines(r, size.cols, size.rows, window))
                } else {
                    match lookup(v.support_commands, "refresh-client"@) {
                        Some(usage) => if split_at_first(usage, "-C XxY"@) is Some {
                            (noted, refresh_client_lines(r, size.cols, size.rows, "x"@))
                        } else {
                            (noted, refresh_client_lines(r, size.cols, size.rows, ","@))
                        },
                        None => (noted, Seq::empty()),
                    }
                }
            }
        }
    }
}

/// The line of a command, and the state after it was made up. A command without a line is
/// not sent.
pub open spec fn command_line(
    v: DomainView,
    sizes: Map<TabId, TerminalSize>,
    command: TmuxCommand,
) -> (DomainView, Seq<char>) {
    match command {
        TmuxCommand::ListAllPanes(c) => (v, list_panes_line(c.window_id)),
        TmuxCommand::ListAllWindows(c) => (v, list_windows_line(c.session_id)),
        TmuxCommand::Resize(c) => resize_lines(v, sizes, c),
        TmuxCommand::CapturePane(c) => (v, capture_pane_line(c)),
        TmuxCommand::SendKeys(c) => (v, send_keys_line(c.pane, c.keys@)),
        TmuxCommand::NewWindow(_) => (v, "new-window\n"@),
        TmuxCommand::ListCommands(_) => (v, "list-commands\n"@),
        TmuxCommand::Subscribe(c) => (v, subscribe_line(c.subs@)),
        TmuxCommand::SplitPane(c) => (v, split_pane_line(c)),
        TmuxCommand::SelectWindow(c) => (v, select_window_line(c.window_id)),
        TmuxCommand::SelectPane(c) => (v, select_pane_line(c.pane_id)),
        TmuxCommand::RawCommand(c) => (v, raw_line(c.command@)),
        TmuxCommand::AttachDone(_) => (v, "list-session\n"@),
    }
}

/// The state and the actions after the next command was sent. Commands without a line are
/// dropped; the first one with a line is sent and stays at the front of the queue until its
/// answer comes.
pub open spec fn next_sent(v: DomainView, sizes: Map<TabId, TerminalSize>) -> Step
    decreases v.queue.len(),
{
    if v.state != State::Idle || v.queue.len() == 0 {
        stays(v)
    } else {
        let (next, line) = command_line(v, sizes, v.queue[0]);
        if line.len() == 0 {
            next_sent(
                DomainView { queue: v.queue.subrange(1, v.queue.len() as int), ..next },
                sizes,
            )
        } else {
            Step {
                view: DomainView { state: State::WaitingForResponse, ..next },
                actions: seq![ActionView::SendCommand { pane: v.pane_id, line }],
            }
        }
    }
}

/// Whether a text contains another.
pub fn contains_text(text: &String, pattern: &str) -> (r: bool)
    ensures
        r == (split_at_first(text@, pattern@) is Some),
{
    let text = chars_of(text.as_str());
    let pattern = chars_of(pattern);
    split_once(text.as_slice(), pattern.as_slice()).is_some()
}

impl Resize {
    /// The lines that resize the pane of a domain and its window, given the sizes of the tabs;
    /// empty if there is nothing to send.
    pub fn get_command(
        &self,
        domain: &mut TmuxDomainState,
        sizes: &HashMap<TabId, TerminalSize>,
    ) -> (line: String)
        ensures
            resize_lines(old(domain)@, sizes@, *self) == (final(domain)@, line@),
    {
        broadcast use vstd::std_specs::hash::group_hash_axioms;

        let nothing = String::new();
        assert(nothing@ == Seq::<char>::empty());
        // Not in stable state for now, don't do resizing, otherwise it will cause tmux output
        // unexpected content.
        if domain.attach_state == AttachState::Init {
            return nothing;
        }
        let pane = match domain.remote_panes.get(self.pane_id) {
            Some(pane) => *pane,
            None => {
                return nothing;
            },
        };
        if pane.pane_width == self.size.cols as u64 && pane.pane_height == self.size.rows as u64 {
            return nothing;
        }
        let resized = TmuxRemotePane {
            pane_width: self.size.cols as u64,
            pane_height: self.size.rows as u64,
            ..pane
        };
        domain.remote_panes.insert(self.pane_id, resized);
        let tab_id = match domain.gui_tabs.get(pane.window_id) {
            Some(tab) => tab.tab_id,
            None => {
                return nothing;
            },
        };
        let size = match sizes.get(&tab_id) {
            Some(size) => *size,
            None => {
                return nothing;
            },
        };
        if domain.support_commands.get("resize-window").is_some() {
            return self.resize_window(size.cols, size.rows, pane.window_id);
        }
        match domain.support_commands.get("refresh-client") {
            Some(usage) => if contains_text(usage, "-C XxY") {
                self.refresh_client(size.cols, size.rows, "x")
            } else {
                self.refresh_client(size.cols, size.rows, ",")
            },
            // the tmux version is not supported
            None => nothing,
        }
    }
}

impl TmuxDomainState {
    /// The line of the command at the front of the queue.
    fn front_command(&mut self, sizes: &HashMap<TabId, TerminalSize>) -> (line: String)
        requires
            old(self)@.queue.len() > 0,
        ensures
            command_line(old(self)@, sizes@, old(self)@.queue[0]) == (final(self)@, line@),
            final(self)@.queue == old(self)@.queue,
    {
        let resize = match &self.cmd_queue[0] {
            TmuxCommand::ListAllPanes(c) => {
                return c.get_command();
            },
            TmuxCommand::ListAllWindows(c) => {
                return c.get_command();
            },
            TmuxCommand::Resize(c) => *c,
            TmuxCommand::CapturePane(c) => {
                return c.get_command();
            },
            TmuxCommand::SendKeys(c) => {
                return c.get_command();
            },
            TmuxCommand::NewWindow(c) => {
                return c.get_command();
            },
            TmuxCommand::ListCommands(c) => {
                return c.get_command();
            },
            TmuxCommand::Subscribe(c) => {
                return c.get_command();
            },
            TmuxCommand::SplitPane(c) => {
                return c.get_command();
            },
            TmuxCommand::SelectWindow(c) => {
                return c.get_command();
            },
            TmuxCommand::SelectPane(c) => {
                return c.get_command();
            },
            TmuxCommand::RawCommand(c) => {
                return c.get_command();
            },
            TmuxCommand::AttachDone(c) => {
                return c.get_command();
            },
        };
        resize.get_command(self, sizes)
    }

    /// Sends the next command at the front of the queue, given the sizes of the tabs.
    /// Must be called on the main thread.
    pub fn send_next_command(&mut self, sizes: &HashMap<TabId, TerminalSize>) -> (action: Option<
        Action,
    >)
        ensures
            next_sent(old(self)@, sizes@) == (Step {
                view: final(self)@,
                actions: opt_action(action),
            }),
    {
        if self.state != State::Idle {
            return None;
        }
        while self.cmd_queue.len() > 0
            invariant
                self.state == State::Idle,
                next_sent(old(self)@, sizes@) == next_sent(self@, sizes@),
            decreases self.cmd_queue@.len(),
        {
            let line = self.front_command(sizes);
            if line.as_str().is_empty() {
                self.cmd_queue.pop_front();
            } else {
                self.state = State::WaitingForResponse;
                return Some(Action::SendCommand { pane: self.pane_id, line });
            }
        }
        None
    }
}

// ---------------------------------------------------------------------------
// Events
// ---------------------------------------------------------------------------

/// The state and the actions after an answer of tmux: the first one only says that tmux is
/// there, and every other one goes to the command that was sent.
pub open spec fn answered(v: DomainView, result: GuardedView) -> Step {
    match v.state {
        State::WaitForInitialGuard => stays(DomainView { state: State::Idle, ..v }),
        State::WaitingForResponse => if v.queue.len() > 0 {
            Step {
                view: DomainView {
                    state: State::Idle,
                    queue: v.queue.subrange(1, v.queue.len() as int),
                    ..v
                },
                actions: seq![ActionView::ProcessResult { command: v.queue[0], result }],
            }
        } else {
            stays(v)
        },
        State::Idle => stays(v),
        State::Exit => stays(v),
    }
}

/// Every pane of `ids` is let go.
pub open spec fn released(ids: Seq<TmuxPaneId>) -> Seq<ActionView> {
    ids.map_values(|pane: TmuxPaneId| ActionView::ReleasePane { pane })
}

/// The state and the actions after tmux has gone.
pub open spec fn exited(v: DomainView) -> Step {
    Step {
        view: DomainView { state: State::Exit, queue: Seq::empty(), ..v },
        actions: released(ascending(v.panes.dom())).push(
            ActionView::QuitTmuxMode { pane: v.pane_id },
        ),
    }
}

/// The local panes that the value of a format subscription applies to: the pane of a
/// pane-scoped one, the panes of the window of a window-scoped one, and all panes for a
/// session-scoped one.
pub open spec fn value_targets(
    v: DomainView,
    window: Option<TmuxWindowId>,
    pane: Option<TmuxPaneId>,
) -> Seq<PaneId> {
    match pane {
        Some(pane) => locals_of(v.panes, seq![pane]),
        None => match window {
            Some(window) => if v.tabs.dom().contains(window) {
                locals_of(v.panes, v.tabs[window].panes)
            } else {
                Seq::empty()
            },
            None => locals_of(v.panes, ascending(v.panes.dom())),
        },
    }
}

/// The user var of every pane of `locals` is set.
pub open spec fn vars_set(locals: Seq<PaneId>, name: Seq<char>, value: Seq<char>) -> Seq<
    ActionView,
> {
    locals.map_values(|pane: PaneId| ActionView::SetUserVar { pane, name, value })
}

/// The values that are kept for the panes of a window.
pub open spec fn values_of_window(v: DomainView, window: TmuxWindowId) -> Seq<
    (Seq<char>, Seq<char>),
> {
    if v.window_format_values.dom().contains(window) {
        v.window_format_values[window]
    } else {
        Seq::empty()
    }
}

/// The state with a value kept for the panes to come: of the session, or of a window. A value
/// for one pane is not kept.
pub open spec fn value_kept(
    v: DomainView,
    window: Option<TmuxWindowId>,
    pane: Option<TmuxPaneId>,
    name: Seq<char>,
    value: Seq<char>,
) -> DomainView {
    match (window, pane) {
        (_, Some(_)) => v,
        (None, None) => DomainView {
            session_format_values: inserted(v.session_format_values, name, value),
            ..v
        },
        (Some(window), None) => DomainView {
            window_format_values: v.window_format_values.insert(
                window,
                inserted(values_of_window(v, window), name, value),
            ),
            ..v
        },
    }
}

/// The state and the actions after the value of a format subscription changed: it is set as
/// a user var on the panes it applies to, whoever listens is told, and a value that is not
/// for one pane is kept for the panes to come.
pub open spec fn value_changed(
    v: DomainView,
    name: Seq<char>,
    session: Option<TmuxSessionId>,
    window: Option<TmuxWindowId>,
    window_index: Option<u64>,
    pane: Option<TmuxPaneId>,
    value: Seq<char>,
) -> Step {
    let vars = vars_set(value_targets(v, window, pane), name, value);
    Step {
        view: value_kept(v, window, pane, name, value),
        actions: match v.gui_window {
            Some(gui_window) => vars.push(
                ActionView::NotifySubscription(
                    SubscriptionChangeView {
                        window: gui_window,
                        pane: match pane {
                            Some(p) => if v.panes.dom().contains(p) {
                                Some(v.panes[p].local_pane_id)
                            } else {
                                None
                            },
                            None => None,
                        },
                        name,
                        value,
                        tab: match (window, pane) {
                            (Some(w), None) => if v.tabs.dom().contains(w) {
                                Some(v.tabs[w].tab_id)
                            } else {
                                None
                            },
                            _ => None,
                        },
                        session,
                        tmux_window: window,
                        window_index,
                        tmux_pane: pane,
                        domain_id: v.domain_id,
                    },
                ),
            ),
            None => vars,
        },
    }
}

/// The state and the actions after a window was closed: its tab is removed, and panes that
/// are in no window any more will be pruned.
pub open spec fn window_closed(v: DomainView, window: TmuxWindowId) -> Step {
    let removed = window_removed(v, window);
    let pruned = prune_scheduled(removed.view);
    Step { view: pruned.view, actions: removed.actions + pruned.actions }
}

/// The state and the actions after an event.
#[verifier::opaque]
pub open spec fn event_applied(v: DomainView, event: EventView) -> Step {
    match event {
        EventView::Guarded(result) => answered(v, result),
        EventView::Exit { .. } => exited(v),
        EventView::LayoutChange { window, layout, visible_layout, raw_flags } => Step {
            view: v,
            actions: seq![
                ActionView::ChangeLayout { window, layout, visible_layout, raw_flags },
            ],
        },
        EventView::Output { pane, text } => if v.panes.dom().contains(pane) {
            Step { view: v, actions: seq![ActionView::WriteOutput { pane, text }] }
        } else {
            stays(DomainView { backlog: v.backlog.insert(pane, text), ..v })
        },
        EventView::SessionChanged { session, .. } => Step {
            view: DomainView {
                session: Some(session),
                ..enqueued(v, TmuxCommand::ListCommands(ListCommands))
            },
            actions: seq![ActionView::SubscribeNotification],
        },
        EventView::WindowAdd { window } => match (v.gui_window, v.session) {
            (Some(_), Some(session_id)) => stays(
                enqueued(
                    v,
                    TmuxCommand::ListAllWindows(
                        ListAllWindows { session_id, window_id: Some(window) },
                    ),
                ),
            ),
            _ => stays(v),
        },
        EventView::WindowClose { window } => window_closed(v, window),
        EventView::UnlinkedWindowClose { window } => window_closed(v, window),
        EventView::WindowPaneChanged { window, pane } => Step {
            view: v,
            actions: seq![ActionView::SetActiveTmuxPane { window, pane }],
        },
        EventView::WindowRenamed { window, name } => if v.tabs.dom().contains(window) {
            Step {
                view: v,
                actions: seq![
                    ActionView::SetTabTitle { tab: v.tabs[window].tab_id, title: name },
                ],
            }
        } else {
            stays(v)
        },
        EventView::SubscriptionChanged { name, session, window, window_index, pane, value } =>
            value_changed(v, name, session, window, window_index, pane, value),
        _ => stays(v),
    }
}

/// The state and the actions after a row of events. Nothing is heeded behind an exit;
/// otherwise the next command is sent at the end, if there is one.
pub open spec fn advanced(v: DomainView, events: Seq<EventView>) -> Step
    decreases events.len(),
{
    if events.len() == 0 {
        Step { view: v, actions: sending(v) }
    } else {
        let first = event_applied(v, events[0]);
        if events[0] is Exit {
            first
        } else {
            let rest = advanced(first.view, events.skip(1));
            Step { view: rest.view, actions: first.actions + rest.actions }
        }
    }
}

fn one_or_none(action: Option<Action>) -> (actions: Vec<Action>)
    ensures
        action_views(actions@) == opt_action(action),
{
    let mut actions: Vec<Action> = Vec::new();
    push_opt_action(&mut actions, action);
    assert(action_views(actions@) == opt_action(action));
    actions
}

fn release_all(ids: &Vec<TmuxPaneId>) -> (actions: Vec<Action>)
    ensures
        action_views(actions@) == released(ids@),
{
    let mut actions: Vec<Action> = Vec::new();
    let mut i: usize = 0;
    assert(action_views(actions@) == released(ids@.take(0)));
    while i < ids.len()
        invariant
            i <= ids@.len(),
            action_views(actions@) == released(ids@.take(i as int)),
        decreases ids@.len() - i,
    {
        push_action(&mut actions, Action::ReleasePane { pane: ids[i] });
        assert(action_views(actions@) == released(ids@.take(i + 1)));
        i += 1;
    }
    assert(ids@.take(ids@.len() as int) == ids@);
    actions
}

fn set_vars(locals: &Vec<PaneId>, name: &String, value: &String) -> (actions: Vec<Action>)
    ensures
        action_views(actions@) == vars_set(locals@, name@, value@),
{
    let mut actions: Vec<Action> = Vec::new();
    let mut i: usize = 0;
    assert(action_views(actions@) == vars_set(locals@.take(0), name@, value@));
    while i < locals.len()
        invariant
            i <= locals@.len(),
            action_views(actions@) == vars_set(locals@.take(i as int), name@, value@),
        decreases locals@.len() - i,
    {
        push_action(
            &mut actions,
            Action::SetUserVar { pane: locals[i], name: name.clone(), value: value.clone() },
        );
        assert(action_views(actions@) == vars_set(locals@.take(i + 1), name@, value@));
        i += 1;
    }
    assert(locals@.take(locals@.len() as int) == locals@);
    actions
}

fn clone_opt_text(s: &Option<String>) -> (r: Option<String>)
    ensures
        opt_text(r) == opt_text(*s),
{
    match s {
        Some(s) => Some(s.clone()),
        None => None,
    }
}

impl TmuxDomainState {
    /// The local peers of those of `ids` that have one.
    fn local_panes(&self, ids: &Vec<TmuxPaneId>) -> (locals: Vec<PaneId>)
        ensures
            locals@ == locals_of(self@.panes, ids@),
    {
        let mut locals: Vec<PaneId> = Vec::new();
        let mut i: usize = 0;
        assert(ids@.take(0) == Seq::<TmuxPaneId>::empty());
        while i < ids.len()
            invariant
                i <= ids@.len(),
                locals@ == locals_of(self@.panes, ids@.take(i as int)),
            decreases ids@.len() - i,
        {
            assert(ids@.take(i + 1).drop_last() == ids@.take(i as int));
            if let Some(pane) = self.remote_panes.get(ids[i]) {
                locals.push(pane.local_pane_id);
            }
            i += 1;
        }
        assert(ids@.take(ids@.len() as int) == ids@);
        locals
    }

    fn exit(&mut self) -> (actions: Vec<Action>)
        ensures
            exited(old(self)@) == (Step { view: final(self)@, actions: action_views(actions@) }),
    {
        self.state = State::Exit;
        let ids = self.remote_panes.ids();
        let mut actions = release_all(&ids);
        self.cmd_queue.clear();
        push_action(&mut actions, Action::QuitTmuxMode { pane: self.pane_id });
        actions
    }

    fn change_value(
        &mut self,
        name: &String,
        session: Option<TmuxSessionId>,
        window: Option<TmuxWindowId>,
        window_index: Option<u64>,
        pane: Option<TmuxPaneId>,
        value: &String,
    ) -> (actions: Vec<Action>)
        ensures
            value_changed(old(self)@, name@, session, window, window_index, pane, value@) == (Step {
                view: final(self)@,
                actions: action_views(actions@),
            }),
    {
        let mut tab: Option<TabId> = None;
        let mut local: Option<PaneId> = None;
        let locals = match pane {
            Some(pane) => {
                let mut ids: Vec<TmuxPaneId> = Vec::new();
                ids.push(pane);
                assert(ids@ == seq![pane]);
                if let Some(p) = self.remote_panes.get(pane) {
                    local = Some(p.local_pane_id);
                }
                self.local_panes(&ids)
            },
            None => match window {
                Some(window) => match self.gui_tabs.get(window) {
                    Some(t) => {
                        tab = Some(t.tab_id);
                        self.local_panes(&t.panes)
                    },
                    None => Vec::new(),
                },
                None => {
                    let ids = self.remote_panes.ids();
                    self.local_panes(&ids)
                },
            },
        };
        assert(locals@ == value_targets(self@, window, pane));
        let mut actions = set_vars(&locals, name, value);
        if let Some(gui_window) = self.gui_window {
            push_action(
                &mut actions,
                Action::NotifySubscription(
                    SubscriptionChange {
                        window: gui_window,
                        pane: local,
                        name: name.clone(),
                        value: value.clone(),
                        tab,
                        session,
                        tmux_window: window,
                        window_index,
                        tmux_pane: pane,
                        domain_id: self.domain_id,
                    },
                ),
            );
        }
        self.keep_value(window, pane, name, value);
        actions
    }

    /// Keeps a value for the panes to come.
    fn keep_value(
        &mut self,
        window: Option<TmuxWindowId>,
        pane: Option<TmuxPaneId>,
        name: &String,
        value: &String,
    )
        ensures
            final(self)@ == value_kept(old(self)@, window, pane, name@, value@),
    {
        if pane.is_some() {
            return;
        }
        match window {
            Some(window) => {
                let ghost start = self@;
                let mut table = match self.window_format_values.remove(window) {
                    Some(table) => table,
                    None => StringTable::new(),
                };
                assert(table@ == values_of_window(start, window));
                table.insert(name.clone(), value.clone());
                let ghost m = self.window_format_values@;
                self.window_format_values.insert(window, table);
                proof {
                    lemma_table_inserted(m, window, table);
                    assert(self@.window_format_values =~= start.window_format_values.insert(
                        window,
                        table@,
                    ));
                }
            },
            None => {
                self.session_format_values.insert(name.clone(), value.clone());
            },
        }
    }

    fn close_window(&mut self, window: TmuxWindowId) -> (actions: Vec<Action>)
        ensures
            window_closed(old(self)@, window) == (Step {
                view: final(self)@,
                actions: action_views(actions@),
            }),
    {
        let mut actions: Vec<Action> = Vec::new();
        assert(action_views(actions@) == Seq::<ActionView>::empty());
        if let Ok(action) = self.remove_detached_window(window) {
            push_action(&mut actions, action);
            assert(action_views(actions@) == seq![action@]);
        }
        let action = self.schedule_prune();
        push_opt_action(&mut actions, action);
        actions
    }

    fn answer(&mut self, result: &Guarded) -> (action: Option<Action>)
        ensures
            answered(old(self)@, result@) == (Step {
                view: final(self)@,
                actions: opt_action(action),
            }),
    {
        match self.state {
            State::WaitForInitialGuard => {
                self.state = State::Idle;
                None
            },
            State::WaitingForResponse => match self.cmd_queue.pop_front() {
                Some(command) => {
                    self.state = State::Idle;
                    Some(Action::ProcessResult { command, result: result.clone() })
                },
                None => None,
            },
            State::Idle => None,
            State::Exit => None,
        }
    }

    /// Takes in an event that asks for one action at most.
    fn apply_simple_event(&mut self, event: &Event) -> (action: Option<Action>)
        requires
            !(event is Exit || event is WindowClose || event is UnlinkedWindowClose
                || event is SubscriptionChanged),
        ensures
            event_applied(old(self)@, event@) == (Step {
                view: final(self)@,
                actions: opt_action(action),
            }),
    {
        proof {
            reveal(event_applied);
        }
        match event {
            // Tmux generic events
            Event::Guarded(result) => self.answer(result),
            // Tmux specific events
            Event::LayoutChange { window, layout, visible_layout, raw_flags } => {
                // The remote layout is the source of truth for this window's
                // structure. Rebuild the local tab atomically on the main
                // thread (it mutates the mux).
                Some(
                    Action::ChangeLayout {
                        window: *window,
                        layout: layout.clone(),
                        visible_layout: clone_opt_text(visible_layout),
                        raw_flags: clone_opt_text(raw_flags),
                    },
                )
            },
            Event::Output { pane, text } => if self.remote_panes.contains(*pane) {
                Some(Action::WriteOutput { pane: *pane, text: copy_bytes(text) })
            } else {
                // the output may come before the pane is ready, in this case we
                // backlog it
                let text = copy_bytes(text);
                proof {
                    lemma_bytes_inserted(self.backlog@, *pane, text);
                }
                self.backlog.insert(*pane, text);
                None
            },
            Event::SessionChanged { session, .. } => {
                self.tmux_session = Some(*session);
                self.cmd_queue.push_back(TmuxCommand::ListCommands(ListCommands));
                Some(Action::SubscribeNotification)
            },
            Event::WindowAdd { window } => {
                // Only handle the new tab, the first empty window is handled when the
                // windows are listed
                if self.gui_window.is_some() {
                    if let Some(session_id) = self.tmux_session {
                        self.cmd_queue.push_back(
                            TmuxCommand::ListAllWindows(
                                ListAllWindows { session_id, window_id: Some(*window) },
                            ),
                        );
                    }
                }
                None
            },
            Event::WindowPaneChanged { window, pane } => {
                // Track the active pane for this window. A pending split is
                // resolved later, when the corresponding
                // %layout-change actually creates the local pane.
                Some(Action::SetActiveTmuxPane { window: *window, pane: *pane })
            },
            Event::WindowRenamed { window, name } => match self.gui_tabs.get(*window) {
                Some(tab) => Some(Action::SetTabTitle { tab: tab.tab_id, title: name.clone() }),
                None => None,
            },
            _ => None,
        }
    }

    /// Takes in one event.
    fn apply_event(&mut self, event: &Event) -> (actions: Vec<Action>)
        ensures
            event_applied(old(self)@, event@) == (Step {
                view: final(self)@,
                actions: action_views(actions@),
            }),
    {
        proof {
            reveal(event_applied);
        }
        match event {
            Event::Exit { .. } => self.exit(),
            Event::WindowClose { window } => self.close_window(*window),
            Event::UnlinkedWindowClose { window } => self.close_window(*window),
            Event::SubscriptionChanged { name, session, window, window_index, pane, value } =>
                self.change_value(name, *session, *window, *window_index, *pane, value),
            _ => {
                let action = self.apply_simple_event(event);
                one_or_none(action)
            },
        }
    }

    /// Takes in a row of events.
    pub fn advance(&mut self, events: &Vec<Event>) -> (actions: Vec<Action>)
        ensures
            advanced(old(self)@, event_views(events@)) == (Step {
                view: final(self)@,
                actions: action_views(actions@),
            }),
    {
        let ghost all = event_views(events@);
        let ghost start = self@;
        let mut actions: Vec<Action> = Vec::new();
        let mut i: usize = 0;
        proof {
            assert(all.skip(0) == all);
            assert(action_views(actions@) + advanced(self@, all).actions == advanced(
                self@,
                all,
            ).actions);
        }
        while i < events.len()
            invariant
                i <= events@.len(),
                all == event_views(events@),
                start == old(self)@,
                advanced(start, all).view == advanced(self@, all.skip(i as int)).view,
                advanced(start, all).actions == action_views(actions@) + advanced(
                    self@,
                    all.skip(i as int),
                ).actions,
            decreases events@.len() - i,
        {
            let ghost rest = all.skip(i as int);
            let ghost done = action_views(actions@);
            assert(rest[0] == events@[i as int]@);
            assert(rest.skip(1) == all.skip(i + 1));
            let mut more = self.apply_event(&events[i]);
            let ghost new = action_views(more@);
            actions.append(&mut more);
            assert(action_views(actions@) == done + new);
            if let Event::Exit { .. } = &events[i] {
                return actions;
            }
            proof {
                let tail = advanced(self@, all.skip(i + 1));
                assert(done + (new + tail.actions) == action_views(actions@) + tail.actions);
            }
            i += 1;
        }
        assert(all.skip(all.len() as int) == Seq::<EventView>::empty());
        // send pending commands to tmux
        let action = self.maybe_schedule_send();
        push_opt_action(&mut actions, action);
        actions
    }
}

// ---------------------------------------------------------------------------
// The domain
// ---------------------------------------------------------------------------

/// A tmux session as a domain of the multiplexer.
#[derive(Debug)]
pub struct TmuxDomain {
    pub inner: TmuxDomainState,
}

impl TmuxDomain {
    /// The domain for the tmux that runs in a pane.
    pub fn new(pane_id: PaneId, domain_id: DomainId) -> (r: Self)
        ensures
            r.inner@ == initial(pane_id, domain_id),
    {
        Self { inner: TmuxDomainState::new(pane_id, domain_id) }
    }

    /// Sends the next command at the front of the queue, given the sizes of the tabs.
    pub fn send_next_command(&mut self, sizes: &HashMap<TabId, TerminalSize>) -> (action: Option<
        Action,
    >)
        ensures
            next_sent(old(self).inner@, sizes@) == (Step {
                view: final(self).inner@,
                actions: opt_action(action),
            }),
    {
        self.inner.send_next_command(sizes)
    }

    /// Injects an arbitrary tmux command line into the control stream.
    /// Routed through the queue so that the `%begin/%end` guard
    /// emitted by tmux is consumed by the normal response machinery.
    pub fn send_raw_command(&mut self, command: String) -> (action: Action)
        ensures
            final(self).inner@ == enqueued(
                old(self).inner@,
                TmuxCommand::RawCommand(RawCommand { command }),
            ),
            action@ == (ActionView::ScheduleSend { domain_id: old(self).inner@.domain_id }),
    {
        self.inner.send_command(TmuxCommand::RawCommand(RawCommand { command }))
    }
}

// ---------------------------------------------------------------------------
// Laws
// ---------------------------------------------------------------------------

/// The state with more commands to send.
pub open spec fn all_enqueued(v: DomainView, commands: Seq<TmuxCommand>) -> DomainView {
    DomainView { queue: v.queue + commands, ..v }
}

proof fn lemma_command_line_keeps(
    v: DomainView,
    sizes: Map<TabId, TerminalSize>,
    command: TmuxCommand,
)
    ensures
        ({
            let next = command_line(v, sizes, command).0;
            next == (DomainView { panes: next.panes, ..v })
        }),
{
}

/// Only one command is ever in flight: one is sent only while none is, and once it is sent
/// no other is until its answer comes.
pub proof fn law_one_command_in_flight(v: DomainView, sizes: Map<TabId, TerminalSize>)
    ensures
        v.state != State::Idle ==> next_sent(v, sizes) == stays(v),
        next_sent(v, sizes).actions.len() <= 1,
        next_sent(v, sizes).actions.len() == 1 <==> v.state == State::Idle && next_sent(
            v,
            sizes,
        ).view.state == State::WaitingForResponse,
        next_sent(v, sizes).actions.len() == 1 ==> next_sent(v, sizes).view.queue.len() > 0,
        next_sent(v, sizes).actions.len() == 0 && v.state == State::Idle ==> next_sent(
            v,
            sizes,
        ).view.queue.len() == 0,
    decreases v.queue.len(),
{
    if v.state == State::Idle && v.queue.len() > 0 {
        let (next, line) = command_line(v, sizes, v.queue[0]);
        lemma_command_line_keeps(v, sizes, v.queue[0]);
        if line.len() == 0 {
            law_one_command_in_flight(
                DomainView { queue: v.queue.subrange(1, v.queue.len() as int), ..next },
                sizes,
            );
        }
    }
}

/// The answer goes to the command that was sent, whatever was queued in the meantime; and
/// the commands behind it keep their order.
pub proof fn law_answer_goes_to_its_command(
    v: DomainView,
    sizes: Map<TabId, TerminalSize>,
    later: Seq<TmuxCommand>,
    result: GuardedView,
)
    requires
        next_sent(v, sizes).actions.len() == 1,
    ensures
        ({
            let sent = next_sent(v, sizes).view;
            let done = answered(all_enqueued(sent, later), result);
            &&& done.actions == seq![
                ActionView::ProcessResult { command: sent.queue[0], result },
            ]
            &&& done.view.state == State::Idle
            &&& done.view.queue == sent.queue.subrange(1, sent.queue.len() as int) + later
        }),
{
    law_one_command_in_flight(v, sizes);
    let sent = next_sent(v, sizes).view;
    let all = sent.queue + later;
    assert(all.subrange(1, all.len() as int) == sent.queue.subrange(1, sent.queue.len() as int)
        + later);
}

/// The command that was sent is the one that the line was made of: the first in the queue
/// that has a line.
pub proof fn law_sent_line_is_of_the_front_command(v: DomainView, sizes: Map<TabId, TerminalSize>)
    ensures
        next_sent(v, sizes).actions.len() == 1 ==> exists|before: DomainView|
            before.queue == next_sent(v, sizes).view.queue && next_sent(v, sizes).actions[0] == (
            ActionView::SendCommand {
                pane: v.pane_id,
                line: (#[trigger] command_line(before, sizes, before.queue[0])).1,
            }) && next_sent(v, sizes).view.panes == command_line(
                before,
                sizes,
                before.queue[0],
            ).0.panes,
    decreases v.queue.len(),
{
    if v.state == State::Idle && v.queue.len() > 0 {
        let (next, line) = command_line(v, sizes, v.queue[0]);
        lemma_command_line_keeps(v, sizes, v.queue[0]);
        if line.len() == 0 {
            law_sent_line_is_of_the_front_command(
                DomainView { queue: v.queue.subrange(1, v.queue.len() as int), ..next },
                sizes,
            );
        }
    }
}

/// A resize that is asked for twice gives its lines once: the size is noted, so that the
/// second asks for nothing.
pub proof fn law_resize_is_sent_once(v: DomainView, sizes: Map<TabId, TerminalSize>, r: Resize)
    ensures
        resize_lines(resize_lines(v, sizes, r).0, sizes, r) == (
            resize_lines(v, sizes, r).0,
            Seq::<char>::empty(),
        ),
{
    let once = resize_lines(v, sizes, r).0;
    if once.attach_state != AttachState::Init && once.panes.dom().contains(r.pane_id) {
        assert(once.panes[r.pane_id].pane_width == r.size.cols);
        assert(once.panes[r.pane_id].pane_height == r.size.rows);
    }
}

/// While the session is being attached, and for a pane that is not known, a resize gives no
/// line and notes no size.
pub proof fn law_resize_waits_for_the_pane(
    v: DomainView,
    sizes: Map<TabId, TerminalSize>,
    r: Resize,
)
    requires
        v.attach_state == AttachState::Init || !v.panes.dom().contains(r.pane_id),
    ensures
        resize_lines(v, sizes, r) == (v, Seq::<char>::empty()),
{
}

/// Once attached, a resize of a pane to another size is sent where its window's tab has a
/// size and tmux can resize windows: the window to the tab's size, then the pane; and the
/// pane's size is noted.
pub proof fn law_resize_is_sent(v: DomainView, sizes: Map<TabId, TerminalSize>, r: Resize)
    requires
        v.attach_state == AttachState::Done,
        v.panes.dom().contains(r.pane_id),
        v.panes[r.pane_id].pane_width != r.size.cols || v.panes[r.pane_id].pane_height
            != r.size.rows,
        v.tabs.dom().contains(v.panes[r.pane_id].window_id),
        sizes.dom().contains(v.tabs[v.panes[r.pane_id].window_id].tab_id),
        lookup(v.support_commands, "resize-window"@) is Some,
    ensures
        ({
            let pane = v.panes[r.pane_id];
            let size = sizes[v.tabs[pane.window_id].tab_id];
            let (after, lines) = resize_lines(v, sizes, r);
            &&& lines == "resize-window"@ + size_options(
                size.cols as nat,
                size.rows as nat,
                "@"@,
                pane.window_id as nat,
            ) + "resize-pane"@ + size_options(
                r.size.cols as nat,
                r.size.rows as nat,
                "%"@,
                r.pane_id as nat,
            )
            &&& after == (DomainView {
                panes: v.panes.insert(
                    r.pane_id,
                    TmuxRemotePane {
                        pane_width: r.size.cols as u64,
                        pane_height: r.size.rows as u64,
                        ..pane
                    },
                ),
                ..v
            })
        }),
{
}

/// After an exit nothing is sent any more, and no answer is taken.
pub proof fn law_nothing_is_sent_after_exit(
    v: DomainView,
    sizes: Map<TabId, TerminalSize>,
    later: Seq<TmuxCommand>,
    result: GuardedView,
)
    ensures
        ({
            let gone = all_enqueued(exited(v).view, later);
            &&& next_sent(gone, sizes) == stays(gone)
            &&& answered(gone, result) == stays(gone)
            &&& !can_send(gone)
        }),
{
}

/// However often a prune is asked for, it is scheduled once until it has run.
pub proof fn law_prune_is_scheduled_once(v: DomainView)
    ensures
        prune_scheduled(prune_scheduled(v).view) == stays(prune_scheduled(v).view),
        prune_scheduled(v).view.prune_pending,
        prune_scheduled(v).actions.len() == (if v.prune_pending {
            0nat
        } else {
            1nat
        }),
{
}

/// Events may come in one row or in two: the state is the same, and so are the actions but
/// for the sending at the end of the first row, unless an exit ends that row.
pub proof fn law_events_may_come_in_two_rows(
    v: DomainView,
    first: Seq<EventView>,
    second: Seq<EventView>,
)
    requires
        forall|i: int| 0 <= i < first.len() ==> !(#[trigger] first[i] is Exit),
    ensures
        advanced(v, first + second).view == advanced(advanced(v, first).view, second).view,
        exists|done: Seq<ActionView>| #[trigger]
            (done + sending(advanced(v, first).view)) == advanced(v, first).actions && done
                + advanced(advanced(v, first).view, second).actions == advanced(
                v,
                first + second,
            ).actions,
    decreases first.len(),
{
    let all = first + second;
    let between = advanced(v, first).view;
    if first.len() == 0 {
        assert(all == second);
        let done = Seq::<ActionView>::empty();
        assert(done + sending(between) == advanced(v, first).actions);
        assert(done + advanced(between, second).actions == advanced(v, all).actions);
    } else {
        assert(all[0] == first[0]);
        assert(all.skip(1) == first.skip(1) + second);
        assert forall|i: int| 0 <= i < first.skip(1).len() implies !(#[trigger] first.skip(1)[i]
            is Exit) by {
            assert(first.skip(1)[i] == first[i + 1]);
        }
        let step = event_applied(v, first[0]);
        law_events_may_come_in_two_rows(step.view, first.skip(1), second);
        let rest = choose|rest: Seq<ActionView>| #[trigger]
            (rest + sending(between)) == advanced(step.view, first.skip(1)).actions && rest
                + advanced(between, second).actions == advanced(
                step.view,
                first.skip(1) + second,
            ).actions;
        let done = step.actions + rest;
        assert(done + sending(between) == step.actions + (rest + sending(between)));
        assert(done + advanced(between, second).actions == step.actions + (rest + advanced(
            between,
            second,
        ).actions));
    }
}

} // verus!
