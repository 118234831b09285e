//! What the multiplexer is asked to do.

use vstd::prelude::*;

use crate::tab::{DomainId, PaneId, PaneNode, PaneTree, TabId, TerminalSize, WindowId};
use crate::tmux_cc::event::{opt_text, Guarded, GuardedView};
use crate::tmux_cc::layout::{TmuxPaneId, TmuxSessionId, TmuxWindowId};
use crate::tmux_commands::{window_views, TmuxCommand, WindowItem, WindowView};

verus! {

/// A change of the value of a format subscription, with everything that is known of what
/// the value applies to.
#[derive(Debug, PartialEq, Eq)]
pub struct SubscriptionChange {
    /// The window showing the tmux domain.
    pub window: WindowId,
    /// The pane that a pane-scoped value applies to.
    pub pane: Option<PaneId>,
    pub name: String,
    pub value: String,
    /// The tab that a window-scoped value applies to.
    pub tab: Option<TabId>,
    pub session: Option<TmuxSessionId>,
    pub tmux_window: Option<TmuxWindowId>,
    pub window_index: Option<u64>,
    pub tmux_pane: Option<TmuxPaneId>,
    pub domain_id: DomainId,
}

/// A [`SubscriptionChange`] as a mathematical value.
pub struct SubscriptionChangeView {
    pub window: WindowId,
    pub pane: Option<PaneId>,
    pub name: Seq<char>,
    pub value: Seq<char>,
    pub tab: Option<TabId>,
    pub session: Option<TmuxSessionId>,
    pub tmux_window: Option<TmuxWindowId>,
    pub window_index: Option<u64>,
    pub tmux_pane: Option<TmuxPaneId>,
    pub domain_id: DomainId,
}

impl View for SubscriptionChange {
    type V = SubscriptionChangeView;

    open spec fn view(&self) -> SubscriptionChangeView {
        SubscriptionChangeView {
            window: self.window,
            pane: self.pane,
            name: self.name@,
            value: self.value@,
            tab: self.tab,
            session: self.session,
            tmux_window: self.tmux_window,
            window_index: self.window_index,
            tmux_pane: self.tmux_pane,
            domain_id: self.domain_id,
        }
    }
}

/// Something that the multiplexer is asked to do.
#[derive(Debug, PartialEq, Eq)]
#[allow(inconsistent_fields)]
pub enum Action {
    /// Hand the answer to its command, on the main thread.
    ProcessResult { command: TmuxCommand, result: Guarded },
    /// Send the next command, on the main thread.
    ScheduleSend { domain_id: DomainId },
    /// Write a command line to the pane that tmux runs in, if that pane exists.
    SendCommand { pane: PaneId, line: String },
    /// Run the prune task on the main thread, after other work.
    SchedulePrune { domain_id: DomainId },
    /// Follow the notifications of the multiplexer.
    SubscribeNotification,
    /// Quit the tmux mode of the pane that tmux runs in, if that pane exists.
    QuitTmuxMode { pane: PaneId },
    /// Apply a changed layout, on the main thread.
    ChangeLayout {
        window: TmuxWindowId,
        layout: String,
        visible_layout: Option<String>,
        raw_flags: Option<String>,
    },
    /// Note the active pane of a window, on the main thread.
    SetActiveTmuxPane { window: TmuxWindowId, pane: TmuxPaneId },
    /// Bring the tabs in line with the windows that tmux lists.
    SyncWindows { windows: Vec<WindowItem>, new_window: bool },
    /// Write to the output of a tmux pane.
    WriteOutput { pane: TmuxPaneId, text: Vec<u8> },
    /// Let the stand-in for the child of a tmux pane exit.
    ReleasePane { pane: TmuxPaneId },
    /// Add a pane that was created.
    AddPane { pane: PaneId },
    /// Remove a pane.
    RemovePane { pane: PaneId },
    /// Set a user var of a pane.
    SetUserVar { pane: PaneId, name: String, value: String },
    /// Tell whoever listens that a subscription has a new value.
    NotifySubscription(SubscriptionChange),
    /// Place the cursor of a pane, if that pane exists.
    SetCursor { pane: PaneId, x: usize, y: usize },
    /// Make a pane the active one of a tab, if both exist; then say so if `notify` is set.
    FocusPane { tab: TabId, pane: PaneId, notify: bool },
    /// Add a tab that was created, without panes.
    AddTab { tab: TabId },
    /// Link a tab into a window.
    AddTabToWindow { tab: TabId, window: WindowId },
    /// Remove a tab.
    RemoveTab { tab: TabId },
    /// Set the title of a tab, if it exists.
    SetTabTitle { tab: TabId, title: String },
    /// Swap in a rebuilt tree of panes, reusing the panes that exist.
    SyncPaneTree { tab: TabId, size: TerminalSize, root: PaneNode },
    /// Tell whoever asked for a split which pane came of it.
    ResolveSplit { ticket: u64, pane: PaneId },
}

/// An [`Action`] as a mathematical value.
#[allow(inconsistent_fields)]
pub enum ActionView {
    ProcessResult { command: TmuxCommand, result: GuardedView },
    ScheduleSend { domain_id: DomainId },
    SendCommand { pane: PaneId, line: Seq<char> },
    SchedulePrune { domain_id: DomainId },
    SubscribeNotification,
    QuitTmuxMode { pane: PaneId },
    ChangeLayout {
        window: TmuxWindowId,
        layout: Seq<char>,
        visible_layout: Option<Seq<char>>,
        raw_flags: Option<Seq<char>>,
    },
    SetActiveTmuxPane { window: TmuxWindowId, pane: TmuxPaneId },
    SyncWindows { windows: Seq<WindowView>, new_window: bool },
    WriteOutput { pane: TmuxPaneId, text: Seq<u8> },
    ReleasePane { pane: TmuxPaneId },
    AddPane { pane: PaneId },
    RemovePane { pane: PaneId },
    SetUserVar { pane: PaneId, name: Seq<char>, value: Seq<char> },
    NotifySubscription(SubscriptionChangeView),
    SetCursor { pane: PaneId, x: usize, y: usize },
    FocusPane { tab: TabId, pane: PaneId, notify: bool },
    AddTab { tab: TabId },
    AddTabToWindow { tab: TabId, window: WindowId },
    RemoveTab { tab: TabId },
    SetTabTitle { tab: TabId, title: Seq<char> },
    SyncPaneTree { tab: TabId, size: TerminalSize, root: PaneTree },
    ResolveSplit { ticket: u64, pane: PaneId },
}

impl View for Action {
    type V = ActionView;

    open spec fn view(&self) -> ActionView {
        match *self {
            Action::ProcessResult { command, result } => ActionView::ProcessResult {
                command,
                result: result@,
            },
            Action::ScheduleSend { domain_id } => ActionView::ScheduleSend { domain_id },
            Action::SendCommand { pane, line } => ActionView::SendCommand { pane, line: line@ },
            Action::SchedulePrune { domain_id } => ActionView::SchedulePrune { domain_id },
            Action::SubscribeNotification => ActionView::SubscribeNotification,
            Action::QuitTmuxMode { pane } => ActionView::QuitTmuxMode { pane },
            Action::ChangeLayout { window, layout, visible_layout, raw_flags } =>
                ActionView::ChangeLayout {
                window,
                layout: layout@,
                visible_layout: opt_text(visible_layout),
                raw_flags: opt_text(raw_flags),
            },
            Action::SetActiveTmuxPane { window, pane } => ActionView::SetActiveTmuxPane {
                window,
                pane,
            },
            Action::SyncWindows { windows, new_window } => ActionView::SyncWindows {
                windows: window_views(windows@),
                new_window,
            },
            Action::WriteOutput { pane, text } => ActionView::WriteOutput { pane, text: text@ },
            Action::ReleasePane { pane } => ActionView::ReleasePane { pane },
            Action::AddPane { pane } => ActionView::AddPane { pane },
            Action::RemovePane { pane } => ActionView::RemovePane { pane },
            Action::SetUserVar { pane, name, value } => ActionView::SetUserVar {
                pane,
                name: name@,
                value: value@,
            },
            Action::NotifySubscription(change) => ActionView::NotifySubscription(change@),
            Action::SetCursor { pane, x, y } => ActionView::SetCursor { pane, x, y },
            Action::FocusPane { tab, pane, notify } => ActionView::FocusPane { tab, pane, notify },
            Action::AddTab { tab } => ActionView::AddTab { tab },
            Action::AddTabToWindow { tab, window } => ActionView::AddTabToWindow { tab, window },
            Action::RemoveTab { tab } => ActionView::RemoveTab { tab },
            Action::SetTabTitle { tab, title } => ActionView::SetTabTitle { tab, title: title@ },
            Action::SyncPaneTree { tab, size, root } => ActionView::SyncPaneTree {
                tab,
                size,
                root: root@,
            },
            Action::ResolveSplit { ticket, pane } => ActionView::ResolveSplit { ticket, pane },
        }
    }
}

/// A row of actions as mathematical values.
pub open spec fn action_views(actions: Seq<Action>) -> Seq<ActionView> {
    Seq::new(actions.len(), |i: int| actions[i]@)
}

/// Appends an action.
pub fn push_action(actions: &mut Vec<Action>, action: Action)
    ensures
        action_views(final(actions)@) == action_views(old(actions)@).push(action@),
{
    actions.push(action);
    assert(action_views(actions@) == action_views(old(actions)@).push(action@));
}

/// The action, if there is one, as a row of actions.
pub open spec fn opt_action(action: Option<Action>) -> Seq<ActionView> {
    match action {
        Some(action) => seq![action@],
        None => Seq::empty(),
    }
}

/// Appends an action, if there is one.
pub fn push_opt_action(actions: &mut Vec<Action>, action: Option<Action>)
    ensures
        action_views(final(actions)@) == action_views(old(actions)@) + opt_action(action),
{
    if let Some(action) = action {
        push_action(actions, action);
    }
    assert(action_views(actions@) == action_views(old(actions)@) + opt_action(action));
}

} // verus!
