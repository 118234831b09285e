//! What each event, notification and answer does to the tmux domain.

use vstd::prelude::*;
use vstd::utf8::encode_utf8;

use crate::action::ActionView;
use crate::config::TmuxFormatSubscription;
use crate::id_map::{ascending, lemma_ascending};
use crate::string_table::{law_lookup_finds_what_was_inserted, lookup};
use crate::tab::{PaneId, StableCursorPosition, TabId, TerminalSize, WindowId};
use crate::text::{fields, split_at_first};
use crate::text_laws::law_text_is_split_at_the_first_occurrence;
use crate::tmux::{
    active_pane_set, advanced, command_line, event_applied, initial, locals_of, next_sent, notified,
    pane_attached, peer_of, resize_lines, stays, value_targets, values_of_window, window_among,
    window_choice, window_of_tab, AttachState, DomainView, MuxNotification, State, TabView,
    TmuxRemotePane, WindowChoice,
};
use crate::tmux_cc::event::{EventView, GuardedView};
use crate::tmux_cc::layout::{TmuxPaneId, TmuxSessionId, TmuxWindowId};
use crate::tmux_commands::{
    capture_pane_line, captured, list_panes_line, list_windows_line, listed_windows, raw_line,
    refresh_client_lines, select_pane_line, select_window_line, send_keys_line, split_pane_line,
    subscribe_line, AttachDone, CapturePane, ListAllPanes, ListAllWindows, ListCommands, NewWindow,
    PaneItem, RawCommand, Resize, SelectPane, SelectWindow, SendKeys, SplitPane, Subscribe,
    TmuxCommand, TmuxError,
};
use crate::tmux_laws::is_consistent;
use crate::tmux_results::{result_processed, with_usages};
use crate::tmux_sync::pane_created;

verus! {

// ---------------------------------------------------------------------------
// Events
// ---------------------------------------------------------------------------

/// A domain begins by waiting for the first guard, with nothing known, nothing kept and nothing
/// to be sent.
pub proof fn law_domain_begins_empty(pane_id: PaneId, domain_id: usize)
    ensures
        ({
            let v = initial(pane_id, domain_id);
            &&& v.pane_id == pane_id
            &&& v.domain_id == domain_id
            &&& v.state == State::WaitForInitialGuard
            &&& v.attach_state == AttachState::Init
            &&& v.queue.len() == 0
            &&& v.gui_window is None
            &&& v.session is None
            &&& v.tabs.dom().is_empty()
            &&& v.panes.dom().is_empty()
            &&& v.backlog.dom().is_empty()
            &&& v.window_format_values.dom().is_empty()
            &&& v.support_commands.len() == 0
            &&& v.session_format_values.len() == 0
            &&& v.pending_splits.len() == 0
            &&& !v.prune_pending
        }),
{
}

/// Output of a known pane is written to it as it is; that of an unknown one is kept, alone and
/// as it is, and is written once the pane is created.
pub proof fn law_output_is_written_or_kept(
    v: DomainView,
    pane: TmuxPaneId,
    text: Seq<u8>,
    item: PaneItem,
    local: PaneId,
    capture: Option<isize>,
)
    requires
        item.pane_id == pane,
    ensures
        ({
            let step = event_applied(v, EventView::Output { pane, text });
            &&& v.panes.dom().contains(pane) ==> step.view == v && step.actions == seq![
                ActionView::WriteOutput { pane, text },
            ]
            &&& !v.panes.dom().contains(pane) ==> {
                &&& step.actions.len() == 0
                &&& step.view == (DomainView { backlog: step.view.backlog, ..v })
                &&& forall|p: TmuxPaneId|
                    p != pane ==> (#[trigger] step.view.backlog.dom().contains(p)
                        <==> v.backlog.dom().contains(p)) && step.view.backlog[p] == v.backlog[p]
                &&& pane_created(step.view, item, local, capture).actions.last() == (
                ActionView::WriteOutput { pane, text })
            }
        }),
{
    reveal(event_applied);
}

/// A changed layout and a changed active pane are handed on as they were announced, and a new
/// name becomes the title of the window's tab, if it has one.
pub proof fn law_announcements_are_handed_on(
    v: DomainView,
    window: TmuxWindowId,
    layout: Seq<char>,
    visible_layout: Option<Seq<char>>,
    raw_flags: Option<Seq<char>>,
    pane: TmuxPaneId,
    name: Seq<char>,
)
    ensures
        ({
            let layout_step = event_applied(
                v,
                EventView::LayoutChange { window, layout, visible_layout, raw_flags },
            );
            let pane_step = event_applied(v, EventView::WindowPaneChanged { window, pane });
            let name_step = event_applied(v, EventView::WindowRenamed { window, name });
            &&& layout_step.view == v && pane_step.view == v && name_step.view == v
            &&& layout_step.actions == seq![
                ActionView::ChangeLayout { window, layout, visible_layout, raw_flags },
            ]
            &&& pane_step.actions == seq![ActionView::SetActiveTmuxPane { window, pane }]
            &&& v.tabs.dom().contains(window) ==> name_step.actions == seq![
                ActionView::SetTabTitle { tab: v.tabs[window].tab_id, title: name },
            ]
            &&& !v.tabs.dom().contains(window) ==> name_step.actions.len() == 0
        }),
{
    reveal(event_applied);
}

/// A changed session is noted, the commands of tmux are asked for behind whatever waits, and
/// the notifications of the multiplexer are followed.
pub proof fn law_session_change_asks_for_commands(
    v: DomainView,
    session: TmuxSessionId,
    name: Seq<char>,
)
    ensures
        ({
            let step = event_applied(v, EventView::SessionChanged { session, name });
            &&& step.view.session == Some(session)
            &&& step.view.queue == v.queue.push(TmuxCommand::ListCommands(ListCommands))
            &&& step.view == (DomainView {
                session: step.view.session,
                queue: step.view.queue,
                ..v
            })
            &&& step.actions == seq![ActionView::SubscribeNotification]
        }),
{
    reveal(event_applied);
}

/// A new window is asked for, alone and in the session that is shown, if there is a session and
/// a window to show it in; else nothing happens.
pub proof fn law_new_window_is_asked_for(v: DomainView, window: TmuxWindowId)
    ensures
        ({
            let step = event_applied(v, EventView::WindowAdd { window });
            &&& step.actions.len() == 0
            &&& v.gui_window is Some && v.session is Some ==> step.view == (DomainView {
                queue: v.queue.push(
                    TmuxCommand::ListAllWindows(
                        ListAllWindows { session_id: v.session->0, window_id: Some(window) },
                    ),
                ),
                ..v
            })
            &&& v.gui_window is None || v.session is None ==> step.view == v
        }),
{
    reveal(event_applied);
}

/// A window that closes, linked or not, takes its tab and its values along and no others, and
/// has the dead panes pruned, unless that is going to happen already.
pub proof fn law_closed_window_is_forgotten(v: DomainView, window: TmuxWindowId)
    ensures
        ({
            let step = event_applied(v, EventView::WindowClose { window });
            let prune = ActionView::SchedulePrune { domain_id: v.domain_id };
            &&& step == event_applied(v, EventView::UnlinkedWindowClose { window })
            &&& !step.view.tabs.dom().contains(window)
            &&& v.tabs.dom().contains(window) ==> {
                &&& !step.view.window_format_values.dom().contains(window)
                &&& step.actions == if v.prune_pending {
                    seq![ActionView::RemoveTab { tab: v.tabs[window].tab_id }]
                } else {
                    seq![ActionView::RemoveTab { tab: v.tabs[window].tab_id }, prune]
                }
            }
            &&& !v.tabs.dom().contains(window) ==> step.actions == if v.prune_pending {
                seq![]
            } else {
                seq![prune]
            }
            &&& step.view.prune_pending
            &&& forall|w: TmuxWindowId|
                w != window ==> (#[trigger] step.view.tabs.dom().contains(w)
                    <==> v.tabs.dom().contains(w)) && (v.tabs.dom().contains(w)
                    ==> step.view.tabs[w] == v.tabs[w])
            &&& forall|w: TmuxWindowId|
                w != window || !v.tabs.dom().contains(window) ==> (
                #[trigger] step.view.window_format_values.dom().contains(w)
                    <==> v.window_format_values.dom().contains(w)) && (
                v.window_format_values.dom().contains(w) ==> step.view.window_format_values[w]
                    == v.window_format_values[w])
            &&& step.view == (DomainView {
                tabs: step.view.tabs,
                window_format_values: step.view.window_format_values,
                prune_pending: true,
                ..v
            })
        }),
{
    reveal(event_applied);
    assert(!v.tabs.dom().contains(window) ==> v.tabs.remove(window) == v.tabs);
}

/// At the end of control mode every pane is released, each once, and then the pane that tmux
/// runs in leaves tmux mode; nothing is sent any more.
pub proof fn law_exit_releases_every_pane(
    v: DomainView,
    reason: Option<Seq<char>>,
    pane: TmuxPaneId,
)
    requires
        v.panes.dom().finite(),
    ensures
        ({
            let step = event_applied(v, EventView::Exit { reason });
            &&& step.view == (DomainView { state: State::Exit, queue: Seq::empty(), ..v })
            &&& step.actions.len() == v.panes.dom().len() + 1
            &&& step.actions.last() == (ActionView::QuitTmuxMode { pane: v.pane_id })
            &&& step.actions.contains(ActionView::ReleasePane { pane }) <==> v.panes.dom().contains(
                pane,
            )
            &&& step.actions.no_duplicates()
        }),
{
    reveal(event_applied);
    lemma_ascending(v.panes.dom());
    let ids = ascending(v.panes.dom());
    let actions = event_applied(v, EventView::Exit { reason }).actions;
    ids.unique_seq_to_set();
    assert(actions.len() == ids.len() + 1);
    assert forall|i: int| 0 <= i < ids.len() implies #[trigger] actions[i] == (
    ActionView::ReleasePane { pane: ids[i] }) by {}
    if v.panes.dom().contains(pane) {
        assert(ids.to_set().contains(pane));
        let i = choose|i: int| 0 <= i < ids.len() && ids[i] == pane;
        assert(actions[i] == (ActionView::ReleasePane { pane }));
    }
    if actions.contains(ActionView::ReleasePane { pane }) {
        let i = choose|i: int|
            0 <= i < actions.len() && actions[i] == (ActionView::ReleasePane { pane });
        assert(ids[i] == pane);
        assert(ids.to_set().contains(pane));
    }
    assert forall|i: int, j: int| 0 <= i < j < actions.len() implies actions[i] != actions[j] by {
        if j < ids.len() {
            assert(ids[i] != ids[j]);
        }
    }
}

/// The other announcements change nothing.
pub proof fn law_other_announcements_change_nothing(v: DomainView, event: EventView)
    requires
        event is Begin || event is End || event is Error || event is ClientDetached
            || event is ClientSessionChanged || event is ConfigError || event is Continue
            || event is ExtendedOutput || event is Message || event is PaneModeChanged
            || event is PasteBufferChanged || event is PasteBufferDeleted || event is Pause
            || event is SessionRenamed || event is SessionsChanged || event is SessionWindowChanged
            || event is UnlinkedWindowAdd || event is UnlinkedWindowRenamed,
    ensures
        event_applied(v, event).view == v,
        event_applied(v, event).actions.len() == 0,
{
    reveal(event_applied);
}

/// The first guard opens the line for commands; the answer to a command goes to the command at
/// the front, which leaves the queue; an answer that nothing waits for changes nothing.
pub proof fn law_answers_are_awaited(v: DomainView, result: GuardedView)
    ensures
        ({
            let step = event_applied(v, EventView::Guarded(result));
            &&& v.state == State::WaitForInitialGuard ==> step.view == (DomainView {
                state: State::Idle,
                ..v
            }) && step.actions.len() == 0
            &&& v.state == State::WaitingForResponse && v.queue.len() > 0 ==> {
                &&& step.view == (DomainView {
                    state: State::Idle,
                    queue: v.queue.drop_first(),
                    ..v
                })
                &&& step.actions == seq![
                    ActionView::ProcessResult { command: v.queue.first(), result },
                ]
            }
            &&& v.state == State::Idle || v.state == State::Exit || (v.state
                == State::WaitingForResponse && v.queue.len() == 0) ==> step.view == v
                && step.actions.len() == 0
        }),
{
    reveal(event_applied);
    if v.queue.len() > 0 {
        assert(v.queue.subrange(1, v.queue.len() as int) == v.queue.drop_first());
    }
}

/// Behind the events of a row, the next command is sent where one waits and none is in flight,
/// and only there; nothing of a row is looked at behind the end of control mode.
pub proof fn law_row_of_events_ends_with_sending(
    v: DomainView,
    event: EventView,
    more: Seq<EventView>,
)
    ensures
        advanced(v, Seq::empty()).view == v,
        advanced(v, Seq::empty()).actions == if v.state == State::Idle && v.queue.len() > 0 {
            seq![ActionView::ScheduleSend { domain_id: v.domain_id }]
        } else {
            seq![]
        },
        event is Exit ==> advanced(v, seq![event] + more) == event_applied(v, event),
        !(event is Exit) ==> {
            let first = event_applied(v, event);
            let rest = advanced(first.view, more);
            &&& advanced(v, seq![event] + more).view == rest.view
            &&& advanced(v, seq![event] + more).actions == first.actions + rest.actions
        },
{
    assert((seq![event] + more).skip(1) == more);
}

// ---------------------------------------------------------------------------
// Values of subscriptions
// ---------------------------------------------------------------------------

/// Whoever listens is told of a changed value with everything that was announced, the local pane
/// that a value of a pane is for, and the tab that a value of a window is for.
pub proof fn law_value_change_is_told_in_full(
    v: DomainView,
    name: Seq<char>,
    session: Option<TmuxSessionId>,
    window: Option<TmuxWindowId>,
    window_index: Option<u64>,
    pane: Option<TmuxPaneId>,
    value: Seq<char>,
)
    ensures
        ({
            let event = EventView::SubscriptionChanged {
                name,
                session,
                window,
                window_index,
                pane,
                value,
            };
            let actions = event_applied(v, event).actions;
            &&& v.gui_window is Some ==> actions.len() > 0 && (
            actions.last() matches ActionView::NotifySubscription(change) && {
                &&& change.window == v.gui_window->0
                &&& change.name == name
                &&& change.value == value
                &&& change.session == session
                &&& change.tmux_window == window
                &&& change.window_index == window_index
                &&& change.tmux_pane == pane
                &&& change.domain_id == v.domain_id
                &&& pane is Some && v.panes.dom().contains(pane->0) ==> change.pane == Some(
                    v.panes[pane->0].local_pane_id,
                )
                &&& pane is None || !v.panes.dom().contains(pane->0) ==> change.pane is None
                &&& window is Some && pane is None && v.tabs.dom().contains(window->0)
                    ==> change.tab == Some(v.tabs[window->0].tab_id)
                &&& window is None || pane is Some || !v.tabs.dom().contains(window->0)
                    ==> change.tab is None
            })
            &&& v.gui_window is None ==> forall|i: int|
                0 <= i < actions.len() ==> !((#[trigger] actions[i]) is NotifySubscription)
        }),
{
    reveal(event_applied);
}

/// A value of the session is kept for the session and one of a window for that window, whether
/// or not anything shows it, each under its name and in place of the one before; values under
/// other names, and those of other windows, stay. A value of a pane is not kept, and reaches no
/// pane at all where its pane is not known.
pub proof fn law_values_are_kept(
    v: DomainView,
    name: Seq<char>,
    session: Option<TmuxSessionId>,
    window: Option<TmuxWindowId>,
    window_index: Option<u64>,
    pane: Option<TmuxPaneId>,
    value: Seq<char>,
    other: Seq<char>,
    elsewhere: TmuxWindowId,
)
    requires
        other != name,
        window != Some(elsewhere),
    ensures
        ({
            let event = EventView::SubscriptionChanged {
                name,
                session,
                window,
                window_index,
                pane,
                value,
            };
            let step = event_applied(v, event);
            let after = step.view;
            &&& pane is Some ==> after == v
            &&& pane is Some && !v.panes.dom().contains(pane->0) ==> forall|i: int|
                0 <= i < step.actions.len() ==> !((#[trigger] step.actions[i]) is SetUserVar)
            &&& pane is None && window is None ==> {
                &&& lookup(after.session_format_values, name) == Some(value)
                &&& lookup(after.session_format_values, other) == lookup(
                    v.session_format_values,
                    other,
                )
                &&& after == (DomainView {
                    session_format_values: after.session_format_values,
                    ..v
                })
            }
            &&& pane is None && window is Some ==> {
                &&& lookup(values_of_window(after, window->0), name) == Some(value)
                &&& lookup(values_of_window(after, window->0), other) == lookup(
                    values_of_window(v, window->0),
                    other,
                )
                &&& values_of_window(after, elsewhere) == values_of_window(v, elsewhere)
                &&& after == (DomainView {
                    window_format_values: after.window_format_values,
                    ..v
                })
            }
        }),
{
    reveal(event_applied);
    let table = match window {
        Some(window) => values_of_window(v, window),
        None => v.session_format_values,
    };
    law_lookup_finds_what_was_inserted(table, name, value, name);
    law_lookup_finds_what_was_inserted(table, name, value, other);
    if let Some(p) = pane {
        let ids = seq![p];
        assert(ids.drop_last() == Seq::<TmuxPaneId>::empty());
        assert(locals_of(v.panes, ids.drop_last()) == Seq::<PaneId>::empty());
        if !v.panes.dom().contains(p) {
            assert(locals_of(v.panes, ids) == Seq::<PaneId>::empty());
        }
    }
}

proof fn lemma_locals_stand_for_panes(
    panes: Map<TmuxPaneId, TmuxRemotePane>,
    ids: Seq<TmuxPaneId>,
    local: PaneId,
)
    requires
        locals_of(panes, ids).contains(local),
    ensures
        exists|pane: TmuxPaneId| #[trigger]
            ids.contains(pane) && panes.dom().contains(pane) && panes[pane].local_pane_id == local,
    decreases ids.len(),
{
    if ids.len() > 0 {
        let front = ids.drop_last();
        let all = locals_of(panes, ids);
        let i = choose|i: int| 0 <= i < all.len() && all[i] == local;
        if panes.dom().contains(ids.last()) && i == all.len() - 1 {
            assert(ids.contains(ids.last()));
        } else {
            assert(locals_of(panes, front)[i] == local);
            lemma_locals_stand_for_panes(panes, front, local);
            let pane = choose|pane: TmuxPaneId| #[trigger]
                front.contains(pane) && panes.dom().contains(pane) && panes[pane].local_pane_id
                    == local;
            let j = choose|j: int| 0 <= j < front.len() && front[j] == pane;
            assert(ids[j] == pane);
            assert(ids.contains(pane));
        }
    }
}

/// A value of a window reaches no pane that is not attached to that window.
pub proof fn law_window_value_reaches_no_other_panes(
    v: DomainView,
    name: Seq<char>,
    session: Option<TmuxSessionId>,
    window: TmuxWindowId,
    window_index: Option<u64>,
    value: Seq<char>,
    local: PaneId,
    told: Seq<char>,
    shown: Seq<char>,
)
    requires
        ({
            let event = EventView::SubscriptionChanged {
                name,
                session,
                window: Some(window),
                window_index,
                pane: None,
                value,
            };
            event_applied(v, event).actions.contains(
                ActionView::SetUserVar { pane: local, name: told, value: shown },
            )
        }),
    ensures
        told == name,
        shown == value,
        exists|pane: TmuxPaneId| #[trigger]
            pane_attached(v, window, pane) && v.panes.dom().contains(pane)
                && v.panes[pane].local_pane_id == local,
{
    reveal(event_applied);
    let event = EventView::SubscriptionChanged {
        name,
        session,
        window: Some(window),
        window_index,
        pane: None,
        value,
    };
    let actions = event_applied(v, event).actions;
    let set = ActionView::SetUserVar { pane: local, name: told, value: shown };
    let i = choose|i: int| 0 <= i < actions.len() && actions[i] == set;
    let targets = value_targets(v, Some(window), None);
    assert(i < targets.len());
    assert(targets[i] == local);
    lemma_locals_stand_for_panes(v.panes, v.tabs[window].panes, local);
    let pane = choose|pane: TmuxPaneId| #[trigger]
        v.tabs[window].panes.contains(pane) && v.panes.dom().contains(pane)
            && v.panes[pane].local_pane_id == local;
    assert(pane_attached(v, window, pane));
}

// ---------------------------------------------------------------------------
// Notifications
// ---------------------------------------------------------------------------

proof fn lemma_window_among(
    tabs: Map<TmuxWindowId, TabView>,
    ids: Seq<TmuxWindowId>,
    tab: TabId,
)
    ensures
        match window_among(tabs, ids, tab) {
            Some(found) => found.tab_id == tab && exists|i: int|
                0 <= i < ids.len() && tabs[#[trigger] ids[i]] == found,
            None => forall|i: int| 0 <= i < ids.len() ==> tabs[#[trigger] ids[i]].tab_id != tab,
        },
    decreases ids.len(),
{
    if ids.len() > 0 && tabs[ids[0]].tab_id != tab {
        let rest = ids.skip(1);
        lemma_window_among(tabs, rest, tab);
        match window_among(tabs, rest, tab) {
            Some(found) => {
                let i = choose|i: int| 0 <= i < rest.len() && tabs[#[trigger] rest[i]] == found;
                assert(ids[i + 1] == rest[i]);
            },
            None => {
                assert forall|i: int| 0 <= i < ids.len() implies tabs[#[trigger] ids[i]].tab_id
                    != tab by {
                    if i > 0 {
                        assert(rest[i - 1] == ids[i]);
                    }
                }
            },
        }
    }
}

/// A tab is found by its local id where a window has it, and only there.
pub proof fn law_window_of_a_tab_is_found(v: DomainView, tab: TabId)
    requires
        is_consistent(v),
        v.tabs.dom().finite(),
    ensures
        match window_of_tab(v.tabs, tab) {
            Some(found) => {
                &&& found.tab_id == tab
                &&& v.tabs.dom().contains(found.tmux_window_id)
                &&& v.tabs[found.tmux_window_id] == found
            },
            None => forall|w: TmuxWindowId| #[trigger]
                v.tabs.dom().contains(w) ==> v.tabs[w].tab_id != tab,
        },
{
    lemma_ascending(v.tabs.dom());
    let ids = ascending(v.tabs.dom());
    lemma_window_among(v.tabs, ids, tab);
    match window_of_tab(v.tabs, tab) {
        Some(found) => {
            let i = choose|i: int| 0 <= i < ids.len() && v.tabs[#[trigger] ids[i]] == found;
            assert(ids.to_set().contains(ids[i]));
        },
        None => {
            assert forall|w: TmuxWindowId| #[trigger]
                v.tabs.dom().contains(w) implies v.tabs[w].tab_id != tab by {
                assert(ids.to_set().contains(w));
                let i = choose|i: int| 0 <= i < ids.len() && ids[i] == w;
                assert(v.tabs[ids[i]].tab_id != tab);
            }
        },
    }
}

/// A pane that gets the focus is selected in tmux, if it stands for a tmux pane, and a window
/// that is redrawn has the window of its active tab selected, if that tab stands for one; the
/// command is the last of the queue and has the sending scheduled. Before the domain is attached
/// nothing is selected.
pub proof fn law_focus_is_passed_on(v: DomainView, local: PaneId, tab: TabId)
    ensures
        ({
            let send = seq![ActionView::ScheduleSend { domain_id: v.domain_id }];
            let pane_step = notified(v, MuxNotification::PaneFocused(local));
            let tab_step = notified(v, MuxNotification::WindowInvalidated(Some(tab)));
            let none_step = notified(v, MuxNotification::WindowInvalidated(None));
            &&& v.attach_state == AttachState::Init ==> pane_step == stays(v) && tab_step == stays(
                v,
            )
            &&& none_step == stays(v)
            &&& v.attach_state == AttachState::Done ==> {
                &&& peer_of(v.panes, local) matches Some(pane) ==> {
                    &&& pane_step.view == (DomainView {
                        queue: v.queue.push(
                            TmuxCommand::SelectPane(SelectPane { pane_id: pane.pane_id }),
                        ),
                        ..v
                    })
                    &&& pane_step.actions == send
                }
                &&& peer_of(v.panes, local) is None ==> pane_step == stays(v)
                &&& window_of_tab(v.tabs, tab) matches Some(window) ==> {
                    &&& tab_step.view == (DomainView {
                        queue: v.queue.push(
                            TmuxCommand::SelectWindow(
                                SelectWindow { window_id: window.tmux_window_id },
                            ),
                        ),
                        ..v
                    })
                    &&& tab_step.actions == send
                }
                &&& window_of_tab(v.tabs, tab) is None ==> tab_step == stays(v)
            }
        }),
{
}

/// The active pane of a window is noted in its tab and in no other, and is focused, without a
/// word to tmux, if it is known; a window without a tab is not concerned.
pub proof fn law_active_pane_is_noted(v: DomainView, window: TmuxWindowId, pane: TmuxPaneId)
    ensures
        ({
            let step = active_pane_set(v, window, pane);
            &&& !v.tabs.dom().contains(window) ==> step == stays(v)
            &&& v.tabs.dom().contains(window) ==> {
                &&& step.view.tabs[window] == (TabView {
                    active_pane: Some(pane),
                    ..v.tabs[window]
                })
                &&& forall|w: TmuxWindowId|
                    w != window ==> (#[trigger] step.view.tabs.dom().contains(w)
                        <==> v.tabs.dom().contains(w)) && step.view.tabs[w] == v.tabs[w]
                &&& step.view == (DomainView { tabs: step.view.tabs, ..v })
                &&& v.panes.dom().contains(pane) ==> step.actions == seq![
                    ActionView::FocusPane {
                        tab: v.tabs[window].tab_id,
                        pane: v.panes[pane].local_pane_id,
                        notify: false,
                    },
                ]
                &&& !v.panes.dom().contains(pane) ==> step.actions.len() == 0
            }
        }),
{
}

/// The window for the tabs is chosen once a session is known and none was chosen yet: that of
/// the pane that tmux runs in, or else a new one.
pub proof fn law_window_is_chosen_once(v: DomainView, window: WindowId)
    ensures
        v.session is None || v.gui_window is Some ==> window_choice(v, Some(window))
            == WindowChoice::Keep && window_choice(v, None) == WindowChoice::Keep,
        v.session is Some && v.gui_window is None ==> window_choice(v, Some(window))
            == WindowChoice::Take(window) && window_choice(v, None) == WindowChoice::Create,
{
}

/// Where tmux cannot resize windows but can refresh its client, the client is given the size of
/// the tab, with the separator that the usage of the command shows; where it can do neither,
/// nothing is sent. The new size of the pane is noted in any case.
pub proof fn law_resize_goes_by_what_tmux_knows(
    v: DomainView,
    sizes: Map<TabId, TerminalSize>,
    r: Resize,
)
    requires
        v.attach_state == AttachState::Done,
        v.panes.dom().contains(r.pane_id),
        v.panes[r.pane_id].pane_width != r.size.cols || v.panes[r.pane_id].pane_height
            != r.size.rows,
        lookup(v.support_commands, "resize-window"@) is None,
    ensures
        ({
            let pane = v.panes[r.pane_id];
            let (after, lines) = resize_lines(v, sizes, r);
            let shown = v.tabs.dom().contains(pane.window_id) && sizes.dom().contains(
                v.tabs[pane.window_id].tab_id,
            );
            let size = sizes[v.tabs[pane.window_id].tab_id];
            &&& after.panes[r.pane_id].pane_width == r.size.cols
            &&& after.panes[r.pane_id].pane_height == r.size.rows
            &&& after.panes[r.pane_id].local_pane_id == pane.local_pane_id
            &&& after.panes[r.pane_id].window_id == pane.window_id
            &&& after == (DomainView {
                panes: v.panes.insert(r.pane_id, after.panes[r.pane_id]),
                ..v
            })
            &&& !shown ==> lines.len() == 0
            &&& shown ==> match lookup(v.support_commands, "refresh-client"@) {
                Some(usage) => lines == refresh_client_lines(
                    r,
                    size.cols,
                    size.rows,
                    if exists|i: int|
                        0 <= i <= usage.len() && "-C XxY"@.is_prefix_of(#[trigger] usage.skip(i)) {
                        "x"@
                    } else {
                        ","@
                    },
                ),
                None => lines.len() == 0,
            }
        }),
{
    if let Some(usage) = lookup(v.support_commands, "refresh-client"@) {
        lemma_occurrence(usage, "-C XxY"@);
    }
}

proof fn lemma_occurrence(s: Seq<char>, pattern: Seq<char>)
    ensures
        split_at_first(s, pattern) is Some <==> exists|i: int|
            0 <= i <= s.len() && pattern.is_prefix_of(#[trigger] s.skip(i)),
{
    law_text_is_split_at_the_first_occurrence(s, pattern);
    if let Some((before, after)) = split_at_first(s, pattern) {
        let i = before.len() as int;
        assert(s.skip(i) == pattern + after);
        assert((pattern + after).subrange(0, pattern.len() as int) == pattern);
        assert(pattern.is_prefix_of(s.skip(i)));
    }
}

// ---------------------------------------------------------------------------
// Sending
// ---------------------------------------------------------------------------

/// Each command but a change of size is sent as the line that is its own, and leaves the domain
/// as it is.
pub proof fn law_each_command_has_its_line(
    v: DomainView,
    sizes: Map<TabId, TerminalSize>,
    id: u64,
    window_id: Option<TmuxWindowId>,
    capture: CapturePane,
    split: SplitPane,
    keys: SendKeys,
    subs: Subscribe,
    raw: RawCommand,
)
    ensures
        command_line(v, sizes, TmuxCommand::ListAllPanes(ListAllPanes { window_id: id })) == (
            v,
            list_panes_line(id),
        ),
        command_line(
            v,
            sizes,
            TmuxCommand::ListAllWindows(ListAllWindows { session_id: id, window_id }),
        ) == (v, list_windows_line(id)),
        command_line(v, sizes, TmuxCommand::CapturePane(capture)) == (
            v,
            capture_pane_line(capture),
        ),
        command_line(v, sizes, TmuxCommand::SendKeys(keys)) == (
            v,
            send_keys_line(keys.pane, keys.keys@),
        ),
        command_line(v, sizes, TmuxCommand::SplitPane(split)) == (v, split_pane_line(split)),
        command_line(v, sizes, TmuxCommand::SelectWindow(SelectWindow { window_id: id })) == (
            v,
            select_window_line(id),
        ),
        command_line(v, sizes, TmuxCommand::SelectPane(SelectPane { pane_id: id })) == (
            v,
            select_pane_line(id),
        ),
        command_line(v, sizes, TmuxCommand::Subscribe(subs)) == (v, subscribe_line(subs.subs@)),
        command_line(v, sizes, TmuxCommand::RawCommand(raw)) == (v, raw_line(raw.command@)),
        command_line(v, sizes, TmuxCommand::NewWindow(NewWindow)) == (v, "new-window\n"@),
        command_line(v, sizes, TmuxCommand::ListCommands(ListCommands)) == (
            v,
            "list-commands\n"@,
        ),
        command_line(v, sizes, TmuxCommand::AttachDone(AttachDone)) == (v, "list-session\n"@),
{
}

/// A change of size is sent as its lines, and leaves the domain with what it notes.
pub proof fn law_resize_has_its_lines(
    v: DomainView,
    sizes: Map<TabId, TerminalSize>,
    resize: Resize,
)
    ensures
        command_line(v, sizes, TmuxCommand::Resize(resize)) == resize_lines(v, sizes, resize),
{
}

/// The command at the front is sent, and stays there until its answer comes, wherever it has a
/// line; one that has none is passed over. Nothing but a change of size is ever passed over.
pub proof fn law_front_command_is_sent(v: DomainView, sizes: Map<TabId, TerminalSize>)
    requires
        v.state == State::Idle,
        v.queue.len() > 0,
    ensures
        ({
            let (noted, line) = command_line(v, sizes, v.queue[0]);
            let step = next_sent(v, sizes);
            &&& line.len() > 0 ==> {
                &&& step.actions == seq![ActionView::SendCommand { pane: v.pane_id, line }]
                &&& step.view.queue == v.queue
                &&& step.view.state == State::WaitingForResponse
                &&& step.view == (DomainView {
                    state: State::WaitingForResponse,
                    panes: noted.panes,
                    ..v
                })
            }
            &&& line.len() == 0 ==> step == next_sent(
                DomainView { queue: v.queue.drop_first(), panes: noted.panes, ..v },
                sizes,
            )
            &&& !(v.queue[0] is Resize) ==> line.len() > 0
        }),
{
    let (noted, line) = command_line(v, sizes, v.queue[0]);
    assert(noted == (DomainView { panes: noted.panes, ..v }));
    assert(v.queue.subrange(1, v.queue.len() as int) == v.queue.drop_first());
    if !(v.queue[0] is Resize) {
        lemma_line_is_not_empty(v, sizes, v.queue[0]);
    }
}

proof fn lemma_line_is_not_empty(
    v: DomainView,
    sizes: Map<TabId, TerminalSize>,
    command: TmuxCommand,
)
    requires
        !(command is Resize),
    ensures
        command_line(v, sizes, command).1.len() > 0,
{
    reveal_strlit("\n");
    reveal_strlit("\r");
    reveal_strlit("new-window\n");
    reveal_strlit("list-commands\n");
    reveal_strlit("list-session\n");
}

// ---------------------------------------------------------------------------
// Answers
// ---------------------------------------------------------------------------

/// An answer that is an error fails its command and changes nothing, except for subscriptions
/// and raw commands, which may fail unnoticed.
pub proof fn law_error_fails_its_command(
    v: DomainView,
    command: TmuxCommand,
    result: GuardedView,
    cursors: Map<PaneId, StableCursorPosition>,
    subs: Vec<TmuxFormatSubscription>,
)
    requires
        result.error,
    ensures
        ({
            let outcome = result_processed(v, command, result, cursors, subs);
            &&& outcome.view == v
            &&& outcome.actions.len() == 0
            &&& outcome.result == if command is Subscribe || command is RawCommand {
                Ok::<(), TmuxError>(())
            } else {
                Err(TmuxError::CommandFailed)
            }
        }),
{
}

/// An answer to a command that asks for nothing changes nothing.
pub proof fn law_plain_answers_change_nothing(
    v: DomainView,
    command: TmuxCommand,
    result: GuardedView,
    cursors: Map<PaneId, StableCursorPosition>,
    subs: Vec<TmuxFormatSubscription>,
)
    requires
        !result.error,
        command is Resize || command is SendKeys || command is NewWindow || command is SplitPane
            || command is SelectWindow || command is SelectPane || command is Subscribe
            || command is RawCommand,
    ensures
        ({
            let outcome = result_processed(v, command, result, cursors, subs);
            outcome.view == v && outcome.actions.len() == 0 && outcome.result is Ok
        }),
{
}

/// The windows that tmux lists are synced, and taken for new where one window was asked for.
pub proof fn law_listed_windows_are_synced(
    v: DomainView,
    session_id: TmuxSessionId,
    window_id: Option<TmuxWindowId>,
    result: GuardedView,
    cursors: Map<PaneId, StableCursorPosition>,
    subs: Vec<TmuxFormatSubscription>,
)
    ensures
        ({
            let command = TmuxCommand::ListAllWindows(ListAllWindows { session_id, window_id });
            let outcome = result_processed(v, command, result, cursors, subs);
            &&& outcome.view == v
            &&& match listed_windows(result.error, result.output, window_id) {
                Ok(windows) => outcome.result is Ok && outcome.actions == seq![
                    ActionView::SyncWindows { windows, new_window: window_id is Some },
                ],
                Err(e) => outcome.result == Err::<(), TmuxError>(e) && outcome.actions.len() == 0,
            }
        }),
{
}

/// What was captured of a known pane is written to it from the origin; a pane that has gone in
/// the meantime is written nothing.
pub proof fn law_captured_text_is_written_from_the_origin(
    v: DomainView,
    command: CapturePane,
    result: GuardedView,
    text: Seq<char>,
    cursors: Map<PaneId, StableCursorPosition>,
    subs: Vec<TmuxFormatSubscription>,
)
    requires
        captured(result.error, result.output) == Ok::<Seq<char>, TmuxError>(text),
    ensures
        ({
            let outcome = result_processed(
                v,
                TmuxCommand::CapturePane(command),
                result,
                cursors,
                subs,
            );
            &&& outcome.view == v
            &&& outcome.result is Ok
            &&& v.panes.dom().contains(command.pane_id) ==> outcome.actions == seq![
                ActionView::SetCursor {
                    pane: v.panes[command.pane_id].local_pane_id,
                    x: 0,
                    y: 0,
                },
                ActionView::WriteOutput { pane: command.pane_id, text: encode_utf8(text) },
            ]
            &&& !v.panes.dom().contains(command.pane_id) ==> outcome.actions.len() == 0
        }),
{
}

proof fn lemma_usage_stays(
    t: Seq<(Seq<char>, Seq<char>)>,
    lines: Seq<Seq<char>>,
    name: Seq<char>,
    i: int,
)
    requires
        0 <= i < lines.len(),
        lines[i].len() > 0,
        fields(lines[i], ' ')[0] == name,
        forall|j: int|
            i < j < lines.len() && lines[j].len() > 0 ==> fields(#[trigger] lines[j], ' ')[0]
                != name,
    ensures
        lookup(with_usages(t, lines), name) == Some(lines[i]),
    decreases lines.len(),
{
    let front = lines.drop_last();
    let before = with_usages(t, front);
    let last = lines[lines.len() - 1];
    if i == lines.len() - 1 {
        law_lookup_finds_what_was_inserted(before, name, last, name);
    } else {
        assert forall|j: int| i < j < front.len() && front[j].len() > 0 implies fields(
            #[trigger] front[j],
            ' ',
        )[0] != name by {
            assert(front[j] == lines[j]);
        }
        assert(front[i] == lines[i]);
        lemma_usage_stays(t, front, name, i);
        if last.len() > 0 {
            assert(fields(lines[lines.len() - 1], ' ')[0] != name);
            law_lookup_finds_what_was_inserted(before, fields(last, ' ')[0], last, name);
        }
    }
}

/// The commands that tmux lists are noted with their usage, each under the first word of its
/// line; then all windows of the session are asked for, if there is one.
pub proof fn law_listed_commands_are_noted(
    v: DomainView,
    result: GuardedView,
    cursors: Map<PaneId, StableCursorPosition>,
    subs: Vec<TmuxFormatSubscription>,
    i: int,
)
    requires
        !result.error,
        ({
            let lines = fields(result.output, '\n');
            &&& 0 <= i < lines.len()
            &&& lines[i].len() > 0
            &&& forall|j: int|
                i < j < lines.len() && lines[j].len() > 0 ==> fields(#[trigger] lines[j], ' ')[0]
                    != fields(lines[i], ' ')[0]
        }),
    ensures
        ({
            let line = fields(result.output, '\n')[i];
            let command = TmuxCommand::ListCommands(ListCommands);
            let outcome = result_processed(v, command, result, cursors, subs);
            &&& outcome.result is Ok
            &&& lookup(outcome.view.support_commands, fields(line, ' ')[0]) == Some(line)
            &&& outcome.view == (DomainView {
                support_commands: outcome.view.support_commands,
                queue: outcome.view.queue,
                ..v
            })
            &&& v.session is Some ==> {
                &&& outcome.view.queue == v.queue.push(
                    TmuxCommand::ListAllWindows(
                        ListAllWindows { session_id: v.session->0, window_id: None },
                    ),
                )
                &&& outcome.actions == seq![ActionView::ScheduleSend { domain_id: v.domain_id }]
            }
            &&& v.session is None ==> outcome.view.queue == v.queue && outcome.actions.len() == 0
        }),
{
    let lines = fields(result.output, '\n');
    lemma_usage_stays(v.support_commands, lines, fields(lines[i], ' ')[0], i);
}

/// Once attached, the domain says so; it subscribes to the formats, all in one command, exactly
/// where there are any and the usage of the command shows that tmux can.
pub proof fn law_attached_domain_subscribes(
    v: DomainView,
    result: GuardedView,
    cursors: Map<PaneId, StableCursorPosition>,
    subs: Vec<TmuxFormatSubscription>,
)
    requires
        !result.error,
    ensures
        ({
            let command = TmuxCommand::AttachDone(AttachDone);
            let outcome = result_processed(v, command, result, cursors, subs);
            let can = match lookup(v.support_commands, "refresh-client"@) {
                Some(usage) => exists|i: int|
                    0 <= i <= usage.len() && "-B"@.is_prefix_of(#[trigger] usage.skip(i)),
                None => false,
            };
            &&& outcome.result is Ok
            &&& outcome.view.attach_state == AttachState::Done
            &&& outcome.view == (DomainView {
                attach_state: AttachState::Done,
                queue: outcome.view.queue,
                ..v
            })
            &&& can && subs@.len() > 0 ==> {
                &&& outcome.view.queue == v.queue.push(TmuxCommand::Subscribe(Subscribe { subs }))
                &&& outcome.actions == seq![ActionView::ScheduleSend { domain_id: v.domain_id }]
            }
            &&& !can || subs@.len() == 0 ==> outcome.view.queue == v.queue
                && outcome.actions.len() == 0
        }),
{
    if let Some(usage) = lookup(v.support_commands, "refresh-client"@) {
        lemma_occurrence(usage, "-B"@);
    }
}

} // verus!
