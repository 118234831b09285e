use std::collections::HashMap;

use tmux_control::action::{Action, SubscriptionChange};
use tmux_control::config::{TmuxFormatSubscription, TmuxSubscriptionTarget};
use tmux_control::tab::{PaneId, PaneNode, SplitDirection, StableCursorPosition, TerminalSize};
use tmux_control::tmux::{
    AttachState, MuxNotification, State, TmuxDomain, TmuxDomainState, WindowChoice,
};
use tmux_control::tmux_cc::{parse_layout_tree, Event, Guarded, TmuxPaneId};
use tmux_control::tmux_commands::{
    AttachDone, CapturePane, ListAllPanes, ListAllWindows, ListCommands, NewWindow, PaneItem,
    PtySize, RawCommand, Resize, SelectPane, SelectWindow, SplitPane, Subscribe, TmuxCommand,
    TmuxError, WindowItem,
};
use tmux_control::tmux_sync::{cell_pixel_dimensions, LayoutFacts, RenderableDimensions};
use tmux_control::tmux_layout::CellPixels;
use tmux_control::tmux_listing::{ListingEvent, ListingTask, WindowListing};

const TWO_PANES: &str = "80x24,0,0{40x24,0,0,1,39x24,41,0,2}";

fn answer(output: &str) -> Guarded {
    Guarded {
        error: false,
        timestamp: 1,
        number: 2,
        flags: 0,
        output: output.to_string(),
    }
}

fn window(layout: &str) -> WindowItem {
    WindowItem {
        session_id: 7,
        window_id: 3,
        window_width: 80,
        window_height: 24,
        window_active: true,
        window_name: "bash".to_string(),
        window_layout: layout.to_string(),
        window_visible_layout: layout.to_string(),
        window_raw_flags: "*".to_string(),
        history_limit: 2000,
    }
}

fn facts(created: Vec<Option<PaneId>>, live: Vec<PaneId>) -> LayoutFacts {
    LayoutFacts {
        tab_exists: true,
        created,
        live,
        workspace: "default".to_string(),
        dimensions: Some(RenderableDimensions {
            cols: 80,
            viewport_rows: 24,
            pixel_width: 640,
            pixel_height: 384,
            dpi: 96,
        }),
    }
}

fn no_cursors() -> HashMap<PaneId, StableCursorPosition> {
    HashMap::new()
}

/// A domain with a session, a gui window, and one window with the panes 1 and 2.
fn attached() -> TmuxDomainState {
    let mut d = TmuxDomainState::new(5, 9);
    d.advance(&vec![Event::Guarded(answer(""))]);
    d.tmux_session = Some(7);
    d.create_gui_window(11);
    let w = window(TWO_PANES);
    let plan = d.plan_window(&w).unwrap();
    assert!(plan.new_tab);
    let planned: Vec<TmuxPaneId> = plan.panes.iter().map(|p| p.pane_id).collect();
    assert_eq!(planned, vec![1, 2]);
    let (_, r) = d.sync_window_state(&w, true, 30, &facts(vec![Some(101), Some(102)], vec![101, 102]));
    assert_eq!(r, Ok(()));
    d.prune_pending = false;
    d.attach_state = AttachState::Done;
    d
}

fn no_sizes() -> HashMap<usize, TerminalSize> {
    HashMap::new()
}

#[test]
fn a_domain_begins_by_waiting_for_tmux() {
    let domain = TmuxDomain::new(5, 9);
    assert_eq!(domain.inner.state, State::WaitForInitialGuard);
    assert_eq!(domain.inner.pane_id, 5);
    assert_eq!(domain.inner.domain_id, 9);
    assert_eq!(domain.inner.attach_state, AttachState::Init);
    assert!(domain.inner.cmd_queue.is_empty());
}

#[test]
fn the_first_guard_only_says_that_tmux_is_there() {
    let mut d = TmuxDomainState::new(5, 9);
    d.create_tmux_window();
    let actions = d.advance(&vec![Event::Guarded(answer("hello\n"))]);
    assert_eq!(d.state, State::Idle);
    assert_eq!(actions, vec![Action::ScheduleSend { domain_id: 9 }]);
    assert_eq!(d.cmd_queue.len(), 1);
}

#[test]
fn an_answer_goes_to_its_command() {
    let mut domain = TmuxDomain::new(5, 9);
    domain.inner.advance(&vec![Event::Guarded(answer(""))]);
    assert!(domain.inner.is_quiescent());
    assert_eq!(
        domain.send_raw_command("kill-server".to_string()),
        Action::ScheduleSend { domain_id: 9 }
    );
    assert!(!domain.inner.is_quiescent());
    assert_eq!(
        domain.send_next_command(&no_sizes()),
        Some(Action::SendCommand { pane: 5, line: "kill-server\n".to_string() })
    );
    assert_eq!(domain.inner.state, State::WaitingForResponse);
    // only one command is in flight
    domain.inner.create_tmux_window();
    assert_eq!(domain.send_next_command(&no_sizes()), None);
    assert_eq!(domain.inner.maybe_schedule_send(), None);
    let actions = domain.inner.advance(&vec![Event::Guarded(answer("done\n"))]);
    assert_eq!(
        actions,
        vec![
            Action::ProcessResult {
                command: TmuxCommand::RawCommand(RawCommand { command: "kill-server".to_string() }),
                result: answer("done\n"),
            },
            Action::ScheduleSend { domain_id: 9 },
        ]
    );
    assert_eq!(domain.inner.cmd_queue[0], TmuxCommand::NewWindow(NewWindow));
}

#[test]
fn a_guard_that_nobody_waits_for_is_ignored() {
    let mut d = attached();
    d.cmd_queue.clear();
    assert_eq!(d.advance(&vec![Event::Guarded(answer(""))]), vec![]);
    assert_eq!(d.state, State::Idle);
}

#[test]
fn nothing_is_heeded_after_an_exit() {
    let mut d = attached();
    d.create_tmux_window();
    let actions = d.advance(&vec![
        Event::Exit { reason: None },
        Event::SessionChanged { session: 1, name: "x".to_string() },
    ]);
    assert_eq!(
        actions,
        vec![
            Action::ReleasePane { pane: 1 },
            Action::ReleasePane { pane: 2 },
            Action::QuitTmuxMode { pane: 5 },
        ]
    );
    assert_eq!(d.state, State::Exit);
    assert!(d.cmd_queue.is_empty());
    assert_eq!(d.tmux_session, Some(7));
    d.create_tmux_window();
    assert_eq!(d.send_next_command(&no_sizes()), None);
    assert_eq!(d.advance(&vec![Event::Guarded(answer(""))]), vec![]);
}

#[test]
fn output_goes_to_its_pane_or_waits_for_it() {
    let mut d = attached();
    d.cmd_queue.clear();
    let actions = d.advance(&vec![
        Event::Output { pane: 1, text: b"now".to_vec() },
        Event::Output { pane: 4, text: b"early".to_vec() },
        Event::Output { pane: 4, text: b"later".to_vec() },
    ]);
    assert_eq!(actions, vec![Action::WriteOutput { pane: 1, text: b"now".to_vec() }]);
    assert_eq!(d.backlog.get(4), Some(&b"later".to_vec()));
}

#[test]
fn a_session_is_asked_for_its_commands() {
    let mut d = TmuxDomainState::new(5, 9);
    d.advance(&vec![Event::Guarded(answer(""))]);
    let actions = d.advance(&vec![Event::SessionChanged { session: 7, name: "x".to_string() }]);
    assert_eq!(
        actions,
        vec![Action::SubscribeNotification, Action::ScheduleSend { domain_id: 9 }]
    );
    assert_eq!(d.tmux_session, Some(7));
    assert_eq!(d.cmd_queue[0], TmuxCommand::ListCommands(ListCommands));
}

#[test]
fn a_new_window_is_listed_once_there_is_a_place_for_it() {
    let mut d = TmuxDomainState::new(5, 9);
    d.advance(&vec![Event::Guarded(answer(""))]);
    d.tmux_session = Some(7);
    assert_eq!(d.advance(&vec![Event::WindowAdd { window: 4 }]), vec![]);
    assert!(d.cmd_queue.is_empty());
    assert_eq!(d.choose_window(None), WindowChoice::Create);
    assert_eq!(d.choose_window(Some(11)), WindowChoice::Take(11));
    // nothing to show without a session
    d.tmux_session = None;
    assert_eq!(d.choose_window(None), WindowChoice::Keep);
    d.tmux_session = Some(7);
    d.create_gui_window(11);
    d.create_gui_window(12);
    assert_eq!(d.gui_window, Some(11));
    assert_eq!(d.choose_window(None), WindowChoice::Keep);
    d.advance(&vec![Event::WindowAdd { window: 4 }]);
    assert_eq!(
        d.cmd_queue[0],
        TmuxCommand::ListAllWindows(ListAllWindows { session_id: 7, window_id: Some(4) })
    );
}

#[test]
fn a_closed_window_loses_its_tab() {
    let mut d = attached();
    d.cmd_queue.clear();
    let actions = d.advance(&vec![
        Event::WindowClose { window: 3 },
        Event::UnlinkedWindowClose { window: 3 },
    ]);
    assert_eq!(
        actions,
        vec![Action::RemoveTab { tab: 30 }, Action::SchedulePrune { domain_id: 9 }]
    );
    assert!(!d.check_window_attached(3));
    assert_eq!(d.remove_detached_window(3), Err(TmuxError::NoLocalTab(3)));
}

#[test]
fn dead_panes_are_pruned_once_it_is_quiet() {
    let mut d = attached();
    d.cmd_queue.clear();
    d.advance(&vec![
        Event::WindowClose { window: 3 },
        Event::Output { pane: 1, text: b"x".to_vec() },
    ]);
    assert_eq!(d.schedule_prune(), None);
    d.create_tmux_window();
    assert_eq!(d.run_prune_task(), vec![Action::SchedulePrune { domain_id: 9 }]);
    assert!(d.prune_pending);
    d.cmd_queue.clear();
    assert_eq!(
        d.run_prune_task(),
        vec![
            Action::ReleasePane { pane: 1 },
            Action::RemovePane { pane: 101 },
            Action::ReleasePane { pane: 2 },
            Action::RemovePane { pane: 102 },
        ]
    );
    assert!(!d.prune_pending);
    assert!(d.remote_panes.get(1).is_none());
}

#[test]
fn a_moved_pane_keeps_its_peer() {
    let mut d = attached();
    // pane 2 leaves window 3 and appears in window 4
    let (_, r) = d.handle_layout_change(
        3,
        "80x24,0,0,1",
        None,
        None,
        &facts(vec![], vec![101, 102]),
    );
    assert_eq!(r, Ok(()));
    let mut other = window("80x24,0,0,2");
    other.window_id = 4;
    let (actions, r) = d.sync_window_state(&other, true, 40, &facts(vec![], vec![101, 102]));
    assert_eq!(r, Ok(()));
    assert!(!actions.iter().any(|a| matches!(a, Action::AddPane { .. })));
    d.cmd_queue.clear();
    assert_eq!(d.run_prune_task(), vec![]);
    assert_eq!(d.remote_panes.get(2).unwrap().local_pane_id, 102);
}

#[test]
fn a_window_takes_its_new_name() {
    let mut d = attached();
    d.cmd_queue.clear();
    let actions = d.advance(&vec![
        Event::WindowRenamed { window: 3, name: "vim".to_string() },
        Event::WindowRenamed { window: 4, name: "emacs".to_string() },
    ]);
    assert_eq!(actions, vec![Action::SetTabTitle { tab: 30, title: "vim".to_string() }]);
}

#[test]
fn work_for_the_main_thread_is_handed_on() {
    let mut d = attached();
    d.cmd_queue.clear();
    let actions = d.advance(&vec![
        Event::LayoutChange {
            window: 3,
            layout: "80x24,0,0,1".to_string(),
            visible_layout: None,
            raw_flags: Some("*Z".to_string()),
        },
        Event::WindowPaneChanged { window: 3, pane: 2 },
        Event::ConfigError { error: "whatever".to_string() },
    ]);
    assert_eq!(
        actions,
        vec![
            Action::ChangeLayout {
                window: 3,
                layout: "80x24,0,0,1".to_string(),
                visible_layout: None,
                raw_flags: Some("*Z".to_string()),
            },
            Action::SetActiveTmuxPane { window: 3, pane: 2 },
        ]
    );
}

fn changed(window: Option<u64>, pane: Option<u64>) -> Event {
    Event::SubscriptionChanged {
        name: "title".to_string(),
        session: Some(7),
        window,
        window_index: None,
        pane,
        value: "v".to_string(),
    }
}

fn var(pane: PaneId) -> Action {
    Action::SetUserVar { pane, name: "title".to_string(), value: "v".to_string() }
}

fn change(pane: Option<PaneId>, tab: Option<usize>, w: Option<u64>, p: Option<u64>) -> Action {
    Action::NotifySubscription(SubscriptionChange {
        window: 11,
        pane,
        name: "title".to_string(),
        value: "v".to_string(),
        tab,
        session: Some(7),
        tmux_window: w,
        window_index: None,
        tmux_pane: p,
        domain_id: 9,
    })
}

#[test]
fn subscribed_values_reach_their_panes() {
    let mut d = attached();
    d.cmd_queue.clear();
    assert_eq!(
        d.advance(&vec![changed(Some(3), Some(2))]),
        vec![var(102), change(Some(102), None, Some(3), Some(2))]
    );
    assert!(d.session_format_values.entries.is_empty());
    assert_eq!(
        d.advance(&vec![changed(Some(3), None)]),
        vec![var(101), var(102), change(None, Some(30), Some(3), None)]
    );
    assert_eq!(
        d.advance(&vec![changed(None, None)]),
        vec![var(101), var(102), change(None, None, None, None)]
    );
    assert_eq!(
        d.advance(&vec![changed(Some(8), None), changed(None, Some(8))]),
        vec![change(None, None, Some(8), None), change(None, None, None, Some(8))]
    );
    let value = || vec![("title".to_string(), "v".to_string())];
    assert_eq!(d.session_format_values.entries, value());
    assert_eq!(d.window_format_values.get(3).unwrap().entries, value());
    assert_eq!(d.window_format_values.get(8).unwrap().entries, value());
    // a pane that comes later begins with the value of the session and that of its window
    let (actions, r) = d.handle_layout_change(
        3,
        "80x24,0,0[80x12,0,0,1,80x11,0,13,6]",
        None,
        None,
        &facts(vec![Some(106)], vec![101, 106]),
    );
    assert_eq!(r, Ok(()));
    assert_eq!(actions[0], var(106));
    assert_eq!(actions[1], var(106));
    assert_eq!(actions[2], Action::AddPane { pane: 106 });
    // a closed window leaves no value behind
    d.advance(&vec![Event::WindowClose { window: 3 }]);
    assert!(d.window_format_values.get(3).is_none());
}

#[test]
fn values_of_a_window_stay_in_it() {
    let mut d = attached();
    d.advance(&vec![changed(Some(8), None)]);
    let (actions, r) = d.handle_layout_change(
        3,
        "80x24,0,0[80x12,0,0,1,80x11,0,13,6]",
        None,
        None,
        &facts(vec![Some(106)], vec![101, 106]),
    );
    assert_eq!(r, Ok(()));
    assert_eq!(actions[0], Action::AddPane { pane: 106 });
}

/// Windows 4, 5 and 6 with a pane each; 5 is of another session, and 6 is the active one.
fn three_windows() -> Vec<WindowItem> {
    let mut windows = vec![];
    for id in 4..7 {
        let mut w = window(&format!("80x24,0,0,{id}"));
        w.window_id = id;
        w.session_id = if id == 5 { 1 } else { 7 };
        w.window_active = id == 6;
        windows.push(w);
    }
    windows
}

fn prepared(tab: usize, pane: PaneId) -> ListingEvent {
    ListingEvent::Prepared {
        tab,
        facts: facts(vec![Some(pane)], vec![101, 102, pane]),
    }
}

fn listing_panes(window_id: u64) -> TmuxCommand {
    TmuxCommand::ListAllPanes(ListAllPanes { window_id })
}

fn planned_panes(task: ListingTask) -> Vec<TmuxPaneId> {
    match task {
        ListingTask::Prepare(plan) => plan.panes.iter().map(|p| p.pane_id).collect(),
        _ => panic!("no window has its turn"),
    }
}

fn linked(task: ListingTask) -> Vec<Action> {
    match task {
        ListingTask::Perform(actions) => actions
            .into_iter()
            .filter(|a| matches!(a, Action::AddTabToWindow { .. }))
            .collect(),
        _ => panic!("nothing to perform"),
    }
}

fn end(task: ListingTask) -> (Vec<Action>, Result<(), TmuxError>) {
    match task {
        ListingTask::End(actions, result) => (actions, result),
        _ => panic!("not at the end"),
    }
}

#[test]
fn windows_are_taken_in_order() {
    let mut d = attached();
    d.cmd_queue.clear();
    d.attach_state = AttachState::Init;
    let mut l = WindowListing::new(three_windows(), true);
    assert_eq!(planned_panes(d.step_listing(&mut l, ListingEvent::Begin)), vec![4]);
    let link = |tab| vec![Action::AddTabToWindow { tab, window: 11 }];
    assert_eq!(linked(d.step_listing(&mut l, prepared(40, 104))), link(40));
    // the backfill waits for the link
    assert!(d.cmd_queue.is_empty());
    let task = d.step_listing(&mut l, ListingEvent::Performed { linked: true });
    assert_eq!(planned_panes(task), vec![6]);
    assert_eq!(d.cmd_queue, vec![listing_panes(4)]);
    assert_eq!(linked(d.step_listing(&mut l, prepared(60, 106))), link(60));
    let task = d.step_listing(&mut l, ListingEvent::Performed { linked: true });
    assert_eq!(end(task), (vec![Action::ScheduleSend { domain_id: 9 }], Ok(())));
    assert_eq!(
        d.cmd_queue,
        vec![listing_panes(4), listing_panes(6), TmuxCommand::AttachDone(AttachDone)]
    );
}

#[test]
fn a_failure_ends_the_list() {
    // the tab is not linked
    let mut d = attached();
    d.cmd_queue.clear();
    d.attach_state = AttachState::Init;
    let mut l = WindowListing::new(three_windows(), true);
    d.step_listing(&mut l, ListingEvent::Begin);
    d.step_listing(&mut l, prepared(40, 104));
    let task = d.step_listing(&mut l, ListingEvent::Performed { linked: false });
    assert_eq!(end(task), (vec![], Err(TmuxError::TabNotLinked(4))));
    assert!(d.cmd_queue.is_empty());
    assert!(!d.check_window_attached(6));
    // the layout is not applied
    let mut d = attached();
    d.cmd_queue.clear();
    let mut l = WindowListing::new(three_windows(), true);
    d.step_listing(&mut l, ListingEvent::Begin);
    let failed = ListingEvent::Prepared { tab: 40, facts: facts(vec![None], vec![]) };
    let (_, r) = end(d.step_listing(&mut l, failed));
    assert_eq!(r, Err(TmuxError::PaneCreationFailed(4)));
    assert!(d.cmd_queue.is_empty());
    // nothing is left of it
    let task = d.step_listing(&mut l, ListingEvent::Performed { linked: true });
    assert_eq!(end(task), (vec![], Ok(())));
}

#[test]
fn nothing_is_listed_without_a_session() {
    let mut d = attached();
    d.cmd_queue.clear();
    d.tmux_session = None;
    let mut l = WindowListing::new(three_windows(), false);
    assert_eq!(end(d.step_listing(&mut l, ListingEvent::Begin)), (vec![], Ok(())));
    assert!(d.cmd_queue.is_empty());
}

#[test]
fn a_listed_window_becomes_a_tab() {
    let mut d = TmuxDomainState::new(5, 9);
    d.tmux_session = Some(7);
    d.create_gui_window(11);
    d.advance(&vec![Event::Output { pane: 2, text: b"early".to_vec() }]);
    let w = window(TWO_PANES);
    let (actions, r) =
        d.sync_window_state(&w, false, 30, &facts(vec![Some(101), Some(102)], vec![101, 102]));
    assert_eq!(r, Ok(()));
    assert_eq!(actions.len(), 8);
    assert_eq!(actions[0], Action::SetTabTitle { tab: 30, title: "bash".to_string() });
    assert_eq!(actions[1], Action::AddTab { tab: 30 });
    assert_eq!(actions[2], Action::AddPane { pane: 101 });
    assert_eq!(actions[3], Action::AddPane { pane: 102 });
    assert_eq!(actions[4], Action::WriteOutput { pane: 2, text: b"early".to_vec() });
    match &actions[5] {
        Action::SyncPaneTree { tab, size, root } => {
            assert_eq!(*tab, 30);
            assert_eq!((size.cols, size.rows), (80, 24));
            assert_eq!((size.pixel_width, size.pixel_height, size.dpi), (640, 384, 96));
            assert!(matches!(root, PaneNode::Split { .. }));
        }
        other => panic!("unexpected {:?}", other),
    }
    assert_eq!(actions[6], Action::SchedulePrune { domain_id: 9 });
    assert_eq!(actions[7], Action::AddTabToWindow { tab: 30, window: 11 });
    // the content of both panes is captured, to the window's limit
    assert_eq!(
        d.cmd_queue,
        vec![
            TmuxCommand::CapturePane(CapturePane { pane_id: 1, history_limit: 2000 }),
            TmuxCommand::CapturePane(CapturePane { pane_id: 2, history_limit: 2000 }),
        ]
    );
    assert!(d.check_pane_attached(3, 1));
    assert!(!d.check_pane_attached(3, 4));
    assert!(!d.check_pane_attached(4, 1));
    // once more, nothing is new
    d.cmd_queue.clear();
    let (actions, r) = d.sync_window_state(&w, false, 31, &facts(vec![], vec![101, 102]));
    assert_eq!(r, Ok(()));
    assert_eq!(actions.len(), 2);
    assert!(d.cmd_queue.is_empty());
}

#[test]
fn windows_of_other_sessions_and_without_layout_are_skipped() {
    let mut d = attached();
    let mut w = window(TWO_PANES);
    w.session_id = 8;
    assert!(d.plan_window(&w).is_none());
    let (actions, r) = d.sync_window_state(&w, true, 31, &facts(vec![], vec![]));
    assert_eq!((actions, r), (vec![], Ok(())));
    let w = window("nonsense");
    assert!(d.plan_window(&w).is_none());
    let (actions, r) = d.sync_window_state(&w, true, 31, &facts(vec![], vec![]));
    assert_eq!((actions, r), (vec![], Ok(())));
}

#[test]
fn listing_ends_with_the_active_window() {
    let mut d = attached();
    d.cmd_queue.clear();
    d.attach_state = AttachState::Init;
    let mut quiet = window(TWO_PANES);
    quiet.window_id = 4;
    quiet.window_active = false;
    let active = window(TWO_PANES);
    d.backfill_window(&quiet);
    d.backfill_window(&active);
    assert_eq!(
        d.finish_window_sync(&vec![quiet, active]),
        Some(Action::ScheduleSend { domain_id: 9 })
    );
    assert_eq!(
        d.cmd_queue,
        vec![
            TmuxCommand::ListAllPanes(ListAllPanes { window_id: 4 }),
            TmuxCommand::ListAllPanes(ListAllPanes { window_id: 3 }),
            TmuxCommand::AttachDone(AttachDone),
        ]
    );
    d.tmux_session = None;
    assert_eq!(d.finish_window_sync(&vec![]), None);
}

#[test]
fn layouts_fail_for_a_reason() {
    let layout = parse_layout_tree(TWO_PANES).unwrap();
    let mut d = attached();
    let all = facts(vec![], vec![101, 102]);
    let apply = |d: &mut TmuxDomainState, w, f: &LayoutFacts| {
        d.apply_layout(w, &layout, None, None, false, f).1
    };
    assert_eq!(apply(&mut d, 8, &all), Err(TmuxError::NoLocalTab(8)));
    let gone = LayoutFacts { tab_exists: false, ..facts(vec![], vec![101, 102]) };
    assert_eq!(apply(&mut d, 3, &gone), Err(TmuxError::LocalTabGone(30)));
    assert_eq!(
        apply(&mut d, 3, &facts(vec![], vec![101])),
        Err(TmuxError::LocalPaneMissing(102))
    );
    d.gui_window = None;
    assert_eq!(apply(&mut d, 3, &all), Err(TmuxError::NoGuiWindow));
    d.gui_window = Some(11);
    assert_eq!(apply(&mut d, 3, &all), Ok(()));
    let more = parse_layout_tree("80x24,0,0{40x24,0,0,5,39x24,41,0,6}").unwrap();
    let (actions, r) = d.apply_layout(
        3,
        &more,
        None,
        None,
        false,
        &facts(vec![Some(105), None], vec![105]),
    );
    assert_eq!(r, Err(TmuxError::PaneCreationFailed(6)));
    assert_eq!(actions, vec![Action::AddPane { pane: 105 }]);
    assert!(d.remote_panes.contains(5));
}

#[test]
fn a_layout_is_applied_where_nothing_stands_in_the_way() {
    let mut d = attached();
    let three = parse_layout_tree("80x24,0,0{40x24,0,0,1,19x24,41,0,2,19x24,61,0,5}").unwrap();
    assert!(d.can_apply(3, &three, &facts(vec![Some(105)], vec![101, 102, 105])));
    // a pane that could not be created, or is not there
    assert!(!d.can_apply(3, &three, &facts(vec![None], vec![101, 102])));
    assert!(!d.can_apply(3, &three, &facts(vec![], vec![101, 102])));
    assert!(!d.can_apply(3, &three, &facts(vec![Some(105)], vec![101, 102])));
    assert!(!d.can_apply(3, &three, &facts(vec![Some(105)], vec![101, 105])));
    // a tab that is gone
    let mut gone = facts(vec![Some(105)], vec![101, 102, 105]);
    gone.tab_exists = false;
    assert!(!d.can_apply(3, &three, &gone));
    // a pane that is shown twice is created once
    let twice = parse_layout_tree("80x24,0,0{40x24,0,0,5,39x24,41,0,5}").unwrap();
    assert!(d.can_apply(3, &twice, &facts(vec![Some(105)], vec![105])));
    // no window for tabs; then the size does not matter
    d.gui_window = None;
    let f = facts(vec![], vec![101, 102]);
    let huge = "18446744073709551615x18446744073709551615,0,0,1";
    assert!(!d.can_apply(3, &parse_layout_tree(huge).unwrap(), &f));
    assert_eq!(
        d.handle_layout_change(3, huge, None, None, &f),
        (vec![], Err(TmuxError::NoGuiWindow))
    );
}

#[test]
fn layout_changes_of_other_windows_are_ignored() {
    let mut d = attached();
    let f = facts(vec![], vec![101, 102]);
    assert_eq!(d.handle_layout_change(8, "nonsense", None, None, &f), (vec![], Ok(())));
    // its size does not matter then
    let huge = "18446744073709551615x18446744073709551615,0,0,1";
    assert_eq!(d.handle_layout_change(8, huge, None, None, &f), (vec![], Ok(())));
    assert_eq!(
        d.handle_layout_change(3, "nonsense", None, None, &f),
        (vec![], Err(TmuxError::InvalidLayout))
    );
}

#[test]
fn events_may_come_in_two_rows() {
    let events = || {
        vec![
            Event::SessionChanged { session: 8, name: "s".to_string() },
            Event::Output { pane: 1, text: b"a".to_vec() },
            Event::WindowClose { window: 3 },
            Event::WindowAdd { window: 4 },
        ]
    };
    let mut whole = attached();
    whole.cmd_queue.clear();
    let all = whole.advance(&events());
    for cut in 0..=events().len() {
        let mut d = attached();
        d.cmd_queue.clear();
        let mut first = events();
        let second = first.split_off(cut);
        let mut actions = d.advance(&first);
        if actions.last() == Some(&Action::ScheduleSend { domain_id: 9 }) {
            actions.pop();
        }
        actions.extend(d.advance(&second));
        assert_eq!(actions, all);
        assert_eq!(format!("{d:?}"), format!("{whole:?}"));
    }
}

fn flags(root: &PaneNode, out: &mut Vec<(PaneId, bool, bool)>) {
    match root {
        PaneNode::Leaf(e) => out.push((e.pane_id, e.is_active_pane, e.is_zoomed_pane)),
        PaneNode::Split { left, right, .. } => {
            flags(left, out);
            flags(right, out);
        }
        PaneNode::Empty => {}
    }
}

fn shown_flags(actions: &[Action]) -> Vec<(PaneId, bool, bool)> {
    let mut out = vec![];
    for action in actions {
        if let Action::SyncPaneTree { root, .. } = action {
            flags(root, &mut out);
        }
    }
    out
}

#[test]
fn the_zoomed_pane_is_the_sole_visible_one() {
    let mut d = attached();
    let f = facts(vec![], vec![101, 102]);
    assert_eq!(
        d.set_active_tmux_pane(3, 1),
        Some(Action::FocusPane { tab: 30, pane: 101, notify: false })
    );
    let (actions, _) = d.handle_layout_change(3, TWO_PANES, Some("80x24,0,0,2"), Some("*Z"), &f);
    assert_eq!(shown_flags(&actions), vec![(101, true, false), (102, false, true)]);
    // without a single visible pane it is the active one
    let (actions, _) = d.handle_layout_change(3, TWO_PANES, Some(TWO_PANES), Some("*Z"), &f);
    assert_eq!(shown_flags(&actions), vec![(101, true, true), (102, false, false)]);
    let (actions, _) = d.handle_layout_change(3, TWO_PANES, None, Some("Z"), &f);
    assert_eq!(shown_flags(&actions), vec![(101, true, true), (102, false, false)]);
    let (actions, _) = d.handle_layout_change(3, TWO_PANES, Some("80x24,0,0,2"), Some("*"), &f);
    assert_eq!(shown_flags(&actions), vec![(101, true, false), (102, false, false)]);
    // a listed window does not fall back to the active pane
    let mut w = window(TWO_PANES);
    w.window_raw_flags = "*Z".to_string();
    let (actions, _) = d.sync_window_state(&w, true, 31, &f);
    assert_eq!(shown_flags(&actions), vec![(101, true, false), (102, false, false)]);
    w.window_visible_layout = "80x24,0,0,1".to_string();
    let (actions, _) = d.sync_window_state(&w, true, 31, &f);
    assert_eq!(shown_flags(&actions), vec![(101, true, true), (102, false, false)]);
}

#[test]
fn splits_are_resolved_in_the_order_they_were_asked_for() {
    let mut d = attached();
    d.cmd_queue.clear();
    assert_eq!(
        d.split_pane(1000, 102, SplitDirection::Vertical),
        Ok(Action::ScheduleSend { domain_id: 9 })
    );
    assert_eq!(d.split_pane(1001, 55, SplitDirection::Vertical), Err(TmuxError::NoTmuxPeer(55)));
    assert_eq!(
        d.split_pane(1002, 101, SplitDirection::Horizontal),
        Ok(Action::ScheduleSend { domain_id: 9 })
    );
    assert_eq!(
        d.cmd_queue[0],
        TmuxCommand::SplitPane(SplitPane { pane_id: 2, direction: SplitDirection::Vertical })
    );
    let (actions, r) = d.handle_layout_change(
        3,
        "80x24,0,0{40x24,0,0,1,39x24,41,0[39x12,41,0,2,39x11,41,13,6]}",
        None,
        None,
        &facts(vec![Some(106)], vec![101, 102, 106]),
    );
    assert_eq!(r, Ok(()));
    assert!(actions.contains(&Action::ResolveSplit { ticket: 1000, pane: 106 }));
    assert_eq!(d.pending_splits, vec![1002]);
}

#[test]
fn applying_a_layout_again_changes_nothing() {
    let mut d = attached();
    let layout = parse_layout_tree(TWO_PANES).unwrap();
    let f = facts(vec![], vec![101, 102]);
    let (first, _) = d.apply_layout(3, &layout, None, None, false, &f);
    let before = format!("{:?}", d);
    assert!(d.plan_layout(3, &layout).is_empty());
    let (second, r) = d.apply_layout(3, &layout, None, None, false, &f);
    assert_eq!(r, Ok(()));
    assert_eq!(second.len(), 1);
    assert!(first.contains(&second[0]));
    assert_eq!(format!("{:?}", d), before);
}

#[test]
fn the_size_of_a_character() {
    let d = RenderableDimensions {
        cols: 80,
        viewport_rows: 24,
        pixel_width: 645,
        pixel_height: 384,
        dpi: 96,
    };
    assert_eq!(cell_pixel_dimensions(Some(d)), (CellPixels { width: 8, height: 16 }, 96));
    let none = RenderableDimensions { cols: 0, viewport_rows: 0, ..d };
    assert_eq!(cell_pixel_dimensions(Some(none)), (CellPixels { width: 0, height: 0 }, 96));
    assert_eq!(cell_pixel_dimensions(None), (CellPixels { width: 0, height: 0 }, 0));
}

fn item(pane_id: u64, cursor: (u64, u64), active: bool) -> PaneItem {
    PaneItem {
        session_id: 7,
        window_id: 3,
        pane_id,
        pane_index: 0,
        cursor_x: cursor.0,
        cursor_y: cursor.1,
        pane_width: 40,
        pane_height: 24,
        pane_left: 0,
        pane_top: 0,
        pane_active: active,
    }
}

#[test]
fn cursors_are_backfilled() {
    let mut d = attached();
    d.backlog.insert(1, b"early".to_vec());
    d.backlog.insert(2, b"superseded".to_vec());
    let cursors: HashMap<PaneId, StableCursorPosition> = [
        (101, StableCursorPosition { x: 0, y: 0 }),
        (102, StableCursorPosition { x: 4, y: 0 }),
    ]
    .into_iter()
    .collect();
    let mut foreign = item(1, (9, 9), true);
    foreign.session_id = 8;
    let actions = d.sync_pane_state(
        &vec![item(1, (3, 4), false), item(2, (5, 6), true), foreign, item(9, (1, 1), true)],
        &cursors,
    );
    assert_eq!(
        actions,
        vec![
            Action::WriteOutput { pane: 1, text: b"early".to_vec() },
            Action::SetCursor { pane: 102, x: 5, y: 6 },
            Action::FocusPane { tab: 30, pane: 102, notify: true },
        ]
    );
    assert!(d.backlog.get(1).is_none() && d.backlog.get(2).is_none());
    assert_eq!(d.gui_tabs.get(3).unwrap().active_pane, Some(2));
    // a pane that is gone, or whose cursor is home at both ends, is left alone
    assert_eq!(d.sync_pane_state(&vec![item(1, (3, 4), true)], &no_cursors()), vec![]);
    assert_eq!(d.sync_pane_state(&vec![item(2, (0, 0), false)], &cursors), vec![]);
}

#[test]
fn tmux_follows_the_focus() {
    let mut d = attached();
    d.cmd_queue.clear();
    let send = Some(Action::ScheduleSend { domain_id: 9 });
    assert_eq!(d.subscribe_notification(MuxNotification::PaneFocused(102)), send);
    assert_eq!(d.subscribe_notification(MuxNotification::PaneFocused(55)), None);
    assert_eq!(d.subscribe_notification(MuxNotification::WindowInvalidated(Some(30))), send);
    assert_eq!(d.subscribe_notification(MuxNotification::WindowInvalidated(Some(31))), None);
    assert_eq!(d.subscribe_notification(MuxNotification::WindowInvalidated(None)), None);
    assert_eq!(
        d.cmd_queue,
        vec![
            TmuxCommand::SelectPane(SelectPane { pane_id: 2 }),
            TmuxCommand::SelectWindow(SelectWindow { window_id: 3 }),
        ]
    );
    d.attach_state = AttachState::Init;
    assert_eq!(d.subscribe_notification(MuxNotification::PaneFocused(102)), None);
}

#[test]
fn focus_follows_tmux() {
    let mut d = attached();
    assert_eq!(d.set_active_tmux_pane(8, 1), None);
    assert_eq!(d.set_active_tmux_pane(3, 77), None);
    assert_eq!(d.gui_tabs.get(3).unwrap().active_pane, Some(77));
    assert_eq!(
        d.set_active_tmux_pane(3, 2),
        Some(Action::FocusPane { tab: 30, pane: 102, notify: false })
    );
}

fn resize(d: &mut TmuxDomainState, cols: u16, rows: u16) -> Option<Action> {
    d.cmd_queue.clear();
    d.state = State::Idle;
    d.cmd_queue.push_back(TmuxCommand::Resize(Resize {
        pane_id: 1,
        size: PtySize { rows, cols },
    }));
    let size = TerminalSize {
        rows: 24,
        cols: 80,
        pixel_width: 0,
        pixel_height: 0,
        dpi: 0,
    };
    let sizes: HashMap<usize, TerminalSize> = [(30, size)].into_iter().collect();
    d.send_next_command(&sizes)
}

fn line(text: &str) -> Option<Action> {
    Some(Action::SendCommand { pane: 5, line: text.to_string() })
}

#[test]
fn a_resize_is_sent_once() {
    let mut d = attached();
    d.support_commands
        .insert("resize-window".to_string(), "resize-window".to_string());
    let lines = "resize-window -x 80 -y 24 -t @3\nresize-pane -x 60 -y 20 -t %1\n";
    // not while attaching
    d.attach_state = AttachState::Init;
    assert_eq!(resize(&mut d, 60, 20), None);
    assert_eq!(d.remote_panes.get(1).unwrap().pane_width, 40);
    d.attach_state = AttachState::Done;
    assert_eq!(resize(&mut d, 60, 20), line(lines));
    assert_eq!(d.remote_panes.get(1).unwrap().pane_width, 60);
    assert_eq!(d.remote_panes.get(1).unwrap().pane_height, 20);
    assert_eq!(resize(&mut d, 60, 20), None);
    // the same without the queue
    let size = TerminalSize { rows: 24, cols: 80, pixel_width: 0, pixel_height: 0, dpi: 0 };
    let sizes: HashMap<usize, TerminalSize> = [(30, size)].into_iter().collect();
    let r = Resize { pane_id: 1, size: PtySize { rows: 10, cols: 60 } };
    assert_eq!(
        r.get_command(&mut d, &sizes),
        "resize-window -x 80 -y 24 -t @3\nresize-pane -x 60 -y 10 -t %1\n"
    );
    assert_eq!(r.get_command(&mut d, &sizes), "");
}

#[test]
fn resizing_depends_on_what_tmux_can_do() {
    let mut d = attached();
    // no command for it
    assert_eq!(resize(&mut d, 50, 20), None);
    assert_eq!(d.state, State::Idle);
    assert!(d.cmd_queue.is_empty());
    d.support_commands
        .insert("refresh-client".to_string(), "refresh-client [-C size]".to_string());
    assert_eq!(
        resize(&mut d, 51, 20),
        line("refresh-client -C 80,24\nresize-pane -x 51 -y 20 -t %1\n")
    );
    d.support_commands
        .insert("refresh-client".to_string(), "refresh-client [-C XxY] [-B x]".to_string());
    assert_eq!(
        resize(&mut d, 52, 20),
        line("refresh-client -C 80x24\nresize-pane -x 52 -y 20 -t %1\n")
    );
    d.support_commands
        .insert("resize-window".to_string(), "resize-window (resizew)".to_string());
    assert_eq!(
        resize(&mut d, 53, 20),
        line("resize-window -x 80 -y 24 -t @3\nresize-pane -x 53 -y 20 -t %1\n")
    );
    // the same size again is nothing to send
    assert_eq!(resize(&mut d, 53, 20), None);
    d.attach_state = AttachState::Init;
    assert_eq!(resize(&mut d, 54, 20), None);
}

#[test]
fn commands_without_a_line_are_dropped() {
    let mut d = attached();
    d.cmd_queue.clear();
    d.cmd_queue.push_back(TmuxCommand::Resize(Resize {
        pane_id: 77,
        size: PtySize { rows: 1, cols: 1 },
    }));
    d.cmd_queue.push_back(TmuxCommand::NewWindow(NewWindow));
    assert_eq!(d.send_next_command(&no_sizes()), line("new-window\n"));
    assert_eq!(d.cmd_queue.len(), 1);
}

fn process(d: &mut TmuxDomainState, c: TmuxCommand, result: &Guarded) -> (Vec<Action>, Result<(), TmuxError>) {
    d.process_result(&c, result, &no_cursors(), vec![])
}

#[test]
fn supported_commands_are_noted() {
    let mut d = attached();
    d.cmd_queue.clear();
    let (actions, r) = process(
        &mut d,
        TmuxCommand::ListCommands(ListCommands),
        &answer("resize-window (resizew) [-a]\nrefresh-client (refresh) [-B x]\n\nresize-window new\n"),
    );
    assert_eq!(r, Ok(()));
    assert_eq!(actions, vec![Action::ScheduleSend { domain_id: 9 }]);
    assert_eq!(d.support_commands.get("resize-window").unwrap(), "resize-window new");
    assert_eq!(
        d.support_commands.get("refresh-client").unwrap(),
        "refresh-client (refresh) [-B x]"
    );
    assert!(d.support_commands.get("refresh").is_none());
    assert_eq!(
        d.cmd_queue[0],
        TmuxCommand::ListAllWindows(ListAllWindows { session_id: 7, window_id: None })
    );
}

#[test]
fn the_end_of_attaching_registers_subscriptions() {
    let subs = || {
        vec![TmuxFormatSubscription {
            name: "n".to_string(),
            target: TmuxSubscriptionTarget::Pane,
            format: "f".to_string(),
        }]
    };
    let done = || TmuxCommand::AttachDone(AttachDone);
    let mut d = attached();
    d.cmd_queue.clear();
    d.attach_state = AttachState::Init;
    // not supported
    let (actions, r) = d.process_result(&done(), &answer(""), &no_cursors(), subs());
    assert_eq!((actions, r), (vec![], Ok(())));
    assert_eq!(d.attach_state, AttachState::Done);
    d.support_commands
        .insert("refresh-client".to_string(), "refresh-client [-B x]".to_string());
    // nothing configured
    let (actions, r) = d.process_result(&done(), &answer(""), &no_cursors(), vec![]);
    assert_eq!((actions, r), (vec![], Ok(())));
    let (actions, r) = d.process_result(&done(), &answer(""), &no_cursors(), subs());
    assert_eq!((actions, r), (vec![Action::ScheduleSend { domain_id: 9 }], Ok(())));
    assert_eq!(d.cmd_queue[0], TmuxCommand::Subscribe(Subscribe { subs: subs() }));
}

#[test]
fn captured_content_is_shown_from_the_top() {
    let mut d = attached();
    let capture = |pane_id| TmuxCommand::CapturePane(CapturePane { pane_id, history_limit: 1 });
    assert_eq!(
        process(&mut d, capture(2), &answer("a\nb\n")),
        (
            vec![
                Action::SetCursor { pane: 102, x: 0, y: 0 },
                Action::WriteOutput { pane: 2, text: b"a\r\nb".to_vec() },
            ],
            Ok(())
        )
    );
    assert_eq!(process(&mut d, capture(77), &answer("a\n")), (vec![], Ok(())));
}

#[test]
fn listed_windows_and_panes_are_handed_on() {
    let mut d = attached();
    let (actions, r) = process(
        &mut d,
        TmuxCommand::ListAllWindows(ListAllWindows { session_id: 7, window_id: Some(3) }),
        &answer("$7 @3 80 24 1 bash 80x24,0,0,1 80x24,0,0,1 * 2000\n"),
    );
    assert_eq!(r, Ok(()));
    match &actions[0] {
        Action::SyncWindows { windows, new_window } => {
            assert!(*new_window);
            assert_eq!(windows[0].window_name, "bash");
        }
        other => panic!("unexpected {:?}", other),
    }
    let cursors: HashMap<PaneId, StableCursorPosition> =
        [(101, StableCursorPosition { x: 1, y: 1 })].into_iter().collect();
    let (actions, r) = d.process_result(
        &TmuxCommand::ListAllPanes(ListAllPanes { window_id: 3 }),
        &answer("$7 @3 %1 0 4 5 40 24 0 0 0\n"),
        &cursors,
        vec![],
    );
    assert_eq!(r, Ok(()));
    assert_eq!(actions, vec![Action::SetCursor { pane: 101, x: 4, y: 5 }]);
}

#[test]
fn failures_are_reported_but_for_harmless_ones() {
    let mut d = attached();
    let refusal = Guarded { error: true, ..answer("no\n") };
    for c in [
        TmuxCommand::ListAllPanes(ListAllPanes { window_id: 3 }),
        TmuxCommand::ListAllWindows(ListAllWindows { session_id: 7, window_id: None }),
        TmuxCommand::CapturePane(CapturePane { pane_id: 1, history_limit: 1 }),
        TmuxCommand::NewWindow(NewWindow),
        TmuxCommand::ListCommands(ListCommands),
        TmuxCommand::AttachDone(AttachDone),
        TmuxCommand::SelectPane(SelectPane { pane_id: 1 }),
    ] {
        assert_eq!(process(&mut d, c, &refusal), (vec![], Err(TmuxError::CommandFailed)));
    }
    for c in [
        TmuxCommand::Subscribe(Subscribe { subs: vec![] }),
        TmuxCommand::RawCommand(RawCommand { command: "x".to_string() }),
    ] {
        assert_eq!(process(&mut d, c, &refusal), (vec![], Ok(())));
    }
}
