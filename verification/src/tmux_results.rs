//! What the answers of tmux make of the domain.

use std::collections::HashMap;

use vstd::prelude::*;
use vstd::utf8::encode_utf8;

use crate::action::{action_views, push_action, Action, ActionView};
use crate::config::TmuxFormatSubscription;
use crate::string_table::{inserted, lookup};
use crate::tab::{PaneId, StableCursorPosition};
use crate::text::{chars_of, contents, fields, split_at_first, split_fields, string_of};
use crate::tmux::{contains_text, enqueued, AttachState, DomainView, TmuxDomainState};
use crate::tmux_cc::event::{Guarded, GuardedView};
use crate::tmux_commands::{
    captured, check_result, listed_panes, listed_windows, CapturePane, ListAllPanes,
    ListAllWindows, Subscribe, TmuxCommand, TmuxError,
};
use crate::tmux_sync::{fails, panes_synced, Outcome};

verus! {

/// A success that leaves the state as it is and asks for nothing.
pub open spec fn succeeds(v: DomainView) -> Outcome {
    Outcome { view: v, actions: Seq::empty(), result: Ok(()) }
}

/// The outcome of an answer that holds nothing but whether the command succeeded.
pub open spec fn checked(v: DomainView, error: bool) -> Outcome {
    if error {
        fails(v, TmuxError::CommandFailed)
    } else {
        succeeds(v)
    }
}

/// The table of commands with the usage lines of list-commands: each stands under its first
/// word.
pub open spec fn with_usages(
    t: Seq<(Seq<char>, Seq<char>)>,
    lines: Seq<Seq<char>>,
) -> Seq<(Seq<char>, Seq<char>)>
    decreases lines.len(),
{
    if lines.len() == 0 {
        t
    } else {
        let before = with_usages(t, lines.drop_last());
        let line = lines.last();
        if line.len() == 0 {
            before
        } else {
            inserted(before, fields(line, ' ')[0], line)
        }
    }
}

/// The outcome of the answer to list-panes.
pub open spec fn panes_answered(
    v: DomainView,
    result: GuardedView,
    cursors: Map<PaneId, StableCursorPosition>,
) -> Outcome {
    match listed_panes(result.error, result.output) {
        Ok(items) => {
            let step = panes_synced(v, items, cursors);
            Outcome { view: step.view, actions: step.actions, result: Ok(()) }
        },
        Err(e) => fails(v, e),
    }
}

/// The outcome of the answer to list-windows: the tabs are to be brought in line with it.
pub open spec fn windows_answered(
    v: DomainView,
    command: ListAllWindows,
    result: GuardedView,
) -> Outcome {
    match listed_windows(result.error, result.output, command.window_id) {
        Ok(windows) => Outcome {
            view: v,
            actions: seq![
                ActionView::SyncWindows { windows, new_window: command.window_id is Some },
            ],
            result: Ok(()),
        },
        Err(e) => fails(v, e),
    }
}

/// The outcome of the answer to capture-pane: the pane shows the content from its top.
pub open spec fn capture_answered(
    v: DomainView,
    command: CapturePane,
    result: GuardedView,
) -> Outcome {
    match captured(result.error, result.output) {
        Ok(text) => if v.panes.dom().contains(command.pane_id) {
            Outcome {
                view: v,
                actions: seq![
                    ActionView::SetCursor {
                        pane: v.panes[command.pane_id].local_pane_id,
                        x: 0,
                        y: 0,
                    },
                    ActionView::WriteOutput { pane: command.pane_id, text: encode_utf8(text) },
                ],
                result: Ok(()),
            }
        } else {
            succeeds(v)
        },
        Err(e) => fails(v, e),
    }
}

/// The outcome of the answer to list-commands: the commands are noted, and the windows of the
/// session are listed.
pub open spec fn commands_answered(v: DomainView, result: GuardedView) -> Outcome {
    if result.error {
        fails(v, TmuxError::CommandFailed)
    } else {
        let noted = DomainView {
            support_commands: with_usages(v.support_commands, fields(result.output, '\n')),
            ..v
        };
        match v.session {
            Some(session_id) => Outcome {
                view: enqueued(
                    noted,
                    TmuxCommand::ListAllWindows(ListAllWindows { session_id, window_id: None }),
                ),
                actions: seq![ActionView::ScheduleSend { domain_id: v.domain_id }],
                result: Ok(()),
            },
            None => succeeds(noted),
        }
    }
}

/// Whether tmux supports format subscriptions.
pub open spec fn can_subscribe(v: DomainView) -> bool {
    match lookup(v.support_commands, "refresh-client"@) {
        Some(usage) => split_at_first(usage, "-B"@) is Some,
        None => false,
    }
}

/// The outcome of the answer that ends the attaching: subscriptions are registered, if there
/// are any and this tmux supports them.
pub open spec fn attach_answered(
    v: DomainView,
    result: GuardedView,
    subs: Vec<TmuxFormatSubscription>,
) -> Outcome {
    if result.error {
        fails(v, TmuxError::CommandFailed)
    } else {
        let attached = DomainView { attach_state: AttachState::Done, ..v };
        if can_subscribe(v) && subs@.len() > 0 {
            Outcome {
                view: enqueued(attached, TmuxCommand::Subscribe(Subscribe { subs })),
                actions: seq![ActionView::ScheduleSend { domain_id: v.domain_id }],
                result: Ok(()),
            }
        } else {
            succeeds(attached)
        }
    }
}

/// The outcome of the answer to a command.
pub open spec fn result_processed(
    v: DomainView,
    command: TmuxCommand,
    result: GuardedView,
    cursors: Map<PaneId, StableCursorPosition>,
    subs: Vec<TmuxFormatSubscription>,
) -> Outcome {
    match command {
        TmuxCommand::ListAllPanes(_) => panes_answered(v, result, cursors),
        TmuxCommand::ListAllWindows(c) => windows_answered(v, c, result),
        TmuxCommand::CapturePane(c) => capture_answered(v, c, result),
        TmuxCommand::ListCommands(_) => commands_answered(v, result),
        TmuxCommand::AttachDone(_) => attach_answered(v, result, subs),
        // rejected subscriptions and raw commands do no harm
        TmuxCommand::Subscribe(_) => succeeds(v),
        TmuxCommand::RawCommand(_) => succeeds(v),
        _ => checked(v, result.error),
    }
}

fn bytes_of(text: &str) -> (bytes: Vec<u8>)
    ensures
        bytes@ == encode_utf8(text@),
{
    let s = text.as_bytes();
    let mut bytes: Vec<u8> = Vec::new();
    let mut i: usize = 0;
    while i < s.len()
        invariant
            i <= s@.len(),
            bytes@ == s@.take(i as int),
        decreases s@.len() - i,
    {
        bytes.push(s[i]);
        i += 1;
    }
    assert(s@.take(s@.len() as int) == s@);
    bytes
}

impl TmuxDomainState {
    fn panes_answer(
        &mut self,
        command: &ListAllPanes,
        result: &Guarded,
        cursors: &HashMap<PaneId, StableCursorPosition>,
    ) -> (r: (Vec<Action>, Result<(), TmuxError>))
        ensures
            panes_answered(old(self)@, result@, cursors@) == (Outcome {
                view: final(self)@,
                actions: action_views(r.0@),
                result: r.1,
            }),
    {
        match command.parse_result(result) {
            Ok(items) => {
                let actions = self.sync_pane_state(&items, cursors);
                (actions, Ok(()))
            },
            Err(e) => {
                let nothing: Vec<Action> = Vec::new();
                assert(action_views(nothing@) == Seq::<ActionView>::empty());
                (nothing, Err(e))
            },
        }
    }

    fn windows_answer(&self, command: &ListAllWindows, result: &Guarded) -> (r: (
        Vec<Action>,
        Result<(), TmuxError>,
    ))
        ensures
            windows_answered(self@, *command, result@) == (Outcome {
                view: self@,
                actions: action_views(r.0@),
                result: r.1,
            }),
    {
        let mut actions: Vec<Action> = Vec::new();
        assert(action_views(actions@) == Seq::<ActionView>::empty());
        match command.parse_result(result) {
            Ok(windows) => {
                let new_window = command.window_id.is_some();
                push_action(&mut actions, Action::SyncWindows { windows, new_window });
                assert(action_views(actions@) == windows_answered(
                    self@,
                    *command,
                    result@,
                ).actions);
                (actions, Ok(()))
            },
            Err(e) => (actions, Err(e)),
        }
    }

    fn capture_answer(&self, command: &CapturePane, result: &Guarded) -> (r: (
        Vec<Action>,
        Result<(), TmuxError>,
    ))
        ensures
            capture_answered(self@, *command, result@) == (Outcome {
                view: self@,
                actions: action_views(r.0@),
                result: r.1,
            }),
    {
        let mut actions: Vec<Action> = Vec::new();
        assert(action_views(actions@) == Seq::<ActionView>::empty());
        match command.parse_result(result) {
            Ok(text) => {
                if let Some(pane) = self.remote_panes.get(command.pane_id) {
                    push_action(
                        &mut actions,
                        Action::SetCursor { pane: pane.local_pane_id, x: 0, y: 0 },
                    );
                    push_action(
                        &mut actions,
                        Action::WriteOutput {
                            pane: command.pane_id,
                            text: bytes_of(text.as_str()),
                        },
                    );
                }
                assert(action_views(actions@) == capture_answered(
                    self@,
                    *command,
                    result@,
                ).actions);
                (actions, Ok(()))
            },
            Err(e) => (actions, Err(e)),
        }
    }

    /// Notes the usage lines of list-commands.
    fn note_usages(&mut self, output: &String)
        ensures
            final(self)@ == (DomainView {
                support_commands: with_usages(
                    old(self)@.support_commands,
                    fields(output@, '\n'),
                ),
                ..old(self)@
            }),
    {
        let ghost start = self@;
        let text = chars_of(output.as_str());
        let lines = split_fields(text.as_slice(), '\n');
        let ghost all = contents(lines@);
        let mut i: usize = 0;
        assert(all.take(0) == Seq::<Seq<char>>::empty());
        while i < lines.len()
            invariant
                i <= lines@.len(),
                start == old(self)@,
                all == contents(lines@),
                self@ == (DomainView {
                    support_commands: with_usages(start.support_commands, all.take(i as int)),
                    ..start
                }),
            decreases lines@.len() - i,
        {
            assert(all.take(i + 1).drop_last() == all.take(i as int));
            assert(all.take(i + 1).last() == lines@[i as int]@);
            if lines[i].len() > 0 {
                let words = split_fields(lines[i], ' ');
                assert(fields(lines@[i as int]@, ' ').len() > 0);
                assert(contents(words@)[0] == words@[0]@);
                self.support_commands.insert(string_of(words[0]), string_of(lines[i]));
            }
            i += 1;
        }
        assert(all.take(all.len() as int) == all);
    }

    fn commands_answer(&mut self, result: &Guarded) -> (r: (Vec<Action>, Result<(), TmuxError>))
        ensures
            commands_answered(old(self)@, result@) == (Outcome {
                view: final(self)@,
                actions: action_views(r.0@),
                result: r.1,
            }),
    {
        let mut actions: Vec<Action> = Vec::new();
        assert(action_views(actions@) == Seq::<ActionView>::empty());
        if result.error {
            return (actions, Err(TmuxError::CommandFailed));
        }
        self.note_usages(&result.output);
        if let Some(session_id) = self.tmux_session {
            self.cmd_queue.push_back(
                TmuxCommand::ListAllWindows(ListAllWindows { session_id, window_id: None }),
            );
            push_action(
                &mut actions,
                TmuxDomainState::schedule_send_next_command(self.domain_id),
            );
        }
        assert(action_views(actions@) == commands_answered(old(self)@, result@).actions);
        (actions, Ok(()))
    }

    fn attach_answer(&mut self, result: &Guarded, subs: Vec<TmuxFormatSubscription>) -> (r: (
        Vec<Action>,
        Result<(), TmuxError>,
    ))
        ensures
            attach_answered(old(self)@, result@, subs) == (Outcome {
                view: final(self)@,
                actions: action_views(r.0@),
                result: r.1,
            }),
    {
        let mut actions: Vec<Action> = Vec::new();
        assert(action_views(actions@) == Seq::<ActionView>::empty());
        if result.error {
            return (actions, Err(TmuxError::CommandFailed));
        }
        self.attach_state = AttachState::Done;
        // Now that the attach is complete and all panes are mapped, register
        // tmux format subscriptions (if this tmux supports them). Subscribing
        // here ensures the initial values land on already-attached panes.
        // tmux's `%*` / `@*` targets also cover panes/windows created later, so
        // a single registration per attach is sufficient.
        let supports_subscribe = match self.support_commands.get("refresh-client") {
            Some(usage) => contains_text(usage, "-B"),
            None => false,
        };
        if supports_subscribe && subs.len() > 0 {
            self.cmd_queue.push_back(TmuxCommand::Subscribe(Subscribe { subs }));
            push_action(
                &mut actions,
                TmuxDomainState::schedule_send_next_command(self.domain_id),
            );
        }
        assert(action_views(actions@) == attach_answered(old(self)@, result@, subs).actions);
        (actions, Ok(()))
    }

    /// Takes in the answer to a command, given the cursors of the local panes that exist and
    /// the subscriptions that are configured.
    pub fn process_result(
        &mut self,
        command: &TmuxCommand,
        result: &Guarded,
        cursors: &HashMap<PaneId, StableCursorPosition>,
        subs: Vec<TmuxFormatSubscription>,
    ) -> (r: (Vec<Action>, Result<(), TmuxError>))
        ensures
            result_processed(old(self)@, *command, result@, cursors@, subs) == (Outcome {
                view: final(self)@,
                actions: action_views(r.0@),
                result: r.1,
            }),
    {
        match command {
            TmuxCommand::ListAllPanes(c) => self.panes_answer(c, result, cursors),
            TmuxCommand::ListAllWindows(c) => self.windows_answer(c, result),
            TmuxCommand::CapturePane(c) => self.capture_answer(c, result),
            TmuxCommand::ListCommands(_) => self.commands_answer(result),
            TmuxCommand::AttachDone(_) => self.attach_answer(result, subs),
            _ => {
                let nothing: Vec<Action> = Vec::new();
                assert(action_views(nothing@) == Seq::<ActionView>::empty());
                match command {
                    // tmux < 3.2, or a format string tmux rejected. Degrade gracefully:
                    // keep the control-mode session running.
                    TmuxCommand::Subscribe(_) => (nothing, Ok(())),
                    TmuxCommand::RawCommand(_) => (nothing, Ok(())),
                    _ => (nothing, check_result(result)),
                }
            },
        }
    }
}

// ---------------------------------------------------------------------------
// Laws
// ---------------------------------------------------------------------------

/// Where tmux does not support subscriptions, or none is configured, none is registered and
/// everything else goes on: the attaching ends all the same.
pub proof fn law_subscriptions_are_skipped_without_support(
    v: DomainView,
    result: GuardedView,
    subs: Vec<TmuxFormatSubscription>,
)
    requires
        !result.error,
        !can_subscribe(v) || subs@.len() == 0,
    ensures
        attach_answered(v, result, subs) == succeeds(
            DomainView { attach_state: AttachState::Done, ..v },
        ),
{
}

/// Subscriptions and raw commands that tmux rejects do no harm: the session goes on as if
/// they had succeeded.
pub proof fn law_rejected_extras_do_no_harm(
    v: DomainView,
    command: TmuxCommand,
    result: GuardedView,
    cursors: Map<PaneId, StableCursorPosition>,
    subs: Vec<TmuxFormatSubscription>,
)
    requires
        command is Subscribe || command is RawCommand,
    ensures
        result_processed(v, command, result, cursors, subs) == succeeds(v),
{
}

} // verus!
