//! The notifications of control mode.

use vstd::prelude::*;

use crate::tmux_cc::layout::{TmuxPaneId, TmuxSessionId, TmuxWindowId};

verus! {

/// The output of one command: what tmux wrote between `%begin` and the matching
/// `%end` or `%error`.
#[derive(Debug, PartialEq, Eq)]
pub struct Guarded {
    pub error: bool,
    pub timestamp: i64,
    pub number: u64,
    pub flags: i64,
    pub output: String,
}

impl Clone for Guarded {
    fn clone(&self) -> (r: Self)
        ensures
            r == *self,
    {
        Self {
            error: self.error,
            timestamp: self.timestamp,
            number: self.number,
            flags: self.flags,
            output: self.output.clone(),
        }
    }
}

/// A [`Guarded`] as a mathematical value.
pub struct GuardedView {
    pub error: bool,
    pub timestamp: i64,
    pub number: u64,
    pub flags: i64,
    pub output: Seq<char>,
}

impl View for Guarded {
    type V = GuardedView;

    open spec fn view(&self) -> GuardedView {
        GuardedView {
            error: self.error,
            timestamp: self.timestamp,
            number: self.number,
            flags: self.flags,
            output: self.output@,
        }
    }
}

/// One event of the control mode stream.
#[derive(Debug, Clone, PartialEq, Eq)]
#[allow(inconsistent_fields)]
pub enum Event {
    Begin { timestamp: i64, number: u64, flags: i64 },
    End { timestamp: i64, number: u64, flags: i64 },
    Error { timestamp: i64, number: u64, flags: i64 },
    Guarded(Guarded),
    ClientDetached { client_name: String },
    ClientSessionChanged { client_name: String, session: TmuxSessionId, session_name: String },
    ConfigError { error: String },
    Continue { pane: TmuxPaneId },
    ExtendedOutput { pane: TmuxPaneId, text: Vec<u8> },
    Exit { reason: Option<String> },
    LayoutChange {
        window: TmuxWindowId,
        layout: String,
        visible_layout: Option<String>,
        raw_flags: Option<String>,
    },
    Message { message: String },
    Output { pane: TmuxPaneId, text: Vec<u8> },
    PaneModeChanged { pane: TmuxPaneId },
    PasteBufferChanged { buffer: String },
    PasteBufferDeleted { buffer: String },
    Pause { pane: TmuxPaneId },
    SessionChanged { session: TmuxSessionId, name: String },
    SessionRenamed { name: String },
    SessionsChanged,
    SessionWindowChanged { session: TmuxSessionId, window: TmuxWindowId },
    /// A `%subscription-changed` notification carrying the latest value of a
    /// format string we subscribed to via `refresh-client -B`.
    ///
    /// The wire format is:
    /// `%subscription-changed <name> <session-id> <window-id|-> <window-index|-> <pane-id|-> : <value>`
    /// where the id/index fields are `-` when not applicable to the
    /// subscription's target (e.g. a session-scoped subscription has no
    /// window/pane). The id fields are parsed best-effort so that a malformed
    /// or future-extended notification never fails the whole parse.
    SubscriptionChanged {
        name: String,
        session: Option<TmuxSessionId>,
        window: Option<TmuxWindowId>,
        window_index: Option<u64>,
        pane: Option<TmuxPaneId>,
        value: String,
    },
    UnlinkedWindowAdd { window: TmuxWindowId },
    UnlinkedWindowClose { window: TmuxWindowId },
    UnlinkedWindowRenamed { window: TmuxWindowId },
    WindowAdd { window: TmuxWindowId },
    WindowClose { window: TmuxWindowId },
    WindowPaneChanged { window: TmuxWindowId, pane: TmuxPaneId },
    WindowRenamed { window: TmuxWindowId, name: String },
}

/// An [`Event`] as a mathematical value.
#[allow(inconsistent_fields)]
pub enum EventView {
    Begin { timestamp: i64, number: u64, flags: i64 },
    End { timestamp: i64, number: u64, flags: i64 },
    Error { timestamp: i64, number: u64, flags: i64 },
    Guarded(GuardedView),
    ClientDetached { client_name: Seq<char> },
    ClientSessionChanged {
        client_name: Seq<char>,
        session: TmuxSessionId,
        session_name: Seq<char>,
    },
    ConfigError { error: Seq<char> },
    Continue { pane: TmuxPaneId },
    ExtendedOutput { pane: TmuxPaneId, text: Seq<u8> },
    Exit { reason: Option<Seq<char>> },
    LayoutChange {
        window: TmuxWindowId,
        layout: Seq<char>,
        visible_layout: Option<Seq<char>>,
        raw_flags: Option<Seq<char>>,
    },
    Message { message: Seq<char> },
    Output { pane: TmuxPaneId, text: Seq<u8> },
    PaneModeChanged { pane: TmuxPaneId },
    PasteBufferChanged { buffer: Seq<char> },
    PasteBufferDeleted { buffer: Seq<char> },
    Pause { pane: TmuxPaneId },
    SessionChanged { session: TmuxSessionId, name: Seq<char> },
    SessionRenamed { name: Seq<char> },
    SessionsChanged,
    SessionWindowChanged { session: TmuxSessionId, window: TmuxWindowId },
    SubscriptionChanged {
        name: Seq<char>,
        session: Option<TmuxSessionId>,
        window: Option<TmuxWindowId>,
        window_index: Option<u64>,
        pane: Option<TmuxPaneId>,
        value: Seq<char>,
    },
    UnlinkedWindowAdd { window: TmuxWindowId },
    UnlinkedWindowClose { window: TmuxWindowId },
    UnlinkedWindowRenamed { window: TmuxWindowId },
    WindowAdd { window: TmuxWindowId },
    WindowClose { window: TmuxWindowId },
    WindowPaneChanged { window: TmuxWindowId, pane: TmuxPaneId },
    WindowRenamed { window: TmuxWindowId, name: Seq<char> },
}

/// The contents of an optional string.
pub open spec fn opt_text(s: Option<String>) -> Option<Seq<char>> {
    match s {
        Some(text) => Some(text@),
        None => None,
    }
}

impl View for Event {
    type V = EventView;

    open spec fn view(&self) -> EventView {
        match *self {
            Event::Begin { timestamp, number, flags } => EventView::Begin {
                timestamp,
                number,
                flags,
            },
            Event::End { timestamp, number, flags } => EventView::End { timestamp, number, flags },
            Event::Error { timestamp, number, flags } => EventView::Error {
                timestamp,
                number,
                flags,
            },
            Event::Guarded(g) => EventView::Guarded(g@),
            Event::ClientDetached { client_name } => EventView::ClientDetached {
                client_name: client_name@,
            },
            Event::ClientSessionChanged {
                client_name,
                session,
                session_name,
            } => EventView::ClientSessionChanged {
                client_name: client_name@,
                session,
                session_name: session_name@,
            },
            Event::ConfigError { error } => EventView::ConfigError { error: error@ },
            Event::Continue { pane } => EventView::Continue { pane },
            Event::ExtendedOutput { pane, text } => EventView::ExtendedOutput { pane, text: text@ },
            Event::Exit { reason } => EventView::Exit { reason: opt_text(reason) },
            Event::LayoutChange {
                window,
                layout,
                visible_layout,
                raw_flags,
            } => EventView::LayoutChange {
                window,
                layout: layout@,
                visible_layout: opt_text(visible_layout),
                raw_flags: opt_text(raw_flags),
            },
            Event::Message { message } => EventView::Message { message: message@ },
            Event::Output { pane, text } => EventView::Output { pane, text: text@ },
            Event::PaneModeChanged { pane } => EventView::PaneModeChanged { pane },
            Event::PasteBufferChanged { buffer } => EventView::PasteBufferChanged {
                buffer: buffer@,
            },
            Event::PasteBufferDeleted { buffer } => EventView::PasteBufferDeleted {
                buffer: buffer@,
            },
            Event::Pause { pane } => EventView::Pause { pane },
            Event::SessionChanged { session, name } => EventView::SessionChanged {
                session,
                name: name@,
            },
            Event::SessionRenamed { name } => EventView::SessionRenamed { name: name@ },
            Event::SessionsChanged => EventView::SessionsChanged,
            Event::SessionWindowChanged { session, window } => EventView::SessionWindowChanged {
                session,
                window,
            },
            Event::SubscriptionChanged {
                name,
                session,
                window,
                window_index,
                pane,
                value,
            } => EventView::SubscriptionChanged {
                name: name@,
                session,
                window,
                window_index,
                pane,
                value: value@,
            },
            Event::UnlinkedWindowAdd { window } => EventView::UnlinkedWindowAdd { window },
            Event::UnlinkedWindowClose { window } => EventView::UnlinkedWindowClose { window },
            Event::UnlinkedWindowRenamed { window } => EventView::UnlinkedWindowRenamed { window },
            Event::WindowAdd { window } => EventView::WindowAdd { window },
            Event::WindowClose { window } => EventView::WindowClose { window },
            Event::WindowPaneChanged { window, pane } => EventView::WindowPaneChanged {
                window,
                pane,
            },
            Event::WindowRenamed { window, name } => EventView::WindowRenamed {
                window,
                name: name@,
            },
        }
    }
}

} // verus!
