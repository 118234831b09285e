//! Configuration of the tmux integration.

use vstd::prelude::*;

verus! {

/// What a tmux control-mode format subscription is computed against. Determines
/// the `what` piece of the `refresh-client -B name:what:format` argument.
#[derive(Debug, Clone, Copy, PartialEq, Eq, Structural)]
pub enum TmuxSubscriptionTarget {
    /// The attached session. The notification carries no window/pane id.
    Session,
    /// All panes in the attached session (tmux `%*`); one notification per pane.
    Pane,
    /// All windows in the attached session (tmux `@*`); one notification per window.
    Window,
}

impl Default for TmuxSubscriptionTarget {
    fn default() -> (r: Self)
        ensures
            r == TmuxSubscriptionTarget::Session,
    {
        Self::Session
    }
}

/// The `what` token of a target.
pub open spec fn target_token(target: TmuxSubscriptionTarget) -> Seq<char> {
    match target {
        TmuxSubscriptionTarget::Session => ""@,
        TmuxSubscriptionTarget::Pane => "%*"@,
        TmuxSubscriptionTarget::Window => "@*"@,
    }
}

impl TmuxSubscriptionTarget {
    /// The `what` token used in `refresh-client -B name:what:format`.
    pub fn tmux_type(&self) -> (r: &'static str)
        ensures
            r@ == target_token(*self),
    {
        match self {
            Self::Session => "",
            Self::Pane => "%*",
            Self::Window => "@*",
        }
    }
}

/// A tmux control-mode "format subscription".
///
/// When attached to a `tmux -CC` session, each entry is subscribed to via
/// `refresh-client -B`; tmux then pushes the recomputed value whenever it
/// changes. The latest value is stored as a user var named `name` on the
/// relevant pane(s).
#[derive(Debug, PartialEq, Eq)]
pub struct TmuxFormatSubscription {
    /// The user var name under which the computed value is exposed; also used
    /// as the tmux subscription name. Should be made of `[A-Za-z0-9_-]`.
    pub name: String,
    /// What the format is computed against (session/pane/window).
    pub target: TmuxSubscriptionTarget,
    /// The tmux format string, e.g. `#{pane_current_path}` or `#{T:status-left}`.
    pub format: String,
}

impl Clone for TmuxFormatSubscription {
    fn clone(&self) -> (r: Self)
        ensures
            r == *self,
    {
        Self { name: self.name.clone(), target: self.target, format: self.format.clone() }
    }
}

} // verus!
