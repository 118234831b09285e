//! Bringing tabs in line with a list of windows, one window after the other.
//!
//! Each window needs a tab and panes from the multiplexer before its turn, so the list is gone
//! through in steps: the library says what to do next, and hears what came of it.

use vstd::prelude::*;

use crate::action::{action_views, opt_action, push_opt_action, Action, ActionView};
use crate::tab::{TabId, TerminalSize};
use crate::tmux::{DomainView, TmuxDomainState};
use crate::tmux_cc::layout::{layout_of, LayoutTree};
use crate::tmux_commands::{window_views, PaneItem, TmuxError, WindowItem, WindowView};
use crate::tmux_layout::window_fits;
use crate::tmux_sync::{
    cell_pixels, is_ready, is_synced, planned, window_backfilled, window_synced, windows_listed,
    FactsView, LayoutFacts, Outcome, WindowPlan,
};

verus! {

// ---------------------------------------------------------------------------
// Steps
// ---------------------------------------------------------------------------

/// A list of windows, and how far it has been gone through.
#[derive(Debug)]
pub struct WindowListing {
    pub windows: Vec<WindowItem>,
    /// Whether the list tells about a brand-new window.
    pub new_window: bool,
    /// The window whose turn it is.
    pub next: usize,
}

/// What happened in the multiplexer.
#[derive(Debug)]
pub enum ListingEvent {
    /// Nothing yet.
    Begin,
    /// What the plan asks for was created: the tab, if it asks for one, and the panes.
    Prepared { tab: TabId, facts: LayoutFacts },
    /// The actions were performed; whether a tab that was to be linked was linked.
    Performed { linked: bool },
}

/// A [`ListingEvent`] as a mathematical value.
pub enum ListingEventView {
    Begin,
    Prepared { tab: TabId, facts: FactsView },
    Performed { linked: bool },
}

impl View for ListingEvent {
    type V = ListingEventView;

    open spec fn view(&self) -> ListingEventView {
        match *self {
            ListingEvent::Begin => ListingEventView::Begin,
            ListingEvent::Prepared { tab, facts } => ListingEventView::Prepared {
                tab,
                facts: facts@,
            },
            ListingEvent::Performed { linked } => ListingEventView::Performed { linked },
        }
    }
}

/// What to do next in the multiplexer.
#[derive(Debug)]
pub enum ListingTask {
    /// Create what the plan asks for.
    Prepare(WindowPlan),
    /// Perform the actions.
    Perform(Vec<Action>),
    /// Perform the actions; nothing comes after that.
    End(Vec<Action>, Result<(), TmuxError>),
}

/// A [`WindowPlan`] as a mathematical value.
pub struct PlanView {
    pub new_tab: bool,
    pub size: TerminalSize,
    pub layout: LayoutTree,
    pub panes: Seq<PaneItem>,
}

/// A [`ListingTask`] as a mathematical value.
pub enum TaskView {
    Prepare(PlanView),
    Perform(Seq<ActionView>),
    End(Seq<ActionView>, Result<(), TmuxError>),
}

impl View for ListingTask {
    type V = TaskView;

    open spec fn view(&self) -> TaskView {
        match *self {
            ListingTask::Prepare(plan) => TaskView::Prepare(
                PlanView {
                    new_tab: plan.new_tab,
                    size: plan.size,
                    layout: plan.layout@,
                    panes: plan.panes@,
                },
            ),
            ListingTask::Perform(actions) => TaskView::Perform(action_views(actions@)),
            ListingTask::End(actions, result) => TaskView::End(action_views(actions@), result),
        }
    }
}

/// What has to be created before a tab can be brought in line with a window.
pub open spec fn window_plan(v: DomainView, window: WindowView) -> PlanView {
    let layout = layout_of(window.window_layout)->0;
    PlanView {
        new_tab: !v.tabs.dom().contains(window.window_id),
        size: TerminalSize {
            rows: window.window_height as usize,
            cols: window.window_width as usize,
            pixel_width: 0,
            pixel_height: 0,
            dpi: 0,
        },
        layout,
        panes: planned(v, window.window_id, layout.leaves()),
    }
}

/// A state, the window whose turn it is, and what to do.
pub struct ListingStep {
    pub view: DomainView,
    pub next: int,
    pub task: TaskView,
}

/// The end of a list: no window has its turn any more.
pub open spec fn ended(
    view: DomainView,
    windows: Seq<WindowView>,
    actions: Seq<ActionView>,
    result: Result<(), TmuxError>,
) -> ListingStep {
    ListingStep { view, next: windows.len() as int, task: TaskView::End(actions, result) }
}

/// The turn of the first window from `i` on that is concerned; the end of the list if there
/// is none.
pub open spec fn turn_taken(v: DomainView, windows: Seq<WindowView>, i: int) -> ListingStep
    decreases windows.len() - i,
{
    if i >= windows.len() {
        let step = windows_listed(v, windows);
        ended(step.view, windows, step.actions, Ok(()))
    } else if is_synced(v, windows[i]) {
        ListingStep { view: v, next: i, task: TaskView::Prepare(window_plan(v, windows[i])) }
    } else {
        turn_taken(v, windows, i + 1)
    }
}

/// The next step through a list of windows. A window whose layout cannot be applied, or whose
/// tab cannot be linked, ends the list; a window is backfilled once its tab is linked, and only
/// then comes the turn of the next.
pub open spec fn listing_step(
    v: DomainView,
    windows: Seq<WindowView>,
    new_window: bool,
    next: int,
    event: ListingEventView,
) -> ListingStep {
    match event {
        ListingEventView::Begin => turn_taken(v, windows, next),
        ListingEventView::Prepared { tab, facts } => if next < windows.len() {
            let outcome = window_synced(v, windows[next], new_window, tab, facts);
            match outcome.result {
                Ok(_) => ListingStep {
                    view: outcome.view,
                    next,
                    task: TaskView::Perform(outcome.actions),
                },
                Err(e) => ended(outcome.view, windows, outcome.actions, Err(e)),
            }
        } else {
            ended(v, windows, Seq::empty(), Ok(()))
        },
        ListingEventView::Performed { linked } => if next < windows.len() {
            if linked {
                turn_taken(window_backfilled(v, windows[next]), windows, next + 1)
            } else {
                ended(
                    v,
                    windows,
                    Seq::empty(),
                    Err(TmuxError::TabNotLinked(windows[next].window_id)),
                )
            }
        } else {
            ended(v, windows, Seq::empty(), Ok(()))
        },
    }
}

impl WindowListing {
    /// A list whose first window has its turn.
    pub fn new(windows: Vec<WindowItem>, new_window: bool) -> (r: Self)
        ensures
            r.windows@ == windows@,
            r.new_window == new_window,
            r.next == 0,
    {
        Self { windows, new_window, next: 0 }
    }
}

impl TmuxDomainState {
    /// Gives the turn to the first window from the next one on that is concerned.
    fn take_turn(&mut self, listing: &mut WindowListing) -> (task: ListingTask)
        requires
            old(listing).next <= old(listing).windows@.len(),
        ensures
            final(listing).windows@ == old(listing).windows@,
            final(listing).new_window == old(listing).new_window,
            final(listing).next <= final(listing).windows@.len(),
            turn_taken(
                old(self)@,
                window_views(old(listing).windows@),
                old(listing).next as int,
            ) == (ListingStep {
                view: final(self)@,
                next: final(listing).next as int,
                task: task@,
            }),
    {
        let ghost all = window_views(listing.windows@);
        let ghost first = listing.next as int;
        while listing.next < listing.windows.len()
            invariant
                listing.next <= listing.windows@.len(),
                listing.windows@ == old(listing).windows@,
                listing.new_window == old(listing).new_window,
                all == window_views(listing.windows@),
                first == old(listing).next,
                *self == *old(self),
                turn_taken(self@, all, first) == turn_taken(self@, all, listing.next as int),
            decreases listing.windows@.len() - listing.next,
        {
            assert(all[listing.next as int] == listing.windows@[listing.next as int]@);
            if let Some(plan) = self.plan_window(&listing.windows[listing.next]) {
                return ListingTask::Prepare(plan);
            }
            listing.next += 1;
        }
        let mut actions: Vec<Action> = Vec::new();
        assert(action_views(actions@) == Seq::<ActionView>::empty());
        let action = self.finish_window_sync(&listing.windows);
        push_opt_action(&mut actions, action);
        assert(action_views(actions@) == opt_action(action));
        ListingTask::End(actions, Ok(()))
    }

    /// Takes the next step through a list of windows.
    pub fn step_listing(&mut self, listing: &mut WindowListing, event: ListingEvent) -> (task:
        ListingTask)
        requires
            old(listing).next <= old(listing).windows@.len(),
            old(listing).next < old(listing).windows@.len() ==> (event matches
                ListingEvent::Prepared { facts, .. } ==> {
                let window = old(listing).windows@[old(listing).next as int]@;
                layout_of(window.window_layout) matches Some(tree) ==> is_synced(old(self)@, window)
                    && is_ready(old(self)@, window.window_id, tree, facts@) ==> window_fits(
                    tree,
                    cell_pixels(facts.dimensions),
                )
            }),
        ensures
            final(listing).windows@ == old(listing).windows@,
            final(listing).new_window == old(listing).new_window,
            final(listing).next <= final(listing).windows@.len(),
            listing_step(
                old(self)@,
                window_views(old(listing).windows@),
                old(listing).new_window,
                old(listing).next as int,
                event@,
            ) == (ListingStep {
                view: final(self)@,
                next: final(listing).next as int,
                task: task@,
            }),
    {
        let ghost all = window_views(listing.windows@);
        let nothing: Vec<Action> = Vec::new();
        assert(action_views(nothing@) == Seq::<ActionView>::empty());
        let n = listing.next;
        match event {
            ListingEvent::Begin => self.take_turn(listing),
            ListingEvent::Prepared { tab, facts } => {
                if n >= listing.windows.len() {
                    return ListingTask::End(nothing, Ok(()));
                }
                assert(all[n as int] == listing.windows@[n as int]@);
                let (actions, result) = self.sync_window_state(
                    &listing.windows[n],
                    listing.new_window,
                    tab,
                    &facts,
                );
                match result {
                    Ok(()) => ListingTask::Perform(actions),
                    Err(e) => {
                        listing.next = listing.windows.len();
                        ListingTask::End(actions, Err(e))
                    },
                }
            },
            ListingEvent::Performed { linked } => {
                if n >= listing.windows.len() {
                    return ListingTask::End(nothing, Ok(()));
                }
                assert(all[n as int] == listing.windows@[n as int]@);
                if !linked {
                    let window_id = listing.windows[n].window_id;
                    listing.next = listing.windows.len();
                    return ListingTask::End(nothing, Err(TmuxError::TabNotLinked(window_id)));
                }
                self.backfill_window(&listing.windows[n]);
                listing.next = n + 1;
                self.take_turn(listing)
            },
        }
    }
}

// ---------------------------------------------------------------------------
// The whole list
// ---------------------------------------------------------------------------

/// What the multiplexer says about one window of a list.
pub struct WindowAnswer {
    pub tab: TabId,
    pub facts: FactsView,
    pub linked: bool,
}

/// The outcome for one window whose turn it is.
pub open spec fn window_taken(
    v: DomainView,
    window: WindowView,
    new_window: bool,
    answer: WindowAnswer,
) -> Outcome {
    let outcome = window_synced(v, window, new_window, answer.tab, answer.facts);
    if outcome.result is Ok && !answer.linked {
        Outcome { result: Err(TmuxError::TabNotLinked(window.window_id)), ..outcome }
    } else {
        outcome
    }
}

/// The outcome of a list of windows, from the window `i` on, where `answers` holds what the
/// multiplexer says about each: windows that are not concerned are passed over, the others are
/// taken in order, and each is backfilled behind its link. The first failure ends the list
/// there; only a list that came through asks for the panes of the active window and for the
/// end of the attaching.
pub open spec fn windows_taken(
    v: DomainView,
    windows: Seq<WindowView>,
    new_window: bool,
    i: int,
    answers: Seq<WindowAnswer>,
) -> Outcome
    decreases windows.len() - i,
{
    if i >= windows.len() {
        let step = windows_listed(v, windows);
        Outcome { view: step.view, actions: step.actions, result: Ok(()) }
    } else if !is_synced(v, windows[i]) {
        windows_taken(v, windows, new_window, i + 1, answers)
    } else {
        let taken = window_taken(v, windows[i], new_window, answers[i]);
        if taken.result is Err {
            taken
        } else {
            let rest = windows_taken(
                window_backfilled(taken.view, windows[i]),
                windows,
                new_window,
                i + 1,
                answers,
            );
            Outcome { actions: taken.actions + rest.actions, ..rest }
        }
    }
}

/// What is left of a list after a step that gives a window its turn or ends the list, with the
/// actions `done` before.
pub open spec fn completed(
    step: ListingStep,
    windows: Seq<WindowView>,
    new_window: bool,
    answers: Seq<WindowAnswer>,
    done: Seq<ActionView>,
) -> Outcome {
    match step.task {
        TaskView::End(actions, result) => Outcome {
            view: step.view,
            actions: done + actions,
            result,
        },
        _ => {
            let rest = windows_taken(step.view, windows, new_window, step.next, answers);
            Outcome { actions: done + rest.actions, ..rest }
        },
    }
}

/// Giving a window its turn is the first step through the list: the window is concerned, and
/// all that were passed over are not.
pub proof fn law_turns_go_by_the_list(
    v: DomainView,
    windows: Seq<WindowView>,
    new_window: bool,
    i: int,
    answers: Seq<WindowAnswer>,
)
    requires
        0 <= i,
    ensures
        ({
            let step = turn_taken(v, windows, i);
            &&& !(step.task is Perform)
            &&& step.task is Prepare ==> i <= step.next < windows.len() && step.view == v
                && is_synced(v, windows[step.next])
            &&& completed(step, windows, new_window, answers, Seq::empty()) == windows_taken(
                v,
                windows,
                new_window,
                i,
                answers,
            )
        }),
    decreases windows.len() - i,
{
    let step = turn_taken(v, windows, i);
    let whole = windows_taken(v, windows, new_window, i, answers);
    if i < windows.len() && !is_synced(v, windows[i]) {
        law_turns_go_by_the_list(v, windows, new_window, i + 1, answers);
    } else {
        assert(Seq::<ActionView>::empty() + whole.actions == whole.actions);
    }
}

/// A window that has its turn is prepared, its actions are performed, and the next window gets
/// its turn: so the list is gone through to the outcome of the whole list.
pub proof fn law_steps_go_through_the_list(
    v: DomainView,
    windows: Seq<WindowView>,
    new_window: bool,
    n: int,
    answers: Seq<WindowAnswer>,
)
    requires
        0 <= n < windows.len(),
        is_synced(v, windows[n]),
    ensures
        ({
            let answer = answers[n];
            let whole = windows_taken(v, windows, new_window, n, answers);
            let prepared = listing_step(
                v,
                windows,
                new_window,
                n,
                ListingEventView::Prepared { tab: answer.tab, facts: answer.facts },
            );
            match prepared.task {
                TaskView::Perform(actions) => {
                    let performed = listing_step(
                        prepared.view,
                        windows,
                        new_window,
                        prepared.next,
                        ListingEventView::Performed { linked: answer.linked },
                    );
                    completed(performed, windows, new_window, answers, actions) == whole
                },
                _ => completed(prepared, windows, new_window, answers, Seq::empty()) == whole,
            }
        }),
{
    let answer = answers[n];
    let whole = windows_taken(v, windows, new_window, n, answers);
    let outcome = window_synced(v, windows[n], new_window, answer.tab, answer.facts);
    if outcome.result is Err {
        assert(Seq::<ActionView>::empty() + whole.actions == whole.actions);
    } else if !answer.linked {
        assert(outcome.actions + Seq::<ActionView>::empty() == outcome.actions);
    } else {
        let next = window_backfilled(outcome.view, windows[n]);
        law_turns_go_by_the_list(next, windows, new_window, n + 1, answers);
        let step = turn_taken(next, windows, n + 1);
        let rest = windows_taken(next, windows, new_window, n + 1, answers);
        let after = completed(step, windows, new_window, answers, Seq::empty());
        match step.task {
            TaskView::End(actions, _) => {
                assert(Seq::<ActionView>::empty() + actions == actions);
            },
            _ => {
                let left = windows_taken(step.view, windows, new_window, step.next, answers);
                assert(Seq::<ActionView>::empty() + left.actions == left.actions);
            },
        }
        assert(after == rest);
    }
}

/// A list that fails stops at the window that failed: the state is the one which that window
/// left, before its own backfill, and nothing is asked for any more. A list that does not fail
/// ends with the asking.
pub proof fn law_failure_ends_the_list(
    v: DomainView,
    windows: Seq<WindowView>,
    new_window: bool,
    i: int,
    answers: Seq<WindowAnswer>,
)
    requires
        0 <= i,
    ensures
        ({
            let whole = windows_taken(v, windows, new_window, i, answers);
            match whole.result {
                Ok(_) => exists|w: DomainView| #[trigger]
                    windows_listed(w, windows).view == whole.view,
                Err(e) => exists|w: DomainView, n: int|
                    i <= n < windows.len() && is_synced(w, windows[n]) && (
                    #[trigger] window_taken(w, windows[n], new_window, answers[n])).view
                        == whole.view && window_taken(
                        w,
                        windows[n],
                        new_window,
                        answers[n],
                    ).result == Err::<(), TmuxError>(e),
            }
        }),
    decreases windows.len() - i,
{
    let whole = windows_taken(v, windows, new_window, i, answers);
    if i >= windows.len() {
        assert(windows_listed(v, windows).view == whole.view);
    } else if !is_synced(v, windows[i]) {
        law_failure_ends_the_list(v, windows, new_window, i + 1, answers);
    } else {
        let taken = window_taken(v, windows[i], new_window, answers[i]);
        if taken.result is Ok {
            law_failure_ends_the_list(
                window_backfilled(taken.view, windows[i]),
                windows,
                new_window,
                i + 1,
                answers,
            );
        }
    }
}

} // verus!
