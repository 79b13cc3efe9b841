//! The interactive viewer, as a state machine.
//!
//! The viewer owns the terminal's display mode from the moment it is made
//! until it terminates. Its caller does the drawing and the reading: it
//! reports what happened as a [`ViewerEvent`] and is told what to do next as
//! an [`Action`]. The viewer terminates on a press of the quit key and on a
//! fault, and tells its caller to restore the terminal exactly then.

use vstd::prelude::*;

verus! {

/// The key that ends the session.
pub const QUIT_KEY: char = 'q';

/// How a key event came about.
#[derive(Clone, Copy, Debug, PartialEq, Eq, Structural)]
pub enum KeyKind {
    Press,
    Repeat,
    Release,
}

/// The key of a key event: a character key, or any other.
#[derive(Clone, Copy, Debug, PartialEq, Eq, Structural)]
pub enum Key {
    Char(char),
    Other,
}

/// What the terminal reports: a key event, or anything else (a resize, the
/// mouse, an event that could not be read).
#[derive(Clone, Copy, Debug, PartialEq, Eq, Structural)]
pub enum InputEvent {
    Key { key: Key, kind: KeyKind },
    Other,
}

/// What the caller reports to the viewer.
#[derive(Clone, Copy, Debug, PartialEq, Eq, Structural)]
pub enum ViewerEvent {
    /// An event was taken from the input queue.
    Input(InputEvent),
    /// The input queue has been read to its end.
    Drained,
    /// Drawing or reading failed, or the session is being abandoned.
    Fault,
}

/// What the caller has to do next.
#[derive(Clone, Copy, Debug, PartialEq, Eq, Structural)]
pub enum Action {
    /// Draw a frame for the terminal's current size, then wait for input.
    Redraw,
    /// Take the next event from the input queue.
    ReadNext,
    /// Give the terminal its ordinary display mode back and stop.
    Restore,
    /// Nothing: the session is over.
    Idle,
}

/// Whether the viewer is still running.
#[derive(Clone, Copy, Debug, PartialEq, Eq, Structural)]
pub enum ViewerState {
    Active,
    Terminated,
}

/// Whether the event is a press of the quit key.
pub open spec fn is_quit(event: InputEvent) -> bool {
    event == (InputEvent::Key { key: Key::Char(QUIT_KEY), kind: KeyKind::Press })
}

/// The state after an event, and the action it calls for.
pub open spec fn step(state: ViewerState, event: ViewerEvent) -> (ViewerState, Action) {
    match state {
        ViewerState::Terminated => (ViewerState::Terminated, Action::Idle),
        ViewerState::Active => match event {
            ViewerEvent::Input(input) => if is_quit(input) {
                (ViewerState::Terminated, Action::Restore)
            } else {
                (ViewerState::Active, Action::ReadNext)
            },
            ViewerEvent::Drained => (ViewerState::Active, Action::Redraw),
            ViewerEvent::Fault => (ViewerState::Terminated, Action::Restore),
        },
    }
}

/// The state after a sequence of events.
pub open spec fn state_after(state: ViewerState, events: Seq<ViewerEvent>) -> ViewerState
    decreases events.len(),
{
    if events.len() == 0 {
        state
    } else {
        step(state_after(state, events.drop_last()), events.last()).0
    }
}

/// The actions that a sequence of events calls for, one per event.
pub open spec fn actions_of(state: ViewerState, events: Seq<ViewerEvent>) -> Seq<Action>
    decreases events.len(),
{
    if events.len() == 0 {
        Seq::empty()
    } else {
        actions_of(state, events.drop_last()).push(
            step(state_after(state, events.drop_last()), events.last()).1,
        )
    }
}

/// How often `action` occurs among `actions`.
pub open spec fn occurrences(actions: Seq<Action>, action: Action) -> nat
    decreases actions.len(),
{
    if actions.len() == 0 {
        0
    } else {
        occurrences(actions.drop_last(), action) + if actions.last() == action {
            1nat
        } else {
            0nat
        }
    }
}

/// The events of one polling cycle in which `inputs` were queued: each of
/// them in turn, then the end of the queue.
pub open spec fn polling_cycle(inputs: Seq<InputEvent>) -> Seq<ViewerEvent> {
    inputs.map_values(|input: InputEvent| ViewerEvent::Input(input)).push(ViewerEvent::Drained)
}

/// Tells whether the event is a press of the quit key.
pub fn is_quit_event(event: &InputEvent) -> (quit: bool)
    ensures
        quit == is_quit(*event),
{
    match event {
        InputEvent::Key { key: Key::Char(c), kind: KeyKind::Press } => *c == QUIT_KEY,
        _ => false,
    }
}

/// The hold on the terminal's display mode: the alternate screen and raw
/// input. It cannot be duplicated, and it is given up at most once.
#[derive(Debug)]
pub struct TermHandler {
    held: bool,
}

impl TermHandler {
    /// Whether the terminal mode is still held.
    pub closed spec fn held(&self) -> bool {
        self.held
    }

    /// Takes hold of the terminal mode.
    pub fn new() -> (handler: TermHandler)
        ensures
            handler.held(),
    {
        TermHandler { held: true }
    }

    /// Tells whether the terminal mode is still held.
    pub fn is_held(&self) -> (held: bool)
        ensures
            held == self.held(),
    {
        self.held
    }

    /// Gives up the terminal mode. Returns whether this call gave it up, so
    /// that the caller restores the terminal now: of any number of calls,
    /// only the first returns `true`.
    pub fn release(&mut self) -> (restore: bool)
        ensures
            restore == old(self).held(),
            !final(self).held(),
    {
        let restore = self.held;
        self.held = false;
        restore
    }
}

/// An interactive viewing session.
#[derive(Debug)]
pub struct Viewer {
    terminal: TermHandler,
}

impl Viewer {
    /// The state of the session: it is active as long as it holds the
    /// terminal mode.
    pub closed spec fn state(&self) -> ViewerState {
        if self.terminal.held() {
            ViewerState::Active
        } else {
            ViewerState::Terminated
        }
    }

    /// Starts a session. The caller has entered the alternate screen and
    /// raw mode, and draws the first frame next.
    pub fn new() -> (viewer: Viewer)
        ensures
            viewer.state() == ViewerState::Active,
    {
        Viewer { terminal: TermHandler::new() }
    }

    /// Tells whether the session is over.
    pub fn is_terminated(&self) -> (terminated: bool)
        ensures
            terminated == (self.state() == ViewerState::Terminated),
    {
        !self.terminal.is_held()
    }

    /// Takes note of an event and tells what to do next.
    pub fn handle(&mut self, event: ViewerEvent) -> (action: Action)
        ensures
            (final(self).state(), action) == step(old(self).state(), event),
    {
        if !self.terminal.is_held() {
            return Action::Idle;
        }
        match event {
            ViewerEvent::Input(input) => {
                if is_quit_event(&input) {
                    self.terminal.release();
                    Action::Restore
                } else {
                    Action::ReadNext
                }
            },
            ViewerEvent::Drained => Action::Redraw,
            ViewerEvent::Fault => {
                self.terminal.release();
                Action::Restore
            },
        }
    }
}

/// Once terminated, a session stays terminated and calls for nothing more.
pub proof fn lemma_terminated_is_final(events: Seq<ViewerEvent>)
    ensures
        state_after(ViewerState::Terminated, events) == ViewerState::Terminated,
        occurrences(actions_of(ViewerState::Terminated, events), Action::Restore) == 0,
        occurrences(actions_of(ViewerState::Terminated, events), Action::Redraw) == 0,
    decreases events.len(),
{
    if events.len() > 0 {
        lemma_terminated_is_final(events.drop_last());
        let actions = actions_of(ViewerState::Terminated, events);
        assert(actions.drop_last() =~= actions_of(ViewerState::Terminated, events.drop_last()));
    }
}

/// A session that has terminated at some point of a sequence of events is
/// terminated at its end.
pub proof fn lemma_termination_lasts(state: ViewerState, events: Seq<ViewerEvent>, n: int)
    requires
        0 <= n <= events.len(),
        state_after(state, events.take(n)) == ViewerState::Terminated,
    ensures
        state_after(state, events) == ViewerState::Terminated,
    decreases events.len() - n,
{
    if n < events.len() {
        assert(events.take(n + 1).drop_last() =~= events.take(n));
        lemma_termination_lasts(state, events, n + 1);
    } else {
        assert(events.take(n) =~= events);
    }
}

/// A press of the quit key terminates the session as soon as it is taken
/// from the queue, wherever in the queue it stands, and the session is
/// terminated at the end of that polling cycle.
pub proof fn lemma_quit_terminates(events: Seq<ViewerEvent>, at: int)
    requires
        0 <= at < events.len(),
        events[at] matches ViewerEvent::Input(input) && is_quit(input),
    ensures
        state_after(ViewerState::Active, events.take(at + 1)) == ViewerState::Terminated,
        state_after(ViewerState::Active, events) == ViewerState::Terminated,
{
    lemma_termination_lasts(ViewerState::Active, events, at + 1);
}

/// Events that are no press of the quit key leave the session active and
/// call for no redraw, however many they are.
pub proof fn lemma_other_inputs_keep_active(inputs: Seq<InputEvent>)
    requires
        forall|i: int| 0 <= i < inputs.len() ==> !is_quit(#[trigger] inputs[i]),
    ensures
        state_after(
            ViewerState::Active,
            inputs.map_values(|input: InputEvent| ViewerEvent::Input(input)),
        ) == ViewerState::Active,
        occurrences(
            actions_of(
                ViewerState::Active,
                inputs.map_values(|input: InputEvent| ViewerEvent::Input(input)),
            ),
            Action::Redraw,
        ) == 0,
        occurrences(
            actions_of(
                ViewerState::Active,
                inputs.map_values(|input: InputEvent| ViewerEvent::Input(input)),
            ),
            Action::Restore,
        ) == 0,
    decreases inputs.len(),
{
    let events = inputs.map_values(|input: InputEvent| ViewerEvent::Input(input));
    if inputs.len() > 0 {
        let shorter = inputs.drop_last();
        lemma_other_inputs_keep_active(shorter);
        assert(events.drop_last() =~= shorter.map_values(
            |input: InputEvent| ViewerEvent::Input(input),
        ));
        let actions = actions_of(ViewerState::Active, events);
        assert(actions.drop_last() =~= actions_of(ViewerState::Active, events.drop_last()));
    }
}

/// A polling cycle without a press of the quit key leaves the session
/// active and calls for exactly one redraw, however many events were queued.
pub proof fn lemma_other_keys_redraw_once(inputs: Seq<InputEvent>)
    requires
        forall|i: int| 0 <= i < inputs.len() ==> !is_quit(#[trigger] inputs[i]),
    ensures
        state_after(ViewerState::Active, polling_cycle(inputs)) == ViewerState::Active,
        occurrences(actions_of(ViewerState::Active, polling_cycle(inputs)), Action::Redraw) == 1,
        actions_of(ViewerState::Active, polling_cycle(inputs)).last() == Action::Redraw,
{
    let read = inputs.map_values(|input: InputEvent| ViewerEvent::Input(input));
    let cycle = polling_cycle(inputs);
    lemma_other_inputs_keep_active(inputs);
    assert(cycle.drop_last() =~= read);
    let actions = actions_of(ViewerState::Active, cycle);
    assert(actions.drop_last() =~= actions_of(ViewerState::Active, read));
}

/// Whatever happens in a session, the caller is told to restore the
/// terminal at most once: exactly once if the session has terminated, be it
/// by the quit key or by a fault, and not before.
pub proof fn lemma_restored_exactly_once(events: Seq<ViewerEvent>)
    ensures
        occurrences(actions_of(ViewerState::Active, events), Action::Restore) == (if state_after(
            ViewerState::Active,
            events,
        ) == ViewerState::Terminated {
            1nat
        } else {
            0nat
        }),
    decreases events.len(),
{
    if events.len() > 0 {
        lemma_restored_exactly_once(events.drop_last());
        let actions = actions_of(ViewerState::Active, events);
        assert(actions.drop_last() =~= actions_of(ViewerState::Active, events.drop_last()));
    }
}

/// A fault terminates the session.
pub proof fn lemma_fault_terminates(events: Seq<ViewerEvent>, at: int)
    requires
        0 <= at < events.len(),
        events[at] == ViewerEvent::Fault,
    ensures
        state_after(ViewerState::Active, events) == ViewerState::Terminated,
{
    lemma_termination_lasts(ViewerState::Active, events, at + 1);
}

} // verus!
