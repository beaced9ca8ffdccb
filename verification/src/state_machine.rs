//! Simple state machine for a service bunch.

use vstd::prelude::*;

verus! {

/// Events that drive a service bunch from one state to another.
#[derive(Debug, Clone, Copy, PartialEq, Eq, Structural)]
pub enum Event {
    UpdateRequest,
    StopRequest,
    ServicesEstablished,
    UpdatingFinished,
    UpdatingFailed,
}

/// States of a service bunch.
#[derive(Debug, Clone, Copy, PartialEq, Eq, Structural)]
pub enum State {
    Starting,
    Running,
    Updating,
    Stopping,
}

/// The transition table: every pair that is not listed leaves the state
/// unchanged.
pub open spec fn next_state(state: State, event: Event) -> State {
    match (state, event) {
        (State::Running, Event::UpdateRequest) => State::Updating,
        (State::Starting, Event::ServicesEstablished) => State::Running,
        (State::Updating, Event::UpdatingFinished) => State::Running,
        (State::Updating, Event::UpdatingFailed) => State::Running,
        (State::Running, Event::StopRequest) => State::Stopping,
        (State::Updating, Event::StopRequest) => State::Stopping,
        _ => state,
    }
}

/// Holder of the current state of a bunch.
pub struct StateBox(State);

impl View for StateBox {
    type V = State;

    closed spec fn view(&self) -> State {
        self.0
    }
}

impl StateBox {
    /// A fresh state machine starts in `State::Starting`.
    pub fn new() -> (sb: StateBox)
        ensures
            sb@ == State::Starting,
    {
        StateBox(State::Starting)
    }

    /// Applies `event` and returns the state reached.
    pub fn update(&mut self, event: Event) -> (s: &State)
        ensures
            final(self)@ == next_state(old(self)@, event),
            *s == next_state(old(self)@, event),
    {
        match (self.0, event) {
            (State::Running, Event::UpdateRequest) => {
                self.0 = State::Updating;
            },
            (State::Starting, Event::ServicesEstablished)
            | (State::Updating, Event::UpdatingFinished)
            | (State::Updating, Event::UpdatingFailed) => {
                self.0 = State::Running;
            },
            (State::Running, Event::StopRequest) | (State::Updating, Event::StopRequest) => {
                self.0 = State::Stopping;
            },
            _ => {},
        }
        &self.0
    }

    /// The consuming form of `update`.
    #[allow(dead_code)]
    fn _next(self, event: Event) -> (sb: StateBox)
        ensures
            sb@ == next_state(self@, event),
    {
        match (self.0, event) {
            (State::Running, Event::UpdateRequest) => StateBox(State::Updating),
            (State::Starting, Event::ServicesEstablished)
            | (State::Updating, Event::UpdatingFinished)
            | (State::Updating, Event::UpdatingFailed) => StateBox(State::Running),
            (State::Running, Event::StopRequest) | (State::Updating, Event::StopRequest) => {
                StateBox(State::Stopping)
            },
            _ => self,
        }
    }

    /// The current state.
    pub fn current(&self) -> (s: &State)
        ensures
            *s == self@,
    {
        &self.0
    }

    /// Whether the current state is `with`.
    pub fn is(&self, with: State) -> (b: bool)
        ensures
            b == (self@ == with),
    {
        self.0 == with
    }
}

} // verus!

verus! {

/// Once a bunch is stopping, no event moves it out of `State::Stopping`.
pub proof fn lemma_stopping_is_final(event: Event)
    ensures
        next_state(State::Stopping, event) == State::Stopping,
{
}

/// A bunch only enters `State::Updating` from `State::Running`, on an
/// update request.
pub proof fn lemma_updating_entered_only_from_running(state: State, event: Event)
    ensures
        state != State::Updating && next_state(state, event) == State::Updating ==> state
            == State::Running && event == Event::UpdateRequest,
{
}

/// A starting bunch leaves `State::Starting` only when its services are
/// established, and then it is running.
pub proof fn lemma_starting_leaves_only_when_established(event: Event)
    ensures
        next_state(State::Starting, event) != State::Starting ==> event
            == Event::ServicesEstablished && next_state(State::Starting, event) == State::Running,
{
}

/// A stop request stops a running or updating bunch.
pub proof fn lemma_stop_request_stops_active(state: State)
    ensures
        state == State::Running || state == State::Updating ==> next_state(state, Event::StopRequest)
            == State::Stopping,
{
}

/// An update, whether it finishes or fails, brings the bunch back to running.
pub proof fn lemma_update_ends_running(event: Event)
    ensures
        event == Event::UpdatingFinished || event == Event::UpdatingFailed ==> next_state(
            State::Updating,
            event,
        ) == State::Running,
{
}

} // verus!
