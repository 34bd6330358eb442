//! The decisions of the viewer's event loop.

use vstd::prelude::*;
use crate::extent::Extent;

verus! {

/// Whether the event loop goes on.
#[derive(Clone, Copy, Debug, PartialEq, Eq, Structural)]
pub enum ControlState {
    /// The loop waits for the next event.
    Running,
    /// The loop has been asked to stop, and stays so.
    Exiting,
}

/// What the windowing layer reports, reduced to what the viewer reacts to.
#[derive(Clone, Copy, Debug, PartialEq, Eq, Structural)]
pub enum ViewerEvent {
    /// The viewer's window has a new inner size.
    Resized(Extent),
    /// The window moved to a display of another density and has a new inner
    /// size.
    ScaleFactorChanged(Extent),
    /// The user asked to close the window.
    CloseRequested,
    /// The escape key went down.
    EscapePressed,
    /// The window has to be drawn again.
    RedrawRequested,
    /// Anything else, events of other windows included.
    Other,
}

/// What the host does in answer to an event.
#[derive(Clone, Copy, Debug, PartialEq, Eq, Structural)]
pub enum Action {
    /// Resize the presentation surface to the given extent. The backbuffer
    /// keeps its size and contents.
    ResizeSurface(Extent),
    /// Present the backbuffer.
    Render,
    /// Nothing to do.
    Nothing,
}

/// The outcome of one event: the state from then on, and what to do now.
#[derive(Clone, Copy, Debug, PartialEq, Eq, Structural)]
pub struct Step {
    pub state: ControlState,
    pub action: Action,
}

/// Whether an event asks the viewer to stop.
pub open spec fn asks_to_exit(event: ViewerEvent) -> bool {
    event is CloseRequested || event is EscapePressed
}

/// The state after an event.
pub open spec fn next_state(state: ControlState, event: ViewerEvent) -> ControlState {
    if state is Exiting || asks_to_exit(event) {
        ControlState::Exiting
    } else {
        ControlState::Running
    }
}

/// The action that an event calls for.
pub open spec fn action_for(event: ViewerEvent) -> Action {
    match event {
        ViewerEvent::Resized(size) => Action::ResizeSurface(size),
        ViewerEvent::ScaleFactorChanged(size) => Action::ResizeSurface(size),
        ViewerEvent::RedrawRequested => Action::Render,
        _ => Action::Nothing,
    }
}

/// The state after a run of events, taken in order.
pub open spec fn state_after(state: ControlState, events: Seq<ViewerEvent>) -> ControlState
    decreases events.len(),
{
    if events.len() == 0 {
        state
    } else {
        next_state(state_after(state, events.drop_last()), events.last())
    }
}

/// Decides on one event.
pub fn handle_event(state: ControlState, event: ViewerEvent) -> (step: Step)
    ensures
        step.state == next_state(state, event),
        step.action == action_for(event),
        state is Exiting ==> step.state is Exiting,
        step.state is Exiting <==> state is Exiting || asks_to_exit(event),
{
    let action = match event {
        ViewerEvent::Resized(size) => Action::ResizeSurface(size),
        ViewerEvent::ScaleFactorChanged(size) => Action::ResizeSurface(size),
        ViewerEvent::RedrawRequested => Action::Render,
        ViewerEvent::CloseRequested => Action::Nothing,
        ViewerEvent::EscapePressed => Action::Nothing,
        ViewerEvent::Other => Action::Nothing,
    };
    let state = match (state, event) {
        (ControlState::Exiting, _) => ControlState::Exiting,
        (ControlState::Running, ViewerEvent::CloseRequested) => ControlState::Exiting,
        (ControlState::Running, ViewerEvent::EscapePressed) => ControlState::Exiting,
        (ControlState::Running, _) => ControlState::Running,
    };
    Step { state, action }
}

/// Once the loop is exiting, no run of events brings it back.
pub proof fn lemma_exiting_is_final(events: Seq<ViewerEvent>)
    ensures
        state_after(ControlState::Exiting, events) is Exiting,
    decreases events.len(),
{
    if events.len() > 0 {
        lemma_exiting_is_final(events.drop_last());
    }
}

/// A running loop is exiting after a run of events exactly if one of them
/// asked it to stop.
pub proof fn lemma_exits_on_request(events: Seq<ViewerEvent>)
    ensures
        state_after(ControlState::Running, events) is Exiting <==> exists|index: int|
            0 <= index < events.len() && asks_to_exit(#[trigger] events[index]),
    decreases events.len(),
{
    if events.len() > 0 {
        let earlier = events.drop_last();
        lemma_exits_on_request(earlier);
        if state_after(ControlState::Running, events) is Exiting {
            if asks_to_exit(events.last()) {
                assert(asks_to_exit(events[events.len() - 1]));
            } else {
                let index = choose|index: int|
                    0 <= index < earlier.len() && asks_to_exit(#[trigger] earlier[index]);
                assert(asks_to_exit(events[index]));
            }
        }
        if exists|index: int| 0 <= index < events.len() && asks_to_exit(#[trigger] events[index]) {
            let index = choose|index: int|
                0 <= index < events.len() && asks_to_exit(#[trigger] events[index]);
            if index < events.len() - 1 {
                assert(asks_to_exit(earlier[index]));
            }
        }
    }
}

} // verus!
