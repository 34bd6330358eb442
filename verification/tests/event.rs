use rvu::{handle_event, Action, ControlState, Extent, Step, ViewerEvent};

#[test]
fn resize_asks_for_a_surface_of_the_new_size() {
    let step: Step = handle_event(ControlState::Running, ViewerEvent::Resized(Extent::new(800, 600)));
    assert_eq!(step.action, Action::ResizeSurface(Extent::new(800, 600)));
    assert_eq!(step.state, ControlState::Running);
}

#[test]
fn change_of_density_asks_for_a_surface_of_the_new_size() {
    let event: ViewerEvent = ViewerEvent::ScaleFactorChanged(Extent::new(1600, 1200));
    let step: Step = handle_event(ControlState::Running, event);
    assert_eq!(step.action, Action::ResizeSurface(Extent::new(1600, 1200)));
    assert_eq!(step.state, ControlState::Running);
}

#[test]
fn resize_to_nothing_is_handed_on_as_it_is() {
    let step: Step = handle_event(ControlState::Running, ViewerEvent::Resized(Extent::new(0, 0)));
    assert_eq!(step.action, Action::ResizeSurface(Extent::new(0, 0)));
}

#[test]
fn redraw_renders() {
    let step: Step = handle_event(ControlState::Running, ViewerEvent::RedrawRequested);
    assert_eq!(step, Step { state: ControlState::Running, action: Action::Render });
}

#[test]
fn close_request_exits() {
    let step: Step = handle_event(ControlState::Running, ViewerEvent::CloseRequested);
    assert_eq!(step, Step { state: ControlState::Exiting, action: Action::Nothing });
}

#[test]
fn escape_exits() {
    let step: Step = handle_event(ControlState::Running, ViewerEvent::EscapePressed);
    assert_eq!(step, Step { state: ControlState::Exiting, action: Action::Nothing });
}

#[test]
fn other_events_change_nothing() {
    let step: Step = handle_event(ControlState::Running, ViewerEvent::Other);
    assert_eq!(step, Step { state: ControlState::Running, action: Action::Nothing });
}

#[test]
fn exiting_loop_stays_exiting() {
    let events: [ViewerEvent; 6] = [
        ViewerEvent::Resized(Extent::new(3, 4)),
        ViewerEvent::ScaleFactorChanged(Extent::new(3, 4)),
        ViewerEvent::CloseRequested,
        ViewerEvent::EscapePressed,
        ViewerEvent::RedrawRequested,
        ViewerEvent::Other,
    ];
    for event in events {
        assert_eq!(handle_event(ControlState::Exiting, event).state, ControlState::Exiting);
    }
}

#[test]
fn action_does_not_depend_on_the_state() {
    let events: [ViewerEvent; 6] = [
        ViewerEvent::Resized(Extent::new(3, 4)),
        ViewerEvent::ScaleFactorChanged(Extent::new(5, 6)),
        ViewerEvent::CloseRequested,
        ViewerEvent::EscapePressed,
        ViewerEvent::RedrawRequested,
        ViewerEvent::Other,
    ];
    for event in events {
        assert_eq!(
            handle_event(ControlState::Exiting, event).action,
            handle_event(ControlState::Running, event).action
        );
    }
}

#[test]
fn loop_runs_until_the_first_request_to_exit() {
    let events: [ViewerEvent; 6] = [
        ViewerEvent::RedrawRequested,
        ViewerEvent::Resized(Extent::new(640, 480)),
        ViewerEvent::Other,
        ViewerEvent::EscapePressed,
        ViewerEvent::RedrawRequested,
        ViewerEvent::Other,
    ];
    let mut state: ControlState = ControlState::Running;
    let mut states: Vec<ControlState> = Vec::new();
    for event in events {
        state = handle_event(state, event).state;
        states.push(state);
    }
    assert_eq!(
        states,
        vec![
            ControlState::Running,
            ControlState::Running,
            ControlState::Running,
            ControlState::Exiting,
            ControlState::Exiting,
            ControlState::Exiting,
        ]
    );
}

#[test]
fn loop_without_a_request_to_exit_keeps_running() {
    let events: [ViewerEvent; 4] = [
        ViewerEvent::RedrawRequested,
        ViewerEvent::Resized(Extent::new(640, 480)),
        ViewerEvent::ScaleFactorChanged(Extent::new(1280, 960)),
        ViewerEvent::Other,
    ];
    let mut state: ControlState = ControlState::Running;
    for event in events {
        state = handle_event(state, event).state;
    }
    assert_eq!(state, ControlState::Running);
}
