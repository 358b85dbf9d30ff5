use gl_harness::dispatch::{Dispatcher, Phase, RunConfig};
use gl_harness::event::{Action, ElementState, Event, Key, MouseButton};

fn escape_down() -> Event {
    Event::KeyboardInput { state: ElementState::Pressed, key: Key::Escape }
}

fn active(config: RunConfig) -> Dispatcher {
    let mut dispatcher = Dispatcher::new(config);
    dispatcher.handle(Event::Resumed);
    dispatcher
}

#[test]
fn continuous_mode_is_visible_and_keeps_running() {
    let config = RunConfig::continuous();
    assert_eq!(config, RunConfig { visible: true, close_promptly: false });
}

#[test]
fn single_shot_mode_closes_promptly() {
    assert_eq!(RunConfig::single_shot(true), RunConfig { visible: true, close_promptly: true });
    assert_eq!(RunConfig::single_shot(false), RunConfig { visible: false, close_promptly: true });
}

#[test]
fn new_dispatcher_is_suspended() {
    let dispatcher = Dispatcher::new(RunConfig::continuous());
    assert_eq!(dispatcher.phase(), Phase::Suspended);
    assert!(!dispatcher.is_exiting());
    assert_eq!(dispatcher.config(), RunConfig::continuous());
    assert_eq!(dispatcher.mouse().get_position(), (0, 0));
    assert_eq!(dispatcher.mouse().get_delta(), (0, 0));
}

#[test]
fn resume_creates_the_state() {
    let mut dispatcher = Dispatcher::new(RunConfig::continuous());
    let actions = dispatcher.handle(Event::Resumed);
    assert_eq!(actions, vec![Action::CreateState { visible: true }]);
    assert_eq!(dispatcher.phase(), Phase::Active);
    assert!(!dispatcher.is_exiting());
}

#[test]
fn single_shot_invisible_exits_on_resume_without_drawing() {
    let mut dispatcher = Dispatcher::new(RunConfig::single_shot(false));
    let events = vec![
        Event::Resumed,
        Event::AboutToWait,
        Event::RedrawRequested,
        Event::RedrawRequested,
    ];
    let trace = dispatcher.run(&events);
    assert_eq!(trace, vec![Action::CreateState { visible: false }, Action::Exit]);
    assert!(dispatcher.is_exiting());
    assert!(!trace.contains(&Action::DrawFrame));
    assert!(!trace.contains(&Action::Update));
}

#[test]
fn single_shot_invisible_ignores_redraws_before_resume() {
    let mut dispatcher = Dispatcher::new(RunConfig::single_shot(false));
    let events = vec![Event::RedrawRequested, Event::AboutToWait, Event::Resumed];
    let trace = dispatcher.run(&events);
    assert_eq!(trace, vec![Action::CreateState { visible: false }, Action::Exit]);
    assert!(dispatcher.is_exiting());
}

#[test]
fn single_shot_visible_draws_one_frame_then_exits() {
    let mut dispatcher = Dispatcher::new(RunConfig::single_shot(true));
    let events = vec![
        Event::Resumed,
        Event::AboutToWait,
        Event::RedrawRequested,
        Event::AboutToWait,
        Event::RedrawRequested,
    ];
    let trace = dispatcher.run(&events);
    assert_eq!(
        trace,
        vec![
            Action::CreateState { visible: true },
            Action::RequestRedraw,
            Action::Update,
            Action::DrawFrame,
            Action::Exit,
        ]
    );
    assert!(dispatcher.is_exiting());
}

#[test]
fn single_shot_visible_does_not_exit_on_resume() {
    let mut dispatcher = Dispatcher::new(RunConfig::single_shot(true));
    let actions = dispatcher.handle(Event::Resumed);
    assert_eq!(actions, vec![Action::CreateState { visible: true }]);
    assert!(!dispatcher.is_exiting());
}

#[test]
fn continuous_mode_draws_on_every_redraw() {
    let mut dispatcher = active(RunConfig::continuous());
    for _ in 0..3 {
        let actions = dispatcher.handle(Event::RedrawRequested);
        assert_eq!(actions, vec![Action::Update, Action::DrawFrame]);
        assert!(!dispatcher.is_exiting());
    }
}

#[test]
fn continuous_mode_requests_a_redraw_after_every_idle_cycle() {
    let mut dispatcher = active(RunConfig::continuous());
    assert_eq!(dispatcher.handle(Event::AboutToWait), vec![Action::RequestRedraw]);
    assert_eq!(dispatcher.handle(Event::AboutToWait), vec![Action::RequestRedraw]);
}

#[test]
fn nothing_is_drawn_while_suspended() {
    let mut dispatcher = Dispatcher::new(RunConfig::continuous());
    assert_eq!(dispatcher.handle(Event::RedrawRequested), vec![]);
    assert_eq!(dispatcher.handle(Event::AboutToWait), vec![]);
    assert_eq!(dispatcher.handle(Event::Resized { width: 10, height: 10 }), vec![]);
    assert_eq!(dispatcher.handle(Event::Other), vec![]);
    assert_eq!(dispatcher.phase(), Phase::Suspended);
}

#[test]
fn close_request_exits_with_no_further_redraw() {
    let mut dispatcher = Dispatcher::new(RunConfig::continuous());
    let events = vec![
        Event::Resumed,
        Event::RedrawRequested,
        Event::CloseRequested,
        Event::RedrawRequested,
        Event::AboutToWait,
        Event::CursorMoved { x: 5, y: 5 },
    ];
    let trace = dispatcher.run(&events);
    assert_eq!(
        trace,
        vec![
            Action::CreateState { visible: true },
            Action::Update,
            Action::DrawFrame,
            Action::Exit,
        ]
    );
    assert!(dispatcher.is_exiting());
    assert_eq!(dispatcher.mouse().get_position(), (0, 0));
}

#[test]
fn close_request_exits_in_every_mode_and_phase() {
    let configs = [
        RunConfig::continuous(),
        RunConfig::single_shot(true),
        RunConfig::single_shot(false),
        RunConfig { visible: false, close_promptly: false },
    ];
    for config in configs {
        let mut suspended = Dispatcher::new(config);
        assert_eq!(suspended.handle(Event::CloseRequested), vec![Action::Exit]);
        assert!(suspended.is_exiting());
    }
    for config in [RunConfig::continuous(), RunConfig::single_shot(true)] {
        let mut running = active(config);
        assert_eq!(running.handle(Event::CloseRequested), vec![Action::Exit]);
        assert!(running.is_exiting());
    }
}

#[test]
fn escape_down_exits_in_every_mode_and_phase() {
    let configs = [
        RunConfig::continuous(),
        RunConfig::single_shot(true),
        RunConfig::single_shot(false),
    ];
    for config in configs {
        let mut suspended = Dispatcher::new(config);
        assert_eq!(suspended.handle(escape_down()), vec![Action::Exit]);
        assert!(suspended.is_exiting());
    }
    let mut running = active(RunConfig::continuous());
    assert_eq!(running.handle(escape_down()), vec![Action::Exit]);
    assert!(running.is_exiting());
}

#[test]
fn escape_coming_up_is_forwarded() {
    let mut dispatcher = active(RunConfig::continuous());
    let released = Event::KeyboardInput { state: ElementState::Released, key: Key::Escape };
    assert_eq!(dispatcher.handle(released), vec![Action::ForwardEvent]);
    assert!(!dispatcher.is_exiting());
}

#[test]
fn other_keys_are_forwarded() {
    let mut dispatcher = active(RunConfig::continuous());
    let down = Event::KeyboardInput { state: ElementState::Pressed, key: Key::Other };
    let up = Event::KeyboardInput { state: ElementState::Released, key: Key::Other };
    assert_eq!(dispatcher.handle(down), vec![Action::ForwardEvent]);
    assert_eq!(dispatcher.handle(up), vec![Action::ForwardEvent]);
    assert!(!dispatcher.is_exiting());
}

#[test]
fn unknown_events_are_forwarded_while_active() {
    let mut dispatcher = active(RunConfig::continuous());
    assert_eq!(dispatcher.handle(Event::Other), vec![Action::ForwardEvent]);
    dispatcher.handle(Event::Suspended);
    assert_eq!(dispatcher.handle(Event::Other), vec![]);
}

#[test]
fn resize_resizes_the_surface_and_leaves_the_mouse_alone() {
    let mut dispatcher = active(RunConfig::continuous());
    dispatcher.handle(Event::CursorMoved { x: 30, y: 40 });
    dispatcher.handle(Event::CursorMoved { x: 35, y: 38 });
    let actions = dispatcher.handle(Event::Resized { width: 1280, height: 720 });
    assert_eq!(actions, vec![Action::ResizeSurface { width: 1280, height: 720 }]);
    assert_eq!(dispatcher.mouse().get_position(), (35, 38));
    assert_eq!(dispatcher.mouse().get_delta(), (5, -2));
    assert_eq!(dispatcher.phase(), Phase::Active);
    assert!(!dispatcher.is_exiting());
}

#[test]
fn resize_to_nothing_is_passed_on() {
    let mut dispatcher = active(RunConfig::continuous());
    let actions = dispatcher.handle(Event::Resized { width: 0, height: 0 });
    assert_eq!(actions, vec![Action::ResizeSurface { width: 0, height: 0 }]);
}

#[test]
fn suspend_drops_the_state() {
    let mut dispatcher = active(RunConfig::continuous());
    assert_eq!(dispatcher.handle(Event::Suspended), vec![Action::DropState]);
    assert_eq!(dispatcher.phase(), Phase::Suspended);
    assert_eq!(dispatcher.handle(Event::Suspended), vec![]);
    assert_eq!(dispatcher.handle(Event::RedrawRequested), vec![]);
    assert_eq!(dispatcher.handle(Event::Resumed), vec![Action::CreateState { visible: true }]);
    assert_eq!(dispatcher.phase(), Phase::Active);
}

#[test]
fn cursor_move_reports_delta_and_position() {
    let mut dispatcher = Dispatcher::new(RunConfig::continuous());
    let first = dispatcher.handle(Event::CursorMoved { x: 10, y: 20 });
    assert_eq!(first, vec![Action::ReportCursor { delta: (10, 20), position: (10, 20) }]);
    let second = dispatcher.handle(Event::CursorMoved { x: 4, y: 25 });
    assert_eq!(second, vec![Action::ReportCursor { delta: (-6, 5), position: (4, 25) }]);
    assert_eq!(dispatcher.mouse().get_position(), (4, 25));
    assert_eq!(dispatcher.mouse().get_delta(), (-6, 5));
}

#[test]
fn cursor_is_tracked_across_other_events() {
    let mut dispatcher = Dispatcher::new(RunConfig::continuous());
    let events = vec![
        Event::CursorMoved { x: 1, y: 1 },
        Event::Resumed,
        Event::RedrawRequested,
        Event::CursorMoved { x: 3, y: 7 },
        Event::Resized { width: 640, height: 480 },
        Event::Suspended,
        Event::CursorMoved { x: -2, y: 7 },
        Event::Other,
    ];
    dispatcher.run(&events);
    assert_eq!(dispatcher.mouse().get_position(), (-2, 7));
    assert_eq!(dispatcher.mouse().get_delta(), (-5, 0));
}

#[test]
fn cursor_moves_after_exit_are_not_tracked() {
    let mut dispatcher = Dispatcher::new(RunConfig::continuous());
    let events = vec![
        Event::CursorMoved { x: 8, y: 9 },
        escape_down(),
        Event::CursorMoved { x: 100, y: 100 },
    ];
    let trace = dispatcher.run(&events);
    assert_eq!(
        trace,
        vec![Action::ReportCursor { delta: (8, 9), position: (8, 9) }, Action::Exit]
    );
    assert_eq!(dispatcher.mouse().get_position(), (8, 9));
}

#[test]
fn pressed_button_is_reported() {
    let mut dispatcher = Dispatcher::new(RunConfig::continuous());
    let down = Event::MouseInput { state: ElementState::Pressed, button: MouseButton::Left };
    assert_eq!(dispatcher.handle(down), vec![Action::ReportClick { button: MouseButton::Left }]);
    let other = Event::MouseInput { state: ElementState::Pressed, button: MouseButton::Other(9) };
    assert_eq!(
        dispatcher.handle(other),
        vec![Action::ReportClick { button: MouseButton::Other(9) }]
    );
}

#[test]
fn released_button_is_forwarded_not_reported() {
    let mut dispatcher = active(RunConfig::continuous());
    let up = Event::MouseInput { state: ElementState::Released, button: MouseButton::Right };
    assert_eq!(dispatcher.handle(up), vec![Action::ForwardEvent]);
    let other = Event::MouseInput { state: ElementState::Released, button: MouseButton::Other(4) };
    assert_eq!(dispatcher.handle(other), vec![Action::ForwardEvent]);
    assert_eq!(dispatcher.phase(), Phase::Active);
    assert!(!dispatcher.is_exiting());
}

#[test]
fn released_button_goes_nowhere_while_suspended() {
    let mut dispatcher = Dispatcher::new(RunConfig::continuous());
    let up = Event::MouseInput { state: ElementState::Released, button: MouseButton::Left };
    assert_eq!(dispatcher.handle(up), vec![]);
}

#[test]
fn pressed_button_is_not_forwarded() {
    let mut dispatcher = active(RunConfig::continuous());
    let down = Event::MouseInput { state: ElementState::Pressed, button: MouseButton::Middle };
    assert_eq!(
        dispatcher.handle(down),
        vec![Action::ReportClick { button: MouseButton::Middle }]
    );
}

#[test]
fn resume_while_active_releases_the_old_state_first() {
    let mut dispatcher = Dispatcher::new(RunConfig::continuous());
    assert_eq!(dispatcher.handle(Event::Resumed), vec![Action::CreateState { visible: true }]);
    assert_eq!(
        dispatcher.handle(Event::Resumed),
        vec![Action::DropState, Action::CreateState { visible: true }]
    );
    assert_eq!(dispatcher.phase(), Phase::Active);
    assert!(!dispatcher.is_exiting());
}

#[test]
fn resume_while_active_in_single_shot_mode_does_not_exit() {
    let mut dispatcher = active(RunConfig::single_shot(true));
    assert_eq!(
        dispatcher.handle(Event::Resumed),
        vec![Action::DropState, Action::CreateState { visible: true }]
    );
    assert!(!dispatcher.is_exiting());
}

#[test]
fn resume_while_active_and_invisible_releases_the_old_state_first() {
    let config = RunConfig { visible: false, close_promptly: false };
    let mut dispatcher = active(config);
    assert_eq!(
        dispatcher.handle(Event::Resumed),
        vec![Action::DropState, Action::CreateState { visible: false }]
    );
}

#[test]
fn states_are_created_and_released_in_turn() {
    let events = vec![
        Event::Resumed,
        Event::Resumed,
        Event::Suspended,
        Event::Suspended,
        Event::Resumed,
        Event::Resumed,
    ];
    let mut dispatcher = Dispatcher::new(RunConfig::continuous());
    let trace = dispatcher.run(&events);
    let mut exists = false;
    for action in &trace {
        match action {
            Action::CreateState { .. } => {
                assert!(!exists);
                exists = true;
            }
            Action::DropState => {
                assert!(exists);
                exists = false;
            }
            _ => {}
        }
    }
    assert!(exists);
    assert_eq!(
        trace,
        vec![
            Action::CreateState { visible: true },
            Action::DropState,
            Action::CreateState { visible: true },
            Action::DropState,
            Action::CreateState { visible: true },
            Action::DropState,
            Action::CreateState { visible: true },
        ]
    );
}

#[test]
fn redraw_while_active_forwards_nothing() {
    let mut dispatcher = active(RunConfig::continuous());
    let actions = dispatcher.handle(Event::RedrawRequested);
    assert_eq!(actions, vec![Action::Update, Action::DrawFrame]);
    assert!(!actions.contains(&Action::ForwardEvent));
}

#[test]
fn single_shot_visible_suspended_before_redraw_draws_nothing() {
    let mut dispatcher = Dispatcher::new(RunConfig::single_shot(true));
    let events = vec![Event::Resumed, Event::Suspended, Event::RedrawRequested];
    let trace = dispatcher.run(&events);
    assert_eq!(trace, vec![Action::CreateState { visible: true }, Action::DropState]);
    assert!(!dispatcher.is_exiting());
}

#[test]
fn run_equals_handling_one_by_one() {
    let events = vec![
        Event::Resumed,
        Event::CursorMoved { x: 2, y: 3 },
        Event::AboutToWait,
        Event::RedrawRequested,
        Event::Other,
        Event::Suspended,
        Event::Resumed,
        Event::CloseRequested,
        Event::RedrawRequested,
    ];
    let mut whole = Dispatcher::new(RunConfig::continuous());
    let trace = whole.run(&events);
    let mut stepwise = Dispatcher::new(RunConfig::continuous());
    let mut collected: Vec<Action> = Vec::new();
    for event in &events {
        collected.extend(stepwise.handle(*event));
    }
    assert_eq!(trace, collected);
    assert_eq!(whole.phase(), stepwise.phase());
    assert_eq!(whole.is_exiting(), stepwise.is_exiting());
    assert_eq!(whole.mouse().get_position(), stepwise.mouse().get_position());
    assert_eq!(
        trace,
        vec![
            Action::CreateState { visible: true },
            Action::ReportCursor { delta: (2, 3), position: (2, 3) },
            Action::RequestRedraw,
            Action::Update,
            Action::DrawFrame,
            Action::ForwardEvent,
            Action::DropState,
            Action::CreateState { visible: true },
            Action::Exit,
        ]
    );
}

#[test]
fn run_of_no_events_does_nothing() {
    let mut dispatcher = Dispatcher::new(RunConfig::single_shot(true));
    let trace = dispatcher.run(&Vec::new());
    assert_eq!(trace, vec![]);
    assert_eq!(dispatcher.phase(), Phase::Suspended);
    assert!(!dispatcher.is_exiting());
}

#[test]
fn update_always_comes_right_before_draw() {
    let events = vec![
        Event::Resumed,
        Event::RedrawRequested,
        Event::CursorMoved { x: 1, y: 2 },
        Event::RedrawRequested,
        Event::AboutToWait,
        Event::RedrawRequested,
    ];
    let mut dispatcher = Dispatcher::new(RunConfig::continuous());
    let trace = dispatcher.run(&events);
    let mut draws = 0;
    for i in 0..trace.len() {
        if trace[i] == Action::DrawFrame {
            draws += 1;
            assert!(i >= 1);
            assert_eq!(trace[i - 1], Action::Update);
        }
        if trace[i] == Action::Update {
            assert_eq!(trace[i + 1], Action::DrawFrame);
        }
    }
    assert_eq!(draws, 3);
}

#[test]
fn dispatcher_continues_with_the_tracker_it_is_given() {
    let mut mouse = gl_harness::mouse::Mouse::new();
    mouse.update_position(50, 60);
    let mut dispatcher = Dispatcher::with_mouse(RunConfig::continuous(), mouse);
    assert_eq!(dispatcher.phase(), Phase::Suspended);
    assert!(!dispatcher.is_exiting());
    assert_eq!(dispatcher.mouse().get_position(), (50, 60));
    let actions = dispatcher.handle(Event::CursorMoved { x: 45, y: 70 });
    assert_eq!(actions, vec![Action::ReportCursor { delta: (-5, 10), position: (45, 70) }]);
}
