//! What holds of every run of the dispatcher, whatever events arrive.

use vstd::prelude::*;
use crate::dispatch::{lemma_nothing_after_exit, lemma_run_concat, DispatcherView, Phase, RunConfig};
use crate::event::{Action, ElementState, Event, Key};
use crate::mouse::lemma_last_two_moves;

verus! {

/// Whether an event asks for the loop to end: a close request, or Escape
/// going down.
pub open spec fn is_quit(event: Event) -> bool {
    event == Event::CloseRequested || event == (Event::KeyboardInput {
        state: ElementState::Pressed,
        key: Key::Escape,
    })
}

/// A close request or Escape going down signals termination in every mode and
/// phase, and asks for nothing else.
pub proof fn lemma_quit_exits(state: DispatcherView, event: Event)
    requires
        is_quit(event),
    ensures
        state.step(event).0.exiting,
        !state.exiting ==> state.step(event) == (state.exit(), seq![Action::Exit]),
{
}

/// Once an event asks for the loop to end, the run is over: termination is
/// signalled, and whatever is delivered after that event changes nothing and
/// asks for nothing.
pub proof fn lemma_quit_ends_run(state: DispatcherView, events: Seq<Event>, i: int)
    requires
        0 <= i < events.len(),
        is_quit(events[i]),
    ensures
        state.run(events).0.exiting,
        state.run(events) == state.run(events.take(i + 1)),
{
    let upto = events.take(i + 1);
    let rest = events.skip(i + 1);
    assert(upto + rest =~= events);
    assert(upto.last() == events[i]);
    lemma_quit_exits(state.run(upto.drop_last()).0, events[i]);
    lemma_run_concat(state, upto, rest);
    lemma_nothing_after_exit(state.run(upto).0, rest);
    assert(state.run(upto).1 + Seq::<Action>::empty() =~= state.run(upto).1);
}

/// In continuous mode nothing but such an event ends the run: termination is
/// signalled exactly when a close request or Escape going down is among the
/// events delivered.
pub proof fn lemma_continuous_runs_until_quit(start: DispatcherView, events: Seq<Event>)
    requires
        !start.config.close_promptly,
        !start.exiting,
    ensures
        start.run(events).0.exiting <==> exists|i: int|
            0 <= i < events.len() && is_quit(#[trigger] events[i]),
    decreases events.len(),
{
    if events.len() > 0 {
        let earlier = events.drop_last();
        lemma_continuous_runs_until_quit(start, earlier);
        lemma_config_is_kept(start, earlier);
        if exists|i: int| 0 <= i < events.len() && is_quit(#[trigger] events[i]) {
            let i = choose|i: int| 0 <= i < events.len() && is_quit(#[trigger] events[i]);
            lemma_quit_ends_run(start, events, i);
        }
        if start.run(events).0.exiting {
            if start.run(earlier).0.exiting {
                let i = choose|i: int| 0 <= i < earlier.len() && is_quit(#[trigger] earlier[i]);
                assert(is_quit(events[i]));
            } else {
                assert(is_quit(events[events.len() - 1]));
            }
        }
    }
}

/// How often `action` occurs in `trace`.
pub open spec fn count(trace: Seq<Action>, action: Action) -> nat
    decreases trace.len(),
{
    if trace.len() == 0 {
        0
    } else {
        count(trace.drop_last(), action) + if trace.last() == action {
            1nat
        } else {
            0nat
        }
    }
}

/// Counting over a concatenation adds up.
pub proof fn lemma_count_concat(first: Seq<Action>, second: Seq<Action>, action: Action)
    ensures
        count(first + second, action) == count(first, action) + count(second, action),
    decreases second.len(),
{
    if second.len() == 0 {
        assert(first + second =~= first);
    } else {
        assert((first + second).drop_last() =~= first + second.drop_last());
        lemma_count_concat(first, second.drop_last(), action);
    }
}

/// An action that does not occur at any index is counted zero times, and the
/// other way round.
pub proof fn lemma_count_zero(trace: Seq<Action>, action: Action)
    ensures
        count(trace, action) == 0 <==> forall|j: int| 0 <= j < trace.len() ==> trace[j] != action,
    decreases trace.len(),
{
    if trace.len() > 0 {
        lemma_count_zero(trace.drop_last(), action);
        if count(trace, action) == 0 {
            assert forall|j: int| 0 <= j < trace.len() implies trace[j] != action by {
                if j < trace.len() - 1 {
                    assert(trace.drop_last()[j] == trace[j]);
                }
            }
        } else if trace.last() != action {
            let j = choose|j: int| 0 <= j < trace.len() - 1 && trace.drop_last()[j] == action;
            assert(trace[j] == action);
        }
    }
}

/// The counts in a sequence of at most three actions, by cases.
proof fn lemma_count_small(actions: Seq<Action>, action: Action)
    requires
        actions.len() <= 3,
    ensures
        actions.len() == 0 ==> count(actions, action) == 0,
        actions.len() == 1 ==> count(actions, action) == if actions[0] == action {
            1nat
        } else {
            0nat
        },
        actions.len() == 2 ==> count(actions, action) == (if actions[0] == action {
            1nat
        } else {
            0nat
        }) + (if actions[1] == action {
            1nat
        } else {
            0nat
        }),
        actions.len() == 3 ==> count(actions, action) == (if actions[0] == action {
            1nat
        } else {
            0nat
        }) + (if actions[1] == action {
            1nat
        } else {
            0nat
        }) + (if actions[2] == action {
            1nat
        } else {
            0nat
        }),
    decreases actions.len(),
{
    if actions.len() > 0 {
        lemma_count_small(actions.drop_last(), action);
    }
}

/// Whether updates and draws come in pairs: each update immediately followed
/// by a draw, each draw immediately preceded by an update.
pub open spec fn frames_are_paired(trace: Seq<Action>) -> bool {
    &&& forall|j: int|
        0 <= j < trace.len() && #[trigger] trace[j] == Action::Update ==> j + 1 < trace.len()
            && trace[j + 1] == Action::DrawFrame
    &&& forall|j: int|
        0 <= j < trace.len() && #[trigger] trace[j] == Action::DrawFrame ==> j >= 1 && trace[j
            - 1] == Action::Update
}

/// In every mode, an update is immediately followed by a draw and a draw
/// immediately preceded by an update.
pub proof fn lemma_update_precedes_draw(start: DispatcherView, events: Seq<Event>)
    ensures
        frames_are_paired(start.run(events).1),
    decreases events.len(),
{
    if events.len() > 0 {
        let earlier = events.drop_last();
        lemma_update_precedes_draw(start, earlier);
        let (before, trace) = start.run(earlier);
        let actions = before.step(events.last()).1;
        let all = trace + actions;
        assert(start.run(events).1 == all);
        assert forall|j: int| 0 <= j < all.len() && #[trigger] all[j] == Action::Update implies j
            + 1 < all.len() && all[j + 1] == Action::DrawFrame by {
            if j < trace.len() {
                assert(trace[j] == Action::Update);
                assert(all[j + 1] == trace[j + 1]);
            } else {
                assert(all[j] == actions[j - trace.len()]);
                assert(all[j + 1] == actions[j + 1 - trace.len()]);
            }
        }
        assert forall|j: int| 0 <= j < all.len() && #[trigger] all[j] == Action::DrawFrame implies j
            >= 1 && all[j - 1] == Action::Update by {
            if j < trace.len() {
                assert(trace[j] == Action::DrawFrame);
                assert(all[j - 1] == trace[j - 1]);
            } else {
                assert(all[j] == actions[j - trace.len()]);
                assert(all[j - 1] == actions[j - 1 - trace.len()]);
            }
        }
    }
}

/// A resume makes the application active and asks for a new state; where one
/// exists already, its release is asked for first.  A run that is to end as
/// soon as its state exists then signals termination.
pub proof fn lemma_resume_renews_state(state: DispatcherView)
    requires
        !state.exiting,
    ensures
        state.step(Event::Resumed).0 == (DispatcherView {
            phase: Phase::Active,
            exiting: state.config.exits_on_resume(),
            ..state
        }),
        state.step(Event::Resumed).1 == state.when_active(seq![Action::DropState]) + seq![
            Action::CreateState { visible: state.config.visible },
        ] + if state.config.exits_on_resume() {
            seq![Action::Exit]
        } else {
            Seq::<Action>::empty()
        },
{
    let renew = state.when_active(seq![Action::DropState]).push(
        Action::CreateState { visible: state.config.visible },
    );
    assert(renew =~= state.when_active(seq![Action::DropState]) + seq![
        Action::CreateState { visible: state.config.visible },
    ]);
    assert(renew.push(Action::Exit) =~= renew + seq![Action::Exit]);
    assert(renew =~= renew + Seq::<Action>::empty());
}

/// The resume of a suspended single-shot run with an invisible window asks
/// for the state, then signals termination: no update and no draw.
pub proof fn lemma_headless_resume(state: DispatcherView)
    requires
        !state.exiting,
        state.phase == Phase::Suspended,
        state.config.exits_on_resume(),
    ensures
        state.step(Event::Resumed) == (
            DispatcherView { phase: Phase::Active, exiting: true, ..state },
            seq![Action::CreateState { visible: false }, Action::Exit],
        ),
{
    assert(state.step(Event::Resumed).1 =~= seq![
        Action::CreateState { visible: false },
        Action::Exit,
    ]);
}

/// Whether a state belongs to a run that ends as soon as its window exists:
/// it is configured so, and where the window exists, termination has been
/// signalled.
pub open spec fn ends_on_resume(state: DispatcherView) -> bool {
    state.config.exits_on_resume() && (state.phase == Phase::Active ==> state.exiting)
}

/// A run that ends as soon as its window exists never updates or draws, and
/// creates its state at most once; once a resume has been delivered,
/// termination is signalled.
pub proof fn lemma_invisible_single_shot_never_draws(start: DispatcherView, events: Seq<Event>)
    requires
        ends_on_resume(start),
    ensures
        ends_on_resume(start.run(events).0),
        count(start.run(events).1, Action::DrawFrame) == 0,
        count(start.run(events).1, Action::Update) == 0,
        count(start.run(events).1, Action::CreateState { visible: false }) <= 1,
        count(start.run(events).1, Action::CreateState { visible: false }) == 1
            ==> start.run(events).0.exiting,
        events.contains(Event::Resumed) ==> start.run(events).0.exiting,
    decreases events.len(),
{
    if events.len() > 0 {
        let earlier = events.drop_last();
        lemma_invisible_single_shot_never_draws(start, earlier);
        let (before, trace) = start.run(earlier);
        let actions = before.step(events.last()).1;
        lemma_count_concat(trace, actions, Action::DrawFrame);
        lemma_count_concat(trace, actions, Action::Update);
        lemma_count_concat(trace, actions, Action::CreateState { visible: false });
        lemma_count_small(actions, Action::DrawFrame);
        lemma_count_small(actions, Action::Update);
        lemma_count_small(actions, Action::CreateState { visible: false });
        if events.contains(Event::Resumed) {
            let i = choose|i: int| 0 <= i < events.len() && events[i] == Event::Resumed;
            if i < events.len() - 1 {
                assert(earlier[i] == Event::Resumed);
            }
        }
    }
}

/// A single-shot run with an invisible window, from its very start: no
/// action of the run is an update or a draw, the state is created at most
/// once, and once a resume has been delivered termination is signalled.
pub proof fn lemma_headless_run_never_draws(events: Seq<Event>)
    ensures
        ({
            let start = DispatcherView::initial(RunConfig { visible: false, close_promptly: true });
            let (end, trace) = start.run(events);
            &&& forall|j: int| 0 <= j < trace.len() ==> trace[j] != Action::DrawFrame
            &&& forall|j: int| 0 <= j < trace.len() ==> trace[j] != Action::Update
            &&& count(trace, Action::CreateState { visible: false }) <= 1
            &&& events.contains(Event::Resumed) ==> end.exiting
        }),
{
    let start = DispatcherView::initial(RunConfig { visible: false, close_promptly: true });
    lemma_invisible_single_shot_never_draws(start, events);
    lemma_count_zero(start.run(events).1, Action::DrawFrame);
    lemma_count_zero(start.run(events).1, Action::Update);
}

/// Whether `trace` ends with an update, a draw and the exit signal, in that
/// order.
pub open spec fn ends_with_one_frame(trace: Seq<Action>) -> bool {
    &&& trace.len() >= 3
    &&& trace[trace.len() - 3] == Action::Update
    &&& trace[trace.len() - 2] == Action::DrawFrame
    &&& trace[trace.len() - 1] == Action::Exit
}

/// A redraw request while the application is active asks for the update,
/// then the draw, each once; in single-shot mode it then signals termination.
/// It asks for nothing else, and nothing is forwarded.
pub proof fn lemma_redraw_updates_then_draws(state: DispatcherView)
    requires
        state.phase == Phase::Active,
        !state.exiting,
    ensures
        state.config.close_promptly ==> state.step(Event::RedrawRequested) == (
            state.exit(),
            seq![Action::Update, Action::DrawFrame, Action::Exit],
        ),
        !state.config.close_promptly ==> state.step(Event::RedrawRequested) == (
            state,
            seq![Action::Update, Action::DrawFrame],
        ),
{
}

/// A run never changes its configuration.
pub proof fn lemma_config_is_kept(start: DispatcherView, events: Seq<Event>)
    ensures
        start.run(events).0.config == start.config,
    decreases events.len(),
{
    if events.len() > 0 {
        lemma_config_is_kept(start, events.drop_last());
    }
}

/// A single-shot run draws at most one frame.  Where it draws one, the update
/// comes exactly once and immediately before it, and the exit signal
/// immediately after it ends the run.  Unless an event asks for the loop to
/// end (or, with an invisible window, the resume does), that frame is the
/// only way for the run to end.
pub proof fn lemma_single_shot_draws_once(start: DispatcherView, events: Seq<Event>)
    requires
        start.config.close_promptly,
        !start.exiting,
    ensures
        count(start.run(events).1, Action::DrawFrame) <= 1,
        count(start.run(events).1, Action::Update) == count(
            start.run(events).1,
            Action::DrawFrame,
        ),
        count(start.run(events).1, Action::DrawFrame) == 1 ==> start.run(events).0.exiting
            && ends_with_one_frame(start.run(events).1),
        start.config.visible && start.run(events).0.exiting && (forall|i: int|
            0 <= i < events.len() ==> !is_quit(events[i])) ==> count(
            start.run(events).1,
            Action::DrawFrame,
        ) == 1,
    decreases events.len(),
{
    if events.len() > 0 {
        let earlier = events.drop_last();
        lemma_single_shot_draws_once(start, earlier);
        lemma_config_is_kept(start, earlier);
        let (before, trace) = start.run(earlier);
        let actions = before.step(events.last()).1;
        lemma_count_concat(trace, actions, Action::DrawFrame);
        lemma_count_concat(trace, actions, Action::Update);
        lemma_count_small(actions, Action::DrawFrame);
        lemma_count_small(actions, Action::Update);
        assert forall|i: int| 0 <= i < earlier.len() implies earlier[i] == events[i] by {}
        if before.exiting {
            assert(trace + actions =~= trace);
        }
    }
}

/// A resize asks for the surface to take the new size where there is a
/// surface, and leaves the dispatcher, the cursor tracker included, as it
/// was.
pub proof fn lemma_resize_only_resizes(state: DispatcherView, width: u32, height: u32)
    ensures
        state.step(Event::Resized { width, height }).0 == state,
        state.step(Event::Resized { width, height }).0.mouse == state.mouse,
        state.phase == Phase::Active && !state.exiting ==> state.step(
            Event::Resized { width, height },
        ).1 == seq![Action::ResizeSurface { width, height }],
        state.phase != Phase::Active || state.exiting ==> state.step(
            Event::Resized { width, height },
        ).1 == Seq::<Action>::empty(),
{
}

/// The positions of the cursor-move events among `events`, in order.
pub open spec fn cursor_moves(events: Seq<Event>) -> Seq<(i16, i16)>
    decreases events.len(),
{
    if events.len() == 0 {
        Seq::empty()
    } else {
        let earlier = cursor_moves(events.drop_last());
        match events.last() {
            Event::CursorMoved { x, y } => earlier.push((x, y)),
            _ => earlier,
        }
    }
}

/// Those of `events` that a run starting in `start` still processes: all of
/// them up to and including the one on which termination is signalled.
pub open spec fn processed(start: DispatcherView, events: Seq<Event>) -> Seq<Event>
    decreases events.len(),
{
    if events.len() == 0 {
        Seq::empty()
    } else if start.run(events.drop_last()).0.exiting {
        processed(start, events.drop_last())
    } else {
        processed(start, events.drop_last()).push(events.last())
    }
}

/// Each cursor move is reported with the position it led to and the
/// difference to the position before it.
pub proof fn lemma_cursor_move_reported(state: DispatcherView, x: i16, y: i16)
    requires
        !state.exiting,
    ensures
        state.step(Event::CursorMoved { x, y }).0.mouse == state.mouse.moved((x, y)),
        state.step(Event::CursorMoved { x, y }).1 == seq![
            Action::ReportCursor {
                delta: ((x - state.mouse.position.0) as i32, (y - state.mouse.position.1) as i32),
                position: (x, y),
            },
        ],
        (x - state.mouse.position.0) as i32 == x - state.mouse.position.0,
        (y - state.mouse.position.1) as i32 == y - state.mouse.position.1,
{
}

/// The cursor tracker after a run has seen exactly the cursor moves that the
/// run processed.  So its position is that of the last such move, and its
/// delta the difference between the last two (before any move: as at the
/// start).
pub proof fn lemma_run_tracks_cursor(start: DispatcherView, events: Seq<Event>)
    ensures
        ({
            let moves = cursor_moves(processed(start, events));
            let mouse = start.run(events).0.mouse;
            &&& mouse == start.mouse.after(moves)
            &&& moves.len() == 0 ==> mouse == start.mouse
            &&& moves.len() >= 1 ==> mouse.position == moves.last()
            &&& moves.len() == 1 ==> mouse.delta() == (
                moves[0].0 - start.mouse.position.0,
                moves[0].1 - start.mouse.position.1,
            )
            &&& moves.len() >= 2 ==> mouse.delta() == (
                moves.last().0 - moves[moves.len() - 2].0,
                moves.last().1 - moves[moves.len() - 2].1,
            )
        }),
    decreases events.len(),
{
    let moves = cursor_moves(processed(start, events));
    if events.len() > 0 {
        let earlier = events.drop_last();
        lemma_run_tracks_cursor(start, earlier);
        let before = start.run(earlier).0;
        if !before.exiting {
            let seen = processed(start, earlier);
            assert(seen.push(events.last()).drop_last() =~= seen);
            match events.last() {
                Event::CursorMoved { x, y } => {
                    assert(moves.drop_last() =~= cursor_moves(seen));
                },
                _ => {},
            }
        }
    }
    if moves.len() >= 1 {
        lemma_last_two_moves(start.mouse, moves);
    }
}

/// Whether the dispatcher answers an event by a rule of its own, rather than
/// by handing it on: the three lifecycle events, a resize, a redraw request, a
/// close request, Escape going down, a cursor move, and a button going down.
pub open spec fn has_own_rule(event: Event) -> bool {
    match event {
        Event::KeyboardInput { state, key } => state == ElementState::Pressed && key
            == Key::Escape,
        Event::MouseInput { state, .. } => state == ElementState::Pressed,
        Event::Other => false,
        _ => true,
    }
}

/// No window event is dropped: while the application is active, every event
/// without a rule of its own, a released button or key included, is handed
/// to the user context exactly once, and the dispatcher stays as it was.
pub proof fn lemma_other_events_reach_user(state: DispatcherView, event: Event)
    requires
        !state.exiting,
        state.phase == Phase::Active,
        !has_own_rule(event),
    ensures
        state.step(event) == (state, seq![Action::ForwardEvent]),
{
}

/// Whether a window, surface and user context exist once the actions of
/// `trace` have been carried out, given whether they existed before.
pub open spec fn holds_state(before: bool, trace: Seq<Action>) -> bool
    decreases trace.len(),
{
    if trace.len() == 0 {
        before
    } else {
        match trace.last() {
            Action::CreateState { .. } => true,
            Action::DropState => false,
            _ => holds_state(before, trace.drop_last()),
        }
    }
}

/// Whether an action works on the window, the surface or the user context.
pub open spec fn needs_state(action: Action) -> bool {
    match action {
        Action::DropState
        | Action::ResizeSurface { .. }
        | Action::Update
        | Action::DrawFrame
        | Action::ForwardEvent
        | Action::RequestRedraw => true,
        _ => false,
    }
}

/// Carrying out two traces one after the other is carrying out their
/// concatenation.
pub proof fn lemma_holds_state_concat(before: bool, first: Seq<Action>, second: Seq<Action>)
    ensures
        holds_state(before, first + second) == holds_state(holds_state(before, first), second),
    decreases second.len(),
{
    if second.len() == 0 {
        assert(first + second =~= first);
    } else {
        assert((first + second).drop_last() =~= first + second.drop_last());
        lemma_holds_state_concat(before, first, second.drop_last());
    }
}

/// What a sequence of at most three actions leaves in existence, by cases.
proof fn lemma_holds_state_small(before: bool, actions: Seq<Action>)
    requires
        actions.len() <= 3,
    ensures
        actions.len() == 0 ==> holds_state(before, actions) == before,
        actions.len() == 1 ==> holds_state(before, actions) == holds_state(
            before,
            seq![actions[0]],
        ),
        actions.len() >= 1 ==> holds_state(before, seq![actions[0]]) == match actions[0] {
            Action::CreateState { .. } => true,
            Action::DropState => false,
            _ => before,
        },
        actions.len() >= 2 ==> holds_state(before, seq![actions[0], actions[1]])
            == match actions[1] {
            Action::CreateState { .. } => true,
            Action::DropState => false,
            _ => holds_state(before, seq![actions[0]]),
        },
        actions.len() == 2 ==> holds_state(before, actions) == holds_state(
            before,
            seq![actions[0], actions[1]],
        ),
        actions.len() == 3 ==> holds_state(before, actions) == match actions[2] {
            Action::CreateState { .. } => true,
            Action::DropState => false,
            _ => holds_state(before, seq![actions[0], actions[1]]),
        },
{
    if actions.len() >= 1 {
        let one = seq![actions[0]];
        assert(one.drop_last() =~= Seq::<Action>::empty());
        assert(one.last() == actions[0]);
        assert(holds_state(before, one.drop_last()) == before);
        if actions.len() == 1 {
            assert(actions =~= one);
        }
    }
    if actions.len() >= 2 {
        let two = seq![actions[0], actions[1]];
        assert(two.drop_last() =~= seq![actions[0]]);
        assert(two.last() == actions[1]);
        if actions.len() == 2 {
            assert(actions =~= two);
        }
    }
    if actions.len() == 3 {
        assert(actions.drop_last() =~= seq![actions[0], actions[1]]);
    }
}

/// The phase says whether window, surface and user context exist: the
/// application is active exactly when the actions asked for so far leave them
/// in existence.  Every action that works on them is asked for only while
/// they exist, and their creation only while they do not: there is never more
/// than one of each.
pub proof fn lemma_phase_tracks_state(start: DispatcherView, events: Seq<Event>)
    ensures
        holds_state(start.phase == Phase::Active, start.run(events).1) == (start.run(events).0.phase
            == Phase::Active),
        forall|j: int|
            0 <= j < start.run(events).1.len() && needs_state(#[trigger] start.run(events).1[j])
                ==> holds_state(start.phase == Phase::Active, start.run(events).1.take(j)),
        forall|j: int|
            0 <= j < start.run(events).1.len() && (#[trigger] start.run(events).1[j]
                is CreateState) ==> !holds_state(
                start.phase == Phase::Active,
                start.run(events).1.take(j),
            ),
    decreases events.len(),
{
    let had = start.phase == Phase::Active;
    if events.len() > 0 {
        let earlier = events.drop_last();
        lemma_phase_tracks_state(start, earlier);
        let (before, trace) = start.run(earlier);
        let actions = before.step(events.last()).1;
        let all = trace + actions;
        lemma_holds_state_concat(had, trace, actions);
        lemma_holds_state_small(before.phase == Phase::Active, actions);
        assert forall|j: int| 0 <= j < all.len() && needs_state(#[trigger] all[j]) implies holds_state(
            had,
            all.take(j),
        ) by {
            if j < trace.len() {
                assert(all.take(j) =~= trace.take(j));
                assert(all[j] == trace[j]);
            } else {
                let k = j - trace.len();
                assert(all.take(j) =~= trace + actions.take(k));
                assert(all[j] == actions[k]);
                lemma_holds_state_concat(had, trace, actions.take(k));
                lemma_holds_state_small(before.phase == Phase::Active, actions.take(k));
            }
        }
        assert forall|j: int| 0 <= j < all.len() && (#[trigger] all[j] is CreateState) implies !holds_state(
            had,
            all.take(j),
        ) by {
            if j < trace.len() {
                assert(all.take(j) =~= trace.take(j));
                assert(all[j] == trace[j]);
            } else {
                let k = j - trace.len();
                assert(all.take(j) =~= trace + actions.take(k));
                assert(all[j] == actions[k]);
                lemma_holds_state_concat(had, trace, actions.take(k));
                lemma_holds_state_small(before.phase == Phase::Active, actions.take(k));
            }
        }
    }
}

} // verus!
