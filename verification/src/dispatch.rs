//! The event dispatcher: a state machine from platform events to actions.

use vstd::prelude::*;
use crate::event::{Action, ElementState, Event, Key};
use crate::mouse::{Mouse, MouseView};

verus! {

/// How a run is configured.
#[derive(Clone, Copy, Debug, PartialEq, Eq)]
pub struct RunConfig {
    /// Whether the window is shown.
    pub visible: bool,
    /// Whether the loop ends by itself after the first frame.
    pub close_promptly: bool,
}

impl RunConfig {
    /// Continuous mode: a visible window, running until asked to stop.
    pub fn continuous() -> (c: RunConfig)
        ensures
            c == (RunConfig { visible: true, close_promptly: false }),
    {
        RunConfig { visible: true, close_promptly: false }
    }

    /// Single-shot mode: the loop ends after the first frame, or right after
    /// start-up where the window is invisible.
    pub fn single_shot(visible: bool) -> (c: RunConfig)
        ensures
            c == (RunConfig { visible, close_promptly: true }),
    {
        RunConfig { visible, close_promptly: true }
    }

    /// Whether a run ends as soon as its state has been created.
    pub open spec fn exits_on_resume(self) -> bool {
        !self.visible && self.close_promptly
    }
}

/// Whether the application currently owns a window and a surface.
#[derive(Clone, Copy, Debug, PartialEq, Eq)]
pub enum Phase {
    Suspended,
    Active,
}

/// The dispatcher's state as a mathematical value.
pub struct DispatcherView {
    pub config: RunConfig,
    pub phase: Phase,
    pub mouse: MouseView,
    /// Set once loop termination has been signalled.
    pub exiting: bool,
}

impl DispatcherView {
    /// The state a run starts in, with the cursor tracker it is given.
    pub open spec fn starting(config: RunConfig, mouse: MouseView) -> DispatcherView {
        DispatcherView { config, phase: Phase::Suspended, mouse, exiting: false }
    }

    /// The state a run starts in when no cursor movement has been seen.
    pub open spec fn initial(config: RunConfig) -> DispatcherView {
        DispatcherView::starting(config, MouseView::origin())
    }

    /// `actions` where the application is active, nothing otherwise.
    pub open spec fn when_active(self, actions: Seq<Action>) -> Seq<Action> {
        if self.phase == Phase::Active {
            actions
        } else {
            Seq::empty()
        }
    }

    /// The same state with termination signalled.
    pub open spec fn exit(self) -> DispatcherView {
        DispatcherView { exiting: true, ..self }
    }

    /// The state after one event, and the actions the event calls for, in the
    /// order in which they are to be carried out.  Once termination has been
    /// signalled no further event has any effect.
    ///
    /// A resume while a state exists releases it before the new one is
    /// created, so that there is never more than one.  Only a pressed button
    /// and a cursor move are answered by a report alone; every other window
    /// event without a rule of its own, a released button included, goes to
    /// the user context while there is one.
    pub open spec fn step(self, event: Event) -> (DispatcherView, Seq<Action>) {
        if self.exiting {
            (self, Seq::empty())
        } else {
            match event {
                Event::Resumed => {
                    let active = DispatcherView { phase: Phase::Active, ..self };
                    let renew = self.when_active(seq![Action::DropState]).push(
                        Action::CreateState { visible: self.config.visible },
                    );
                    if self.config.exits_on_resume() {
                        (active.exit(), renew.push(Action::Exit))
                    } else {
                        (active, renew)
                    }
                },
                Event::Suspended => (
                    DispatcherView { phase: Phase::Suspended, ..self },
                    self.when_active(seq![Action::DropState]),
                ),
                Event::AboutToWait => (self, self.when_active(seq![Action::RequestRedraw])),
                Event::Resized { width, height } => (
                    self,
                    self.when_active(seq![Action::ResizeSurface { width, height }]),
                ),
                Event::RedrawRequested => {
                    if self.phase != Phase::Active {
                        (self, Seq::empty())
                    } else if self.config.close_promptly {
                        (self.exit(), seq![Action::Update, Action::DrawFrame, Action::Exit])
                    } else {
                        (self, seq![Action::Update, Action::DrawFrame])
                    }
                },
                Event::CloseRequested => (self.exit(), seq![Action::Exit]),
                Event::KeyboardInput { state: ElementState::Pressed, key: Key::Escape } => (
                    self.exit(),
                    seq![Action::Exit],
                ),
                Event::CursorMoved { x, y } => {
                    let mouse = self.mouse.moved((x, y));
                    (
                        DispatcherView { mouse, ..self },
                        seq![
                            Action::ReportCursor {
                                delta: (mouse.delta().0 as i32, mouse.delta().1 as i32),
                                position: mouse.position,
                            },
                        ],
                    )
                },
                Event::MouseInput { state, button } => (
                    self,
                    if state == ElementState::Pressed {
                        seq![Action::ReportClick { button }]
                    } else {
                        self.when_active(seq![Action::ForwardEvent])
                    },
                ),
                Event::KeyboardInput { .. } | Event::Other => (
                    self,
                    self.when_active(seq![Action::ForwardEvent]),
                ),
            }
        }
    }

    /// The state after a whole sequence of events, delivered oldest first,
    /// and all the actions they call for, in order.
    pub open spec fn run(self, events: Seq<Event>) -> (DispatcherView, Seq<Action>)
        decreases events.len(),
    {
        if events.len() == 0 {
            (self, Seq::empty())
        } else {
            let (before, trace) = self.run(events.drop_last());
            let (after, actions) = before.step(events.last());
            (after, trace + actions)
        }
    }
}

/// Once termination has been signalled, a run changes nothing and asks for
/// nothing, whatever events are still delivered.
pub proof fn lemma_nothing_after_exit(state: DispatcherView, events: Seq<Event>)
    requires
        state.exiting,
    ensures
        state.run(events) == (state, Seq::<Action>::empty()),
    decreases events.len(),
{
    if events.len() > 0 {
        lemma_nothing_after_exit(state, events.drop_last());
        assert(Seq::<Action>::empty() + Seq::<Action>::empty() =~= Seq::<Action>::empty());
    }
}

/// Running two sequences of events one after the other is running their
/// concatenation.
pub proof fn lemma_run_concat(state: DispatcherView, first: Seq<Event>, second: Seq<Event>)
    ensures
        state.run(first + second).0 == state.run(first).0.run(second).0,
        state.run(first + second).1 == state.run(first).1 + state.run(first).0.run(second).1,
    decreases second.len(),
{
    let middle = state.run(first).0;
    if second.len() == 0 {
        assert(first + second =~= first);
        assert(state.run(first).1 + Seq::<Action>::empty() =~= state.run(first).1);
    } else {
        let all = first + second;
        assert(all.drop_last() =~= first + second.drop_last());
        assert(all.last() == second.last());
        lemma_run_concat(state, first, second.drop_last());
        let before = middle.run(second.drop_last());
        let actions = before.0.step(second.last()).1;
        assert((state.run(first).1 + before.1) + actions =~= state.run(first).1 + (before.1
            + actions));
    }
}

/// Turns platform events into actions and keeps what has to be remembered
/// between them: the phase, the cursor, and whether the loop is ending.
#[derive(Clone, Copy, Debug)]
pub struct Dispatcher {
    config: RunConfig,
    phase: Phase,
    mouse: Mouse,
    exiting: bool,
}

impl View for Dispatcher {
    type V = DispatcherView;

    closed spec fn view(&self) -> DispatcherView {
        DispatcherView {
            config: self.config,
            phase: self.phase,
            mouse: self.mouse@,
            exiting: self.exiting,
        }
    }
}

impl Dispatcher {
    /// A dispatcher at the start of a run: suspended, cursor at the origin.
    pub fn new(config: RunConfig) -> (d: Dispatcher)
        ensures
            d@ == DispatcherView::initial(config),
    {
        Dispatcher::with_mouse(config, Mouse::new())
    }

    /// A dispatcher at the start of a run that continues with the given
    /// cursor tracker.
    pub fn with_mouse(config: RunConfig, mouse: Mouse) -> (d: Dispatcher)
        ensures
            d@ == DispatcherView::starting(config, mouse@),
    {
        Dispatcher { config, phase: Phase::Suspended, mouse, exiting: false }
    }

    /// Handles one event: updates the state and returns the actions to carry
    /// out, in order.  The first two clauses say all there is; the others
    /// spell out what they come to, while the loop is running, for a cursor
    /// move, a redraw, a resize, and the resume of an invisible single-shot
    /// run.
    pub fn handle(&mut self, event: Event) -> (actions: Vec<Action>)
        ensures
            final(self)@ == old(self)@.step(event).0,
            actions@ == old(self)@.step(event).1,
            !old(self)@.exiting && event is CursorMoved ==> final(self)@.mouse.position == (
                event->x,
                event->y,
            ) && final(self)@.mouse.previous == old(self)@.mouse.position
                && final(self)@.mouse.delta() == (
                event->x - old(self)@.mouse.position.0,
                event->y - old(self)@.mouse.position.1,
            ),
            !old(self)@.exiting && event is RedrawRequested && old(self)@.phase == Phase::Active
                ==> actions@ == if old(self)@.config.close_promptly {
                seq![Action::Update, Action::DrawFrame, Action::Exit]
            } else {
                seq![Action::Update, Action::DrawFrame]
            },
            !old(self)@.exiting && event is Resized && old(self)@.phase == Phase::Active
                ==> final(self)@ == old(self)@ && actions@ == seq![
                (Action::ResizeSurface { width: event->width, height: event->height }),
            ],
            !old(self)@.exiting && event is Resumed && old(self)@.phase == Phase::Suspended
                && old(self)@.config.exits_on_resume() ==> final(self)@.phase == Phase::Active
                && final(self)@.exiting && actions@ == seq![
                (Action::CreateState { visible: false }),
                Action::Exit,
            ],
    {
        let mut actions: Vec<Action> = Vec::new();
        if self.exiting {
            assert(actions@ =~= old(self)@.step(event).1);
            return actions;
        }
        let active = match self.phase {
            Phase::Active => true,
            Phase::Suspended => false,
        };
        match event {
            Event::Resumed => {
                self.phase = Phase::Active;
                if active {
                    actions.push(Action::DropState);
                }
                actions.push(Action::CreateState { visible: self.config.visible });
                if !self.config.visible && self.config.close_promptly {
                    self.exiting = true;
                    actions.push(Action::Exit);
                }
            },
            Event::Suspended => {
                self.phase = Phase::Suspended;
                if active {
                    actions.push(Action::DropState);
                }
            },
            Event::AboutToWait => {
                if active {
                    actions.push(Action::RequestRedraw);
                }
            },
            Event::Resized { width, height } => {
                if active {
                    actions.push(Action::ResizeSurface { width, height });
                }
            },
            Event::RedrawRequested => {
                if active {
                    actions.push(Action::Update);
                    actions.push(Action::DrawFrame);
                    if self.config.close_promptly {
                        self.exiting = true;
                        actions.push(Action::Exit);
                    }
                }
            },
            Event::CloseRequested => {
                self.exiting = true;
                actions.push(Action::Exit);
            },
            Event::KeyboardInput { state: ElementState::Pressed, key: Key::Escape } => {
                self.exiting = true;
                actions.push(Action::Exit);
            },
            Event::CursorMoved { x, y } => {
                self.mouse.update_position(x, y);
                let delta = self.mouse.get_delta();
                let position = self.mouse.get_position();
                actions.push(Action::ReportCursor { delta, position });
            },
            Event::MouseInput { state, button } => {
                match state {
                    ElementState::Pressed => {
                        actions.push(Action::ReportClick { button });
                    },
                    ElementState::Released => {
                        if active {
                            actions.push(Action::ForwardEvent);
                        }
                    },
                }
            },
            Event::KeyboardInput { .. } | Event::Other => {
                if active {
                    actions.push(Action::ForwardEvent);
                }
            },
        }
        assert(actions@ =~= old(self)@.step(event).1);
        actions
    }

    /// Delivers `events` in order, checking between deliveries whether the
    /// loop is to end, and returns all actions asked for, in order.
    pub fn run(&mut self, events: &Vec<Event>) -> (trace: Vec<Action>)
        ensures
            final(self)@ == old(self)@.run(events@).0,
            trace@ == old(self)@.run(events@).1,
    {
        let mut trace: Vec<Action> = Vec::new();
        let mut i: usize = 0;
        while i < events.len() && !self.exiting
            invariant
                i <= events.len(),
                self@ == old(self)@.run(events@.take(i as int)).0,
                trace@ == old(self)@.run(events@.take(i as int)).1,
            decreases events.len() - i,
        {
            let mut actions = self.handle(events[i]);
            trace.append(&mut actions);
            proof {
                let done = events@.take(i + 1);
                assert(done.drop_last() =~= events@.take(i as int));
                assert(done.last() == events@[i as int]);
            }
            i = i + 1;
        }
        proof {
            let done = events@.take(i as int);
            let rest = events@.skip(i as int);
            assert(done + rest =~= events@);
            lemma_run_concat(old(self)@, done, rest);
            if i < events.len() {
                lemma_nothing_after_exit(self@, rest);
            } else {
                assert(rest =~= Seq::<Event>::empty());
            }
            assert(trace@ + Seq::<Action>::empty() =~= trace@);
        }
        trace
    }

    /// The configuration this dispatcher was made with.
    pub fn config(&self) -> (c: RunConfig)
        ensures
            c == self@.config,
    {
        self.config
    }

    /// Whether the application currently owns a window and a surface.
    pub fn phase(&self) -> (p: Phase)
        ensures
            p == self@.phase,
    {
        self.phase
    }

    /// Whether loop termination has been signalled.
    pub fn is_exiting(&self) -> (b: bool)
        ensures
            b == self@.exiting,
    {
        self.exiting
    }

    /// The cursor tracker.
    pub fn mouse(&self) -> (m: &Mouse)
        ensures
            m@ == self@.mouse,
    {
        &self.mouse
    }
}

} // verus!
