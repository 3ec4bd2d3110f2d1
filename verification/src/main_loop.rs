//! The loop itself, as a state machine.
//!
//! The machine takes no action of its own. The caller tells it what happened
//! (the surface was created, events were polled, the clock was read) and the
//! machine answers with what to do next. It begins in `Initializing`, runs
//! from the moment the surface exists, and is `Terminated` for good once a
//! request to quit was among the polled events or start-up failed.

use vstd::prelude::*;
use crate::event::{drain, first_quit, has_quit, routed_all, Event, HandleResult, SurfaceState};
use crate::pacer::{budget_elapsed, elapsed_between, FrameClock, PaceAction, WaitStrategy};
use crate::ui::tree::Color;
use crate::viewport::{viewport_of, Viewport};
use crate::window::{
    reported_size, ContextProfile, ContextRequest, SwapInterval, WindowSize,
};

verus! {

/// What the loop is set up with.
#[derive(Clone, Copy, Debug, PartialEq, Eq, Structural)]
pub struct Settings {
    /// The size the window is asked to have.
    pub window: WindowSize,
    /// The graphics context the surface is asked to be bound to.
    pub context: ContextRequest,
    /// How presenting is synchronised with the display.
    pub swap_interval: SwapInterval,
    /// The colour that each frame is cleared to.
    pub clear_color: Color,
    /// The least time an iteration takes before its frame is presented, in
    /// nanoseconds.
    pub min_frame: u64,
    /// How the time until then is passed.
    pub wait: WaitStrategy,
}

/// A window of 960 by 600 on a core context of version 4.1, presented without
/// waiting for the display, cleared to a dull blue, at most one frame in 12
/// milliseconds, the rest of which is passed yielding.
pub open spec fn standard_settings() -> Settings {
    Settings {
        window: WindowSize { width: 960, height: 600, highdpi_width: 960, highdpi_height: 600 },
        context: ContextRequest {
            profile: ContextProfile::Core,
            major: 4,
            minor: 1,
            accelerated: true,
            double_buffer: true,
        },
        swap_interval: SwapInterval::Immediate,
        clear_color: Color { r: 300, g: 300, b: 500 },
        min_frame: 12_000_000,
        wait: WaitStrategy::BusyYield,
    }
}

impl Default for Settings {
    fn default() -> (r: Settings)
        ensures
            r == standard_settings(),
    {
        Settings {
            window: WindowSize::new(960, 600),
            context: ContextRequest::core_profile(4, 1),
            swap_interval: SwapInterval::from_vsync(false),
            clear_color: Color::new(300, 300, 500),
            min_frame: 12_000_000,
            wait: WaitStrategy::BusyYield,
        }
    }
}

/// Where the loop stands.
#[derive(Clone, Copy, Debug, PartialEq, Eq, Structural)]
pub enum Phase {
    /// The surface does not exist yet.
    Initializing,
    /// Frames are being rendered.
    Running,
    /// The loop has ended.
    Terminated,
}

/// What the caller tells the machine.
#[derive(Debug, PartialEq, Eq)]
pub enum Input {
    /// The surface was created and reports this drawable size; the clock
    /// reads `now`.
    SurfaceCreated { drawable_width: u32, drawable_height: u32, now: u64 },
    /// Start-up failed.
    StartupFailed,
    /// These events were pending at the top of an iteration; the clock reads
    /// `now`.
    Polled { events: Vec<Event>, now: u64 },
    /// The clock reads `now`.
    Clock { now: u64 },
}

/// What the machine tells the caller to do.
#[derive(Clone, Copy, Debug, PartialEq, Eq, Structural)]
pub enum Action {
    /// Tell the graphics pipeline of `viewport`, set the swap interval and the
    /// clear colour; then poll the pending events.
    Prepare { viewport: Viewport },
    /// Tell the graphics pipeline of `viewport` if there is one, clear the
    /// framebuffer and render; the iteration before this one took `delta`
    /// nanoseconds. Then read the clock.
    Render { delta: u64, viewport: Option<Viewport> },
    /// Cede the processor; then read the clock.
    Yield,
    /// Sleep for `nanos` nanoseconds; then read the clock.
    Sleep { nanos: u64 },
    /// Present the frame; then poll the pending events.
    Present,
    /// Report the state of the interface and return with success.
    ReadOut,
    /// Report the failure and return with it.
    Abort,
    /// Nothing: the input does not belong to where the loop stands.
    Nothing,
}

/// The state of the loop.
#[derive(Clone, Copy, Debug, PartialEq, Eq, Structural)]
pub struct MainLoop {
    pub settings: Settings,
    pub phase: Phase,
    pub surface: SurfaceState,
    pub clock: FrameClock,
    /// Set from when a frame is rendered until it is presented.
    pub frame_open: bool,
    /// The number of frames presented so far.
    pub frames: u64,
}

/// One more frame; the count stays where it is once a `u64` cannot hold more.
pub open spec fn one_more(frames: u64) -> u64 {
    if frames < u64::MAX { (frames + 1) as u64 } else { frames }
}

/// The state a loop begins in.
pub open spec fn initial(settings: Settings) -> MainLoop {
    MainLoop {
        settings,
        phase: Phase::Initializing,
        surface: SurfaceState {
            window_size: settings.window,
            viewport: viewport_of(settings.window),
            viewport_stale: true,
        },
        clock: FrameClock { last_instant: 0 },
        frame_open: false,
        frames: 0,
    }
}

/// What a loop with an open frame asks for while the frame budget has not
/// passed at `now`.
pub open spec fn waiting(s: MainLoop, now: u64) -> Action {
    match s.settings.wait {
        WaitStrategy::BusyYield => Action::Yield,
        WaitStrategy::Sleep => Action::Sleep {
            nanos: (s.settings.min_frame - elapsed_between(s.clock.last_instant, now)) as u64,
        },
    }
}

/// The state after `input` and the action that answers it.
pub open spec fn next(s: MainLoop, input: Input) -> (MainLoop, Action) {
    match s.phase {
        Phase::Initializing => match input {
            Input::SurfaceCreated { drawable_width, drawable_height, now } => {
                let size = reported_size(
                    s.settings.window.width,
                    s.settings.window.height,
                    drawable_width,
                    drawable_height,
                );
                (
                    MainLoop {
                        phase: Phase::Running,
                        surface: SurfaceState {
                            window_size: size,
                            viewport: viewport_of(size),
                            viewport_stale: false,
                        },
                        clock: FrameClock { last_instant: now },
                        frame_open: false,
                        ..s
                    },
                    Action::Prepare { viewport: viewport_of(size) },
                )
            },
            Input::StartupFailed => (MainLoop { phase: Phase::Terminated, ..s }, Action::Abort),
            _ => (s, Action::Nothing),
        },
        Phase::Running => match input {
            Input::Polled { events, now } => {
                let surface = routed_all(events@.take(first_quit(events@)), s.surface);
                if s.frame_open {
                    (s, Action::Nothing)
                } else if has_quit(events@) {
                    (MainLoop { phase: Phase::Terminated, surface, ..s }, Action::ReadOut)
                } else {
                    (
                        MainLoop {
                            surface: SurfaceState { viewport_stale: false, ..surface },
                            clock: FrameClock { last_instant: now },
                            frame_open: true,
                            ..s
                        },
                        Action::Render {
                            delta: elapsed_between(s.clock.last_instant, now) as u64,
                            viewport: if surface.viewport_stale {
                                Some(surface.viewport)
                            } else {
                                None
                            },
                        },
                    )
                }
            },
            Input::Clock { now } => {
                if !s.frame_open {
                    (s, Action::Nothing)
                } else if budget_elapsed(s.clock.last_instant, now, s.settings.min_frame) {
                    (
                        MainLoop { frame_open: false, frames: one_more(s.frames), ..s },
                        Action::Present,
                    )
                } else {
                    (s, waiting(s, now))
                }
            },
            _ => (s, Action::Nothing),
        },
        Phase::Terminated => (s, Action::Nothing),
    }
}

/// The state after all of `inputs`, taken in turn.
pub open spec fn run(s: MainLoop, inputs: Seq<Input>) -> MainLoop
    decreases inputs.len(),
{
    if inputs.len() == 0 {
        s
    } else {
        next(run(s, inputs.drop_last()), inputs.last()).0
    }
}

/// The actions that answer `inputs`, one for each.
pub open spec fn actions(s: MainLoop, inputs: Seq<Input>) -> Seq<Action>
    decreases inputs.len(),
{
    if inputs.len() == 0 {
        Seq::empty()
    } else {
        actions(s, inputs.drop_last()).push(next(run(s, inputs.drop_last()), inputs.last()).1)
    }
}

impl MainLoop {
    /// The surface state is well formed, and a frame is open only while the
    /// loop runs.
    pub open spec fn wf(&self) -> bool {
        &&& self.surface.wf()
        &&& self.frame_open ==> self.phase is Running
    }

    /// A loop that waits for its surface.
    pub fn new(settings: Settings) -> (r: MainLoop)
        ensures
            r == initial(settings),
            settings.window.wf() ==> r.wf(),
    {
        MainLoop {
            settings,
            phase: Phase::Initializing,
            surface: SurfaceState::new(settings.window),
            clock: FrameClock::start(0),
            frame_open: false,
            frames: 0,
        }
    }

    /// Takes `input` and answers with the action to perform.
    pub fn step(&mut self, input: &Input) -> (action: Action)
        ensures
            (*final(self), action) == next(*old(self), *input),
            old(self).wf() ==> final(self).wf(),
    {
        match self.phase {
            Phase::Initializing => match input {
                Input::SurfaceCreated { drawable_width, drawable_height, now } => {
                    let size = WindowSize::reported(
                        self.settings.window.width,
                        self.settings.window.height,
                        *drawable_width,
                        *drawable_height,
                    );
                    self.surface = SurfaceState::new(size);
                    self.surface.viewport_stale = false;
                    self.clock = FrameClock::start(*now);
                    self.frame_open = false;
                    self.phase = Phase::Running;
                    Action::Prepare { viewport: self.surface.viewport }
                },
                Input::StartupFailed => {
                    self.phase = Phase::Terminated;
                    Action::Abort
                },
                _ => Action::Nothing,
            },
            Phase::Running => match input {
                Input::Polled { events, now } => {
                    if self.frame_open {
                        Action::Nothing
                    } else {
                        match drain(events, &mut self.surface) {
                            HandleResult::Quit => {
                                self.phase = Phase::Terminated;
                                Action::ReadOut
                            },
                            HandleResult::Continue => {
                                let delta: u64 = self.clock.tick(*now);
                                let viewport = self.surface.take_stale_viewport();
                                self.frame_open = true;
                                Action::Render { delta, viewport }
                            },
                        }
                    }
                },
                Input::Clock { now } => {
                    if !self.frame_open {
                        Action::Nothing
                    } else {
                        match self.clock.enforce_budget(*now, self.settings.min_frame) {
                            PaceAction::Present => {
                                self.frame_open = false;
                                if self.frames < u64::MAX {
                                    self.frames = self.frames + 1;
                                }
                                Action::Present
                            },
                            PaceAction::Yield => match self.settings.wait {
                                WaitStrategy::BusyYield => Action::Yield,
                                WaitStrategy::Sleep => Action::Sleep {
                                    nanos: self.clock.remaining(*now, self.settings.min_frame),
                                },
                            },
                        }
                    }
                },
                _ => Action::Nothing,
            },
            Phase::Terminated => Action::Nothing,
        }
    }

    /// Whether the loop has ended.
    pub fn is_terminated(&self) -> (r: bool)
        ensures
            r <==> self.phase is Terminated,
    {
        match self.phase {
            Phase::Terminated => true,
            _ => false,
        }
    }
}

/// Every step keeps a well-formed loop well formed.
pub proof fn lemma_next_keeps_wf(s: MainLoop, input: Input)
    requires
        s.wf(),
    ensures
        next(s, input).0.wf(),
{
    if let Input::Polled { events, now } = input {
        crate::event::lemma_routed_all_wf(events@.take(first_quit(events@)), s.surface);
    }
}

/// A loop that has ended stays as it is and asks for nothing more.
pub proof fn lemma_terminated_is_final(s: MainLoop, input: Input)
    requires
        s.phase is Terminated,
    ensures
        next(s, input) == (s, Action::Nothing),
{
}

/// A batch of events that holds a request to quit ends a running loop,
/// wherever in the batch the request stands: the answer is the read-out, and
/// no frame is rendered.
pub proof fn lemma_quit_ends_the_loop(s: MainLoop, events: Vec<Event>, now: u64)
    requires
        s.phase is Running,
        !s.frame_open,
        has_quit(events@),
    ensures
        next(s, Input::Polled { events, now }).1 == Action::ReadOut,
        next(s, Input::Polled { events, now }).0.phase is Terminated,
        next(s, Input::Polled { events, now }).0.frames == s.frames,
{
}

/// A frame is presented only once the frame budget has passed since the
/// iteration began, and waiting for that does not move the beginning of the
/// iteration.
pub proof fn lemma_present_respects_budget(s: MainLoop, now: u64)
    ensures
        next(s, Input::Clock { now }).1 == Action::Present ==> elapsed_between(
            s.clock.last_instant,
            now,
        ) >= s.settings.min_frame,
        next(s, Input::Clock { now }).0.clock == s.clock,
{
}

/// On a clock that does not run backwards, an iteration whose frame was
/// presented has taken at least the frame budget: that is what the next
/// iteration is told as its `delta`.
pub proof fn lemma_frame_takes_at_least_budget(
    s: MainLoop,
    presented_at: u64,
    events: Vec<Event>,
    polled_at: u64,
)
    requires
        next(s, Input::Clock { now: presented_at }).1 == Action::Present,
        presented_at <= polled_at,
        !has_quit(events@),
    ensures
        next(
            next(s, Input::Clock { now: presented_at }).0,
            Input::Polled { events, now: polled_at },
        ).1 matches Action::Render { delta, .. } && delta >= s.settings.min_frame,
{
}

/// The action that answers the input at position `at` is the answer of the
/// state that the inputs before it lead to.
pub proof fn lemma_action_at(s: MainLoop, inputs: Seq<Input>, at: int)
    requires
        0 <= at < inputs.len(),
    ensures
        actions(s, inputs).len() == inputs.len(),
        actions(s, inputs)[at] == next(run(s, inputs.take(at)), inputs[at]).1,
    decreases inputs.len(),
{
    lemma_actions_len(s, inputs);
    if at == inputs.len() - 1 {
        assert(inputs.take(at) =~= inputs.drop_last());
    } else {
        lemma_action_at(s, inputs.drop_last(), at);
        assert(inputs.drop_last().take(at) =~= inputs.take(at));
    }
}

/// There is one action for each input.
pub proof fn lemma_actions_len(s: MainLoop, inputs: Seq<Input>)
    ensures
        actions(s, inputs).len() == inputs.len(),
    decreases inputs.len(),
{
    if inputs.len() > 0 {
        lemma_actions_len(s, inputs.drop_last());
    }
}

/// Once a loop has ended, no inputs bring it back.
pub proof fn lemma_run_stays_terminated(s: MainLoop, inputs: Seq<Input>)
    requires
        s.phase is Terminated,
    ensures
        run(s, inputs) == s,
    decreases inputs.len(),
{
    if inputs.len() > 0 {
        lemma_run_stays_terminated(s, inputs.drop_last());
    }
}

/// Running over the first `at` inputs and then over the rest is running over
/// all of them.
pub proof fn lemma_run_split(s: MainLoop, inputs: Seq<Input>, at: int)
    requires
        0 <= at <= inputs.len(),
    ensures
        run(s, inputs) == run(run(s, inputs.take(at)), inputs.skip(at)),
    decreases inputs.len(),
{
    if at == inputs.len() {
        assert(inputs.take(at) =~= inputs);
        assert(inputs.skip(at) =~= Seq::<Input>::empty());
    } else {
        lemma_run_split(s, inputs.drop_last(), at);
        assert(inputs.drop_last().take(at) =~= inputs.take(at));
        assert(inputs.drop_last().skip(at) =~= inputs.skip(at).drop_last());
        assert(inputs.skip(at).last() == inputs.last());
    }
}

/// The read-out is the last thing a loop asks for, and so is the report of a
/// failure: whatever the inputs, every action after one of these is
/// `Nothing`. In particular the read-out happens at most once, and no frame
/// is rendered or presented after it.
pub proof fn lemma_nothing_after_the_end(s: MainLoop, inputs: Seq<Input>, i: int, j: int)
    requires
        0 <= i < j < inputs.len(),
        actions(s, inputs)[i] == Action::ReadOut || actions(s, inputs)[i] == Action::Abort,
    ensures
        actions(s, inputs)[j] == Action::Nothing,
{
    lemma_action_at(s, inputs, i);
    lemma_action_at(s, inputs, j);
    let before = run(s, inputs.take(i));
    let ended = next(before, inputs[i]).0;
    assert(ended.phase is Terminated);
    assert(inputs.take(i + 1).drop_last() =~= inputs.take(i));
    assert(inputs.take(i + 1).last() == inputs[i]);
    assert(run(s, inputs.take(i + 1)) == ended);
    let upto = inputs.take(j);
    lemma_run_split(s, upto, i + 1);
    assert(upto.take(i + 1) =~= inputs.take(i + 1));
    lemma_run_stays_terminated(ended, upto.skip(i + 1));
    assert(run(s, upto) == ended);
}

} // verus!
