//! Routing of window events.
//!
//! The caller polls the windowing system and hands over what it found. A
//! request to quit ends the loop; a resize is taken over into the window size
//! and the viewport; anything else passes through.

use vstd::prelude::*;
use crate::viewport::{viewport_of, Viewport};
use crate::window::{reported_size, WindowSize};

verus! {

/// An event of the windowing system, as far as the loop is concerned.
#[derive(Clone, Copy, Debug, PartialEq, Eq, Structural)]
pub enum Event {
    /// The window was closed, or the application was asked to quit.
    Quit,
    /// The window has a new logical size; the drawable size is what the
    /// surface reports for it.
    Resized { width: i32, height: i32, drawable_width: u32, drawable_height: u32 },
    /// An event the loop does not handle itself.
    Other,
}

/// What the loop does after an event.
#[derive(Clone, Copy, Debug, PartialEq, Eq, Structural)]
pub enum HandleResult {
    Continue,
    Quit,
}

/// The window size and the viewport that go with a surface.
#[derive(Clone, Copy, Debug, PartialEq, Eq, Structural)]
pub struct SurfaceState {
    pub window_size: WindowSize,
    pub viewport: Viewport,
    /// Set while the graphics pipeline has not been told of `viewport`.
    pub viewport_stale: bool,
}

impl SurfaceState {
    /// The window size is well formed and the viewport is its whole physical
    /// framebuffer.
    pub open spec fn wf(&self) -> bool {
        &&& self.window_size.wf()
        &&& self.viewport == viewport_of(self.window_size)
    }

    /// The state of a surface that was just created with the given size. Its
    /// viewport is still to be applied.
    pub fn new(window_size: WindowSize) -> (r: SurfaceState)
        ensures
            r == (SurfaceState {
                window_size,
                viewport: viewport_of(window_size),
                viewport_stale: true,
            }),
            window_size.wf() ==> r.wf(),
    {
        SurfaceState {
            window_size,
            viewport: Viewport::recompute(&window_size),
            viewport_stale: true,
        }
    }

    /// Hands out the viewport if the graphics pipeline has not been told of it
    /// yet, and takes it as applied from then on.
    pub fn take_stale_viewport(&mut self) -> (r: Option<Viewport>)
        ensures
            r == if old(self).viewport_stale { Some(old(self).viewport) } else { None },
            *final(self) == (SurfaceState { viewport_stale: false, ..*old(self) }),
    {
        if self.viewport_stale {
            self.viewport_stale = false;
            Some(self.viewport)
        } else {
            None
        }
    }
}

/// The surface state after one event.
pub open spec fn routed_state(event: Event, state: SurfaceState) -> SurfaceState {
    match event {
        Event::Resized { width, height, drawable_width, drawable_height } => {
            let size = reported_size(width, height, drawable_width, drawable_height);
            SurfaceState { window_size: size, viewport: viewport_of(size), viewport_stale: true }
        },
        _ => state,
    }
}

/// What the loop does after one event.
pub open spec fn routed_result(event: Event) -> HandleResult {
    if event is Quit { HandleResult::Quit } else { HandleResult::Continue }
}

/// The surface state after all of `events`, taken in turn.
pub open spec fn routed_all(events: Seq<Event>, state: SurfaceState) -> SurfaceState
    decreases events.len(),
{
    if events.len() == 0 {
        state
    } else {
        routed_state(events.last(), routed_all(events.drop_last(), state))
    }
}

/// Whether a request to quit is among `events`.
pub open spec fn has_quit(events: Seq<Event>) -> bool {
    exists|i: int| 0 <= i < events.len() && events[i] is Quit
}

/// The number of events before the first request to quit; the number of all
/// events if there is none.
pub open spec fn first_quit(events: Seq<Event>) -> int
    decreases events.len(),
{
    if events.len() == 0 || events[0] is Quit {
        0
    } else {
        1 + first_quit(events.skip(1))
    }
}

/// Handles one event. A resize is taken over into the window size, the
/// viewport is recomputed from it and marked as still to be applied.
pub fn route(event: &Event, state: &mut SurfaceState) -> (r: HandleResult)
    ensures
        r == routed_result(*event),
        *final(state) == routed_state(*event, *old(state)),
        *event is Resized ==> final(state).wf(),
        old(state).wf() ==> final(state).wf(),
{
    match event {
        Event::Quit => HandleResult::Quit,
        Event::Resized { width, height, drawable_width, drawable_height } => {
            state.window_size.resize(*width, *height, *drawable_width, *drawable_height);
            state.viewport = Viewport::recompute(&state.window_size);
            state.viewport_stale = true;
            HandleResult::Continue
        },
        Event::Other => HandleResult::Continue,
    }
}

/// Handles a batch of pending events. The result is `Quit` exactly when a
/// request to quit is in the batch, wherever it stands. The events before the
/// first such request are handled in turn; those after it are dropped.
pub fn drain(events: &Vec<Event>, state: &mut SurfaceState) -> (r: HandleResult)
    ensures
        r == HandleResult::Quit <==> has_quit(events@),
        r == HandleResult::Continue <==> !has_quit(events@),
        *final(state) == routed_all(events@.take(first_quit(events@)), *old(state)),
        old(state).wf() ==> final(state).wf(),
{
    let mut i: usize = 0;
    assert(events@.take(0) =~= Seq::<Event>::empty());
    while i < events.len()
        invariant
            i <= events.len(),
            forall|j: int| 0 <= j < i ==> !(events@[j] is Quit),
            *state == routed_all(events@.take(i as int), *old(state)),
            old(state).wf() ==> state.wf(),
        decreases events.len() - i,
    {
        let result = route(&events[i], state);
        if result == HandleResult::Quit {
            proof {
                lemma_first_quit_is(events@, i as int);
            }
            return HandleResult::Quit;
        }
        proof {
            assert(events@.take(i + 1).drop_last() =~= events@.take(i as int));
            assert(events@.take(i + 1).last() == events@[i as int]);
        }
        i = i + 1;
    }
    proof {
        lemma_first_quit_is(events@, events@.len() as int);
    }
    HandleResult::Continue
}

/// If no request to quit stands before position `at`, and either one stands at
/// `at` or `at` is the end, then `at` events come before the first request.
pub proof fn lemma_first_quit_is(events: Seq<Event>, at: int)
    requires
        0 <= at <= events.len(),
        forall|j: int| 0 <= j < at ==> !(events[j] is Quit),
        at < events.len() ==> events[at] is Quit,
    ensures
        first_quit(events) == at,
    decreases at,
{
    if at > 0 {
        let rest = events.skip(1);
        assert forall|j: int| 0 <= j < at - 1 implies !(rest[j] is Quit) by {
            assert(rest[j] == events[j + 1]);
        }
        lemma_first_quit_is(rest, at - 1);
    }
}

/// The first request to quit stands where `first_quit` says, and none stands
/// before it; without a request, `first_quit` is the number of events.
pub proof fn lemma_first_quit(events: Seq<Event>)
    ensures
        0 <= first_quit(events) <= events.len(),
        forall|j: int| 0 <= j < first_quit(events) ==> !(#[trigger] events[j] is Quit),
        has_quit(events) <==> first_quit(events) < events.len(),
        first_quit(events) < events.len() ==> events[first_quit(events)] is Quit,
    decreases events.len(),
{
    if events.len() == 0 || events[0] is Quit {
    } else {
        let rest = events.skip(1);
        lemma_first_quit(rest);
        let n = first_quit(rest);
        assert forall|j: int| 0 <= j < n + 1 implies !(#[trigger] events[j] is Quit) by {
            if j > 0 {
                assert(events[j] == rest[j - 1]);
            }
        }
        if n < rest.len() {
            assert(events[n + 1] == rest[n]);
        }
        if has_quit(events) {
            let k = choose|k: int| 0 <= k < events.len() && events[k] is Quit;
            assert(rest[k - 1] == events[k]);
            assert(has_quit(rest));
        }
    }
}

/// Whether a batch asks to quit does not depend on where in the batch the
/// request stands: a batch made of two parts asks to quit exactly when one of
/// the parts does.
pub proof fn lemma_has_quit_concat(a: Seq<Event>, b: Seq<Event>)
    ensures
        has_quit(a + b) <==> has_quit(a) || has_quit(b),
{
    let ab = a + b;
    if has_quit(a) {
        let i = choose|i: int| 0 <= i < a.len() && a[i] is Quit;
        assert(ab[i] == a[i]);
    }
    if has_quit(b) {
        let i = choose|i: int| 0 <= i < b.len() && b[i] is Quit;
        assert(ab[a.len() + i] == b[i]);
    }
    if has_quit(ab) {
        let i = choose|i: int| 0 <= i < ab.len() && ab[i] is Quit;
        if i < a.len() {
            assert(a[i] == ab[i]);
        } else {
            assert(b[i - a.len()] == ab[i]);
        }
    }
}

/// After a resize the surface state is well formed, whatever it was before and
/// whatever the surface reports: no dimension of the window has fewer physical
/// pixels than logical units, and the viewport is the whole framebuffer.
pub proof fn lemma_resized_is_wf(event: Event, state: SurfaceState)
    requires
        event is Resized,
    ensures
        routed_state(event, state).wf(),
        routed_state(event, state).window_size.highdpi_width >= routed_state(
            event,
            state,
        ).window_size.width,
        routed_state(event, state).window_size.highdpi_height >= routed_state(
            event,
            state,
        ).window_size.height,
{
}

/// Handling events keeps a well-formed surface state well formed.
pub proof fn lemma_routed_all_wf(events: Seq<Event>, state: SurfaceState)
    requires
        state.wf(),
    ensures
        routed_all(events, state).wf(),
    decreases events.len(),
{
    if events.len() > 0 {
        lemma_routed_all_wf(events.drop_last(), state);
    }
}

} // verus!
