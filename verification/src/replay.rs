//! The replay engine: a state machine that folds events into a canvas and
//! says when a frame is due.
//!
//! The engine does no input or output. Its caller fetches events and writes
//! frames, and tells the engine what happened:
//!
//! * in [`Phase::AwaitingNextEvent`] the caller fetches the next event of the
//!   store and hands it over with [`Replay::offer`];
//! * in [`Phase::Emitting`] the caller writes [`Replay::snapshot`] to the sink
//!   and then calls [`Replay::frame_written`];
//! * in [`Phase::Done`] the render is over.

use vstd::prelude::*;
use crate::canvas::{blank, cell_bytes, lemma_painted_cell, rgba, Canvas, Viewport};
use crate::draw::{after_event, apply, counted};
use crate::error::{ConfigurationError, MalformedEvent, RenderError};
use crate::event::PlacementEvent;

verus! {

/// The canvas after the events were applied in order to a blank frame.
pub open spec fn canvas_of(window: Viewport, events: Seq<PlacementEvent>) -> Seq<u8>
    decreases events.len(),
{
    if events.len() == 0 {
        blank(window)
    } else {
        after_event(canvas_of(window, events.drop_last()), window, events.last())
    }
}

/// How many of the events count as rendered.
pub open spec fn rendered_count(window: Viewport, events: Seq<PlacementEvent>) -> nat
    decreases events.len(),
{
    if events.len() == 0 {
        0
    } else {
        rendered_count(window, events.drop_last()) + if counted(window, events.last()) {
            1nat
        } else {
            0nat
        }
    }
}

/// A count as the engine reports it: exact up to the largest `u64`.
pub open spec fn clipped(n: nat) -> u64 {
    if n > u64::MAX {
        u64::MAX
    } else {
        n as u64
    }
}

/// Whether an event paints the cell `(x, y)`.
pub open spec fn touches(event: PlacementEvent, x: int, y: int) -> bool {
    match event.shape() {
        Some(shape) => shape.covers(x, y),
        None => false,
    }
}

/// The canvas has the size of the viewport, whatever was applied.
pub proof fn lemma_canvas_len(window: Viewport, events: Seq<PlacementEvent>)
    requires
        window.wf(),
    ensures
        canvas_of(window, events).len() == window.byte_len(),
    decreases events.len(),
{
    if events.len() > 0 {
        lemma_canvas_len(window, events.drop_last());
    }
}

/// Last write wins: a cell of the viewport shows the colour of the last
/// event that painted it, whatever was painted there before.
pub proof fn lemma_last_write_wins(
    window: Viewport,
    events: Seq<PlacementEvent>,
    i: int,
    x: int,
    y: int,
)
    requires
        window.wf(),
        window.contains(x, y),
        0 <= i < events.len(),
        touches(events[i], x, y),
        forall|j: int| i < j < events.len() ==> !touches(#[trigger] events[j], x, y),
    ensures
        cell_bytes(canvas_of(window, events), window, x, y) == rgba(events[i].color),
    decreases events.len(),
{
    let earlier = events.drop_last();
    let last = events.last();
    lemma_canvas_len(window, earlier);
    if last.shape() is Some {
        lemma_painted_cell(canvas_of(window, earlier), window, last.shape()->Some_0, last.color, x, y);
    }
    if i < events.len() - 1 {
        lemma_last_write_wins(window, earlier, i, x, y);
    }
}

/// A cell of the viewport that no event painted is opaque white.
pub proof fn lemma_untouched_cell(window: Viewport, events: Seq<PlacementEvent>, x: int, y: int)
    requires
        window.wf(),
        window.contains(x, y),
        forall|j: int| 0 <= j < events.len() ==> !touches(#[trigger] events[j], x, y),
    ensures
        cell_bytes(canvas_of(window, events), window, x, y) == seq![0xffu8, 0xffu8, 0xffu8, 0xffu8],
    decreases events.len(),
{
    if events.len() == 0 {
        let width = window.width();
        let height = window.height();
        let col = x - window.x1;
        let row = y - window.y1;
        assert(0 <= row * width + col < width * height) by (nonlinear_arith)
            requires
                0 <= col < width,
                0 <= row < height,
        ;
    } else {
        let earlier = events.drop_last();
        let last = events.last();
        lemma_canvas_len(window, earlier);
        if last.shape() is Some {
            lemma_painted_cell(
                canvas_of(window, earlier),
                window,
                last.shape()->Some_0,
                last.color,
                x,
                y,
            );
        }
        lemma_untouched_cell(window, earlier, x, y);
    }
}

/// What the engine waits for.
#[derive(Clone, Copy, Debug, PartialEq, Eq, Structural)]
pub enum Phase {
    /// The next event of the store is wanted.
    AwaitingNextEvent,
    /// A frame is due.
    Emitting,
    /// The render is over.
    Done,
}

/// The engine's state as contracts see it.
pub struct ReplayState {
    pub window: Viewport,
    pub start: int,
    pub end: int,
    pub interval: int,
    /// The index of the tick that is being drained or emitted.
    pub tick: int,
    pub phase: Phase,
    /// The frame that is due is the final one.
    pub trailing: bool,
    /// The events applied so far, in order.
    pub done: Seq<PlacementEvent>,
    /// An event that was fetched but is not due yet.
    pub pending: Option<PlacementEvent>,
    /// The store has said that no event is left.
    pub exhausted: bool,
    /// Why the render was given up, if it was.
    pub failure: Option<RenderError>,
}

impl ReplayState {
    /// The time of the current tick.
    pub open spec fn clock(self) -> int {
        self.start + self.tick * self.interval
    }

    /// The frame that a snapshot would show.
    pub open spec fn frame(self) -> Seq<u8> {
        canvas_of(self.window, self.done)
    }

    /// The state a render starts in. With an empty time range only the final
    /// frame is due.
    pub open spec fn initial(window: Viewport, start: int, end: int, interval: int) -> ReplayState {
        ReplayState {
            window,
            start,
            end,
            interval,
            tick: 0,
            phase: if start < end {
                Phase::AwaitingNextEvent
            } else {
                Phase::Emitting
            },
            trailing: start >= end,
            done: Seq::empty(),
            pending: None,
            exhausted: false,
            failure: None,
        }
    }

    /// The state after the render was given up for `cause`.
    pub open spec fn failed(self, cause: RenderError) -> ReplayState {
        ReplayState { phase: Phase::Done, failure: Some(cause), ..self }
    }

    /// The state after `event` was applied, or after it could not be decoded.
    pub open spec fn applied(self, event: PlacementEvent) -> ReplayState {
        if event.shape() is None {
            self.failed(RenderError::Malformed(MalformedEvent::AmbiguousSentinel))
        } else {
            ReplayState { done: self.done.push(event), ..self }
        }
    }

    /// The state after the store answered with `event`, or with `None` at its
    /// end. An event at or after the clock is kept back and a frame is due;
    /// an earlier one is applied and the next is wanted.
    pub open spec fn offered(self, event: Option<PlacementEvent>) -> ReplayState {
        match event {
            None => ReplayState { exhausted: true, phase: Phase::Emitting, ..self },
            Some(e) => if e.timestamp >= self.clock() {
                ReplayState { pending: Some(e), phase: Phase::Emitting, ..self }
            } else {
                self.applied(e)
            },
        }
    }

    /// The state after the due frame was written. After the final frame the
    /// render is done. After the last tick before `end` the final frame is
    /// due. Otherwise the clock moves one interval on; the event kept back,
    /// if there is one, is applied when it is earlier than the new clock, and
    /// else the next frame is due at once.
    pub open spec fn emitted(self) -> ReplayState {
        if self.trailing {
            ReplayState { phase: Phase::Done, ..self }
        } else if self.clock() + self.interval >= self.end {
            ReplayState { trailing: true, ..self }
        } else {
            let moved = ReplayState { tick: self.tick + 1, ..self };
            match self.pending {
                Some(e) => if e.timestamp < moved.clock() {
                    (ReplayState {
                        pending: None,
                        phase: Phase::AwaitingNextEvent,
                        ..moved
                    }).applied(e)
                } else {
                    moved
                },
                None => if self.exhausted {
                    moved
                } else {
                    ReplayState { phase: Phase::AwaitingNextEvent, ..moved }
                },
            }
        }
    }
}

/// The timestamp of the last of the events, if there is one.
pub open spec fn last_timestamp(events: Seq<PlacementEvent>) -> Option<i64> {
    if events.len() == 0 {
        None
    } else {
        Some(events.last().timestamp)
    }
}

/// The replay engine. It owns the canvas for the whole render.
pub struct Replay {
    canvas: Canvas,
    clock: i64,
    end: i64,
    interval: i64,
    phase: Phase,
    trailing: bool,
    pending: Option<PlacementEvent>,
    exhausted: bool,
    applied: u64,
    last_applied: Option<i64>,
    failure: Option<RenderError>,
    start: Ghost<int>,
    tick: Ghost<int>,
    done: Ghost<Seq<PlacementEvent>>,
}

impl View for Replay {
    type V = ReplayState;

    closed spec fn view(&self) -> ReplayState {
        ReplayState {
            window: self.canvas.window(),
            start: self.start@,
            end: self.end as int,
            interval: self.interval as int,
            tick: self.tick@,
            phase: self.phase,
            trailing: self.trailing,
            done: self.done@,
            pending: self.pending,
            exhausted: self.exhausted,
            failure: self.failure,
        }
    }
}

impl Replay {
    /// The canvas is the fold of the events applied so far, the clock stands
    /// at the current tick, and the counters agree with the events.
    pub closed spec fn wf(&self) -> bool {
        &&& self.canvas.wf()
        &&& self.canvas.bytes() == canvas_of(self.canvas.window(), self.done@)
        &&& self.interval > 0
        &&& self.tick@ >= 0
        &&& self.clock == self.start@ + self.tick@ * self.interval
        &&& self.applied == clipped(rendered_count(self.canvas.window(), self.done@))
        &&& self.last_applied == last_timestamp(self.done@)
        &&& self.failure is Some ==> self.phase == Phase::Done
    }

    /// Sets up a render of the viewport with the corners `(x1, y1)` and
    /// `(x2, y2)` over the ticks `start`, `start + interval`, ... before `end`.
    ///
    /// The viewport is checked first, then the interval.
    pub fn new(x1: i32, y1: i32, x2: i32, y2: i32, start: i64, end: i64, interval: i64) -> (r:
        Result<Replay, ConfigurationError>)
        ensures
            r is Ok <==> (Viewport { x1, y1, x2, y2 }).wf() && interval > 0,
            r is Ok ==> r->Ok_0.wf() && r->Ok_0@ == ReplayState::initial(
                Viewport { x1, y1, x2, y2 },
                start as int,
                end as int,
                interval as int,
            ),
            r is Err ==> r->Err_0 == (if x2 < x1 || y2 < y1 {
                ConfigurationError::InvertedViewport
            } else if !(Viewport { x1, y1, x2, y2 }).wf() {
                ConfigurationError::ViewportTooLarge
            } else {
                ConfigurationError::NonPositiveInterval
            }),
    {
        let window = match Viewport::new(x1, y1, x2, y2) {
            Ok(window) => window,
            Err(e) => {
                return Err(e);
            },
        };
        if interval <= 0 {
            return Err(ConfigurationError::NonPositiveInterval);
        }
        let canvas = Canvas::new(window);
        let ticking = start < end;
        let engine = Replay {
            canvas,
            clock: start,
            end,
            interval,
            phase: if ticking {
                Phase::AwaitingNextEvent
            } else {
                Phase::Emitting
            },
            trailing: !ticking,
            pending: None,
            exhausted: false,
            applied: 0,
            last_applied: None,
            failure: None,
            start: Ghost(start as int),
            tick: Ghost(0int),
            done: Ghost(Seq::empty()),
        };
        Ok(engine)
    }

    /// What the engine waits for.
    pub fn phase(&self) -> (phase: Phase)
        ensures
            phase == self@.phase,
    {
        self.phase
    }

    /// The viewport of the render.
    pub fn viewport(&self) -> (window: Viewport)
        ensures
            window == self@.window,
    {
        self.canvas.viewport()
    }

    /// The number of events rendered so far. Points outside the viewport are
    /// not counted.
    pub fn applied(&self) -> (n: u64)
        requires
            self.wf(),
        ensures
            n == clipped(rendered_count(self@.window, self@.done)),
    {
        self.applied
    }

    /// The timestamp of the event applied last, if any was.
    pub fn last_applied_timestamp(&self) -> (t: Option<i64>)
        requires
            self.wf(),
        ensures
            t == last_timestamp(self@.done),
    {
        self.last_applied
    }

    /// Why the render was given up, if it was.
    pub fn failure(&self) -> (cause: Option<RenderError>)
        ensures
            cause == self@.failure,
    {
        self.failure
    }

    /// A copy of the canvas as it stands: the frame to write while a frame is
    /// due.
    pub fn snapshot(&self) -> (frame: Vec<u8>)
        requires
            self.wf(),
        ensures
            frame@ == self@.frame(),
            frame@.len() == self@.window.byte_len(),
    {
        proof {
            self.canvas.lemma_len();
        }
        self.canvas.snapshot()
    }

    /// Gives the render up, as after a failure of the store or of the sink.
    pub fn abort(&mut self, cause: RenderError)
        requires
            old(self).wf(),
        ensures
            final(self).wf(),
            final(self)@ == old(self)@.failed(cause),
    {
        self.phase = Phase::Done;
        self.failure = Some(cause);
    }

    /// Decodes and draws one event that is due, or gives the render up.
    fn apply_due(&mut self, event: PlacementEvent) -> (r: Result<(), RenderError>)
        requires
            old(self).wf(),
            old(self)@.failure is None,
        ensures
            final(self).wf(),
            final(self)@ == old(self)@.applied(event),
            r is Err <==> final(self)@.failure is Some,
            r is Err ==> final(self)@.failure == Some(r->Err_0),
    {
        let ghost before = self.done@;
        match apply(&mut self.canvas, &event) {
            Err(e) => {
                let cause = RenderError::Malformed(e);
                self.phase = Phase::Done;
                self.failure = Some(cause);
                Err(cause)
            },
            Ok(rendered) => {
                if rendered && self.applied < u64::MAX {
                    self.applied = self.applied + 1;
                }
                self.last_applied = Some(event.timestamp);
                self.done = Ghost(before.push(event));
                proof {
                    assert(before.push(event).drop_last() =~= before);
                }
                Ok(())
            },
        }
    }

    /// Takes the store's answer to a fetch: the next event, or `None` at the
    /// end of the sequence.
    ///
    /// An event at or after the clock is kept back for a later tick and a
    /// frame is due. An earlier event is applied; when it cannot be decoded
    /// the render is given up.
    pub fn offer(&mut self, event: Option<PlacementEvent>) -> (r: Result<(), RenderError>)
        requires
            old(self).wf(),
            old(self)@.phase == Phase::AwaitingNextEvent,
        ensures
            final(self).wf(),
            final(self)@ == old(self)@.offered(event),
            r is Err <==> final(self)@.failure is Some,
            r is Err ==> final(self)@.failure == Some(r->Err_0),
    {
        match event {
            None => {
                self.exhausted = true;
                self.phase = Phase::Emitting;
                Ok(())
            },
            Some(e) => {
                if e.timestamp >= self.clock {
                    self.pending = Some(e);
                    self.phase = Phase::Emitting;
                    Ok(())
                } else {
                    self.apply_due(e)
                }
            },
        }
    }

    /// Takes note that the due frame was written.
    ///
    /// After the final frame the render is done. Otherwise the clock moves
    /// one interval on. When it reaches `end` the final frame is due. Else
    /// the event kept back, if it is earlier than the new clock, is applied.
    pub fn frame_written(&mut self) -> (r: Result<(), RenderError>)
        requires
            old(self).wf(),
            old(self)@.phase == Phase::Emitting,
        ensures
            final(self).wf(),
            final(self)@ == old(self)@.emitted(),
            r is Err <==> final(self)@.failure is Some,
            r is Err ==> final(self)@.failure == Some(r->Err_0),
    {
        if self.trailing {
            self.phase = Phase::Done;
            return Ok(());
        }
        let next = match self.clock.checked_add(self.interval) {
            Some(next) if next < self.end => next,
            _ => {
                self.trailing = true;
                return Ok(());
            },
        };
        proof {
            let t = self.tick@;
            let i = self.interval as int;
            assert(self.start@ + (t + 1) * i == self.start@ + t * i + i) by (nonlinear_arith);
        }
        self.clock = next;
        self.tick = Ghost(self.tick@ + 1);
        match self.pending {
            Some(e) => {
                if e.timestamp < next {
                    self.pending = None;
                    self.phase = Phase::AwaitingNextEvent;
                    self.apply_due(e)
                } else {
                    Ok(())
                }
            },
            None => {
                if !self.exhausted {
                    self.phase = Phase::AwaitingNextEvent;
                }
                Ok(())
            },
        }
    }
}

} // verus!
