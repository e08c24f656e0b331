//! A whole render over events held in memory, and what it is bound to give.

use vstd::prelude::*;
use crate::canvas::Viewport;
use crate::error::{ConfigurationError, MalformedEvent, RenderError};
use crate::event::PlacementEvent;
use crate::replay::{canvas_of, lemma_canvas_len, rendered_count, Phase, Replay, ReplayState};
use crate::timeline::{
    cursor, drain_end, frame_at, lemma_cursor_bounds, lemma_cursor_monotone, lemma_drain_end,
    lemma_tick_exists, tick_count, tick_time,
};

verus! {

/// What a render hands back: the frames in the order they were cut, and the
/// number of events rendered.
pub struct Rendering {
    pub frames: Vec<Vec<u8>>,
    pub applied: u64,
}

/// The bytes of each frame.
pub open spec fn frame_bytes(frames: Seq<Vec<u8>>) -> Seq<Seq<u8>> {
    Seq::new(frames.len(), |k: int| frames[k]@)
}

/// The number of events that a render applies: those that the last tick has
/// drained.
pub open spec fn consumed(events: Seq<PlacementEvent>, start: int, end: int, interval: int) -> int {
    cursor(events, start, interval, tick_count(start, end, interval) - 1)
}

/// One of the first `n` events has no shape.
pub open spec fn undecodable(events: Seq<PlacementEvent>, n: int) -> bool {
    exists|i: int| 0 <= i < n && (#[trigger] events[i]).shape() is None
}

/// The frames of a render: one for each tick, and the last of them once more.
/// Without a tick the one frame is blank.
pub open spec fn frames_of(
    window: Viewport,
    events: Seq<PlacementEvent>,
    start: int,
    end: int,
    interval: int,
) -> Seq<Seq<u8>> {
    let n = tick_count(start, end, interval);
    Seq::new(
        (n + 1) as nat,
        |k: int| frame_at(window, events, start, interval, tick_of_frame(k, n)),
    )
}

/// What is wrong with the parameters of a render, if anything is. The
/// viewport is looked at first.
pub open spec fn configuration_fault(window: Viewport, interval: int) -> Option<
    ConfigurationError,
> {
    if window.x2 < window.x1 || window.y2 < window.y1 {
        Some(ConfigurationError::InvertedViewport)
    } else if !window.wf() {
        Some(ConfigurationError::ViewportTooLarge)
    } else if interval <= 0 {
        Some(ConfigurationError::NonPositiveInterval)
    } else {
        None
    }
}

/// `outcome` is what a render of `events` gives.
///
/// Bad parameters are reported first. An event without a shape among those
/// that the render applies makes it fail. Otherwise the frames and the count
/// are those of the model.
pub open spec fn renders(
    outcome: Result<Rendering, RenderError>,
    events: Seq<PlacementEvent>,
    window: Viewport,
    start: int,
    end: int,
    interval: int,
) -> bool {
    match configuration_fault(window, interval) {
        Some(fault) => outcome is Err && outcome->Err_0 == RenderError::Configuration(fault),
        None => if undecodable(events, consumed(events, start, end, interval)) {
            outcome is Err && outcome->Err_0 == RenderError::Malformed(
                MalformedEvent::AmbiguousSentinel,
            )
        } else {
            &&& outcome is Ok
            &&& outcome->Ok_0.frames@.len() == tick_count(start, end, interval) + 1
            &&& frame_bytes(outcome->Ok_0.frames@) == frames_of(
                window,
                events,
                start,
                end,
                interval,
            )
            &&& outcome->Ok_0.applied == rendered_count(
                window,
                events.take(consumed(events, start, end, interval)),
            )
        },
    }
}

/// A render cuts one frame for each tick and one more at the end, and that
/// final frame shows what the last tick showed.
pub proof fn lemma_final_frame(
    window: Viewport,
    events: Seq<PlacementEvent>,
    start: int,
    end: int,
    interval: int,
)
    requires
        interval > 0,
    ensures
        frames_of(window, events, start, end, interval).len() == tick_count(start, end, interval)
            + 1,
        frames_of(window, events, start, end, interval).last() == canvas_of(
            window,
            events.take(consumed(events, start, end, interval)),
        ),
{
    lemma_tick_exists(start, end, interval, 0);
    if end > start {
        assert((end - start - 1) / interval >= 0) by (nonlinear_arith)
            requires
                end - start - 1 >= 0,
                interval > 0,
        ;
    }
}

/// Every frame of a render has the size of the viewport.
pub proof fn lemma_frame_size(
    window: Viewport,
    events: Seq<PlacementEvent>,
    start: int,
    end: int,
    interval: int,
    k: int,
)
    requires
        window.wf(),
        0 <= k < frames_of(window, events, start, end, interval).len(),
    ensures
        frames_of(window, events, start, end, interval)[k].len() == window.byte_len(),
{
    let n = tick_count(start, end, interval);
    lemma_canvas_len(window, events.take(cursor(events, start, interval, tick_of_frame(k, n))));
}

/// A render is determined by its events and parameters: two outcomes of the
/// same render agree in everything, byte for byte.
pub proof fn lemma_render_deterministic(
    a: Result<Rendering, RenderError>,
    b: Result<Rendering, RenderError>,
    events: Seq<PlacementEvent>,
    window: Viewport,
    start: int,
    end: int,
    interval: int,
)
    requires
        renders(a, events, window, start, end, interval),
        renders(b, events, window, start, end, interval),
    ensures
        a is Ok <==> b is Ok,
        a is Err ==> a->Err_0 == b->Err_0,
        a is Ok ==> frame_bytes(a->Ok_0.frames@) == frame_bytes(b->Ok_0.frames@) && a->Ok_0.applied
            == b->Ok_0.applied,
{
}

/// No more events count as rendered than there are.
pub proof fn lemma_rendered_count_bound(window: Viewport, events: Seq<PlacementEvent>)
    ensures
        rendered_count(window, events) <= events.len(),
    decreases events.len(),
{
    if events.len() > 0 {
        lemma_rendered_count_bound(window, events.drop_last());
    }
}

/// The tick whose canvas frame `k` of a render with `n` ticks shows: its
/// own, or the last one for the final frame.
pub open spec fn tick_of_frame(k: int, n: int) -> int {
    if k < n {
        k
    } else {
        n - 1
    }
}

/// The frames that are still to be written.
pub open spec fn frames_to_come(s: ReplayState) -> int {
    if s.phase == Phase::Done {
        0
    } else if s.trailing {
        1
    } else {
        tick_count(s.start, s.end, s.interval) + 1 - s.tick
    }
}

/// The answers of the store that are still to be taken.
pub open spec fn fetches_to_come(s: ReplayState, events: Seq<PlacementEvent>, next: int) -> int {
    events.len() - next + if s.exhausted {
        0int
    } else {
        1int
    }
}

/// What the store answers to the fetch after `next` events.
pub open spec fn answer(events: Seq<PlacementEvent>, next: int) -> Option<PlacementEvent> {
    if 0 <= next < events.len() {
        Some(events[next])
    } else {
        None
    }
}

/// What ties an engine to the sequence of events that it is fed from, once
/// `next` events were fetched and `cut` frames were written.
///
/// The events applied are the first of the sequence, all of them had a
/// shape, and the one kept back is the one after them. While a tick drains,
/// the drain will end where the model says. When a frame is due, the events
/// applied are exactly those of the model's frame.
pub open spec fn in_step(
    s: ReplayState,
    events: Seq<PlacementEvent>,
    next: int,
    cut: int,
) -> bool {
    let n = tick_count(s.start, s.end, s.interval);
    let pos = s.done.len() as int;
    &&& s.interval > 0
    &&& s.tick >= 0
    &&& s.failure is None
    &&& pos <= events.len()
    &&& s.done == events.take(pos)
    &&& forall|i: int| 0 <= i < pos ==> (#[trigger] events[i]).shape() is Some
    &&& next == pos + if s.pending is Some {
        1int
    } else {
        0int
    }
    &&& next <= events.len()
    &&& s.pending is Some ==> s.pending == Some(events[pos]) && !s.exhausted && s.phase
        != Phase::AwaitingNextEvent
    &&& s.exhausted ==> next == events.len() && s.phase != Phase::AwaitingNextEvent
    &&& !s.trailing ==> s.tick < n && cut == s.tick
    &&& s.trailing ==> pos == cursor(events, s.start, s.interval, n - 1)
    &&& match s.phase {
        Phase::AwaitingNextEvent => !s.trailing && drain_end(
            events,
            pos,
            tick_time(s.start, s.interval, s.tick),
        ) == cursor(events, s.start, s.interval, s.tick),
        Phase::Emitting => if s.trailing {
            cut == n
        } else {
            pos == cursor(events, s.start, s.interval, s.tick)
        },
        Phase::Done => s.trailing && cut == n + 1,
    }
}

/// A fresh engine is in step with any sequence of events.
pub proof fn lemma_initial_in_step(
    window: Viewport,
    start: int,
    end: int,
    interval: int,
    events: Seq<PlacementEvent>,
)
    requires
        interval > 0,
    ensures
        in_step(ReplayState::initial(window, start, end, interval), events, 0, 0),
{
    lemma_tick_exists(start, end, interval, 0);
    assert(events.take(0) =~= Seq::<PlacementEvent>::empty());
    assert(cursor(events, start, interval, -1) == 0);
}

/// Handing the engine the store's next answer keeps it in step, or makes it
/// fail on an event that the render applies and that has no shape.
pub proof fn lemma_offer_in_step(
    s: ReplayState,
    events: Seq<PlacementEvent>,
    next: int,
    cut: int,
)
    requires
        in_step(s, events, next, cut),
        s.phase == Phase::AwaitingNextEvent,
    ensures
        ({
            let after = s.offered(answer(events, next));
            let fetched = if next < events.len() {
                next + 1
            } else {
                next
            };
            if after.failure is Some {
                &&& after.failure == Some(
                    RenderError::Malformed(MalformedEvent::AmbiguousSentinel),
                )
                &&& undecodable(events, consumed(events, s.start, s.end, s.interval))
            } else {
                &&& in_step(after, events, fetched, cut)
                &&& frames_to_come(after) == frames_to_come(s)
                &&& 0 <= fetches_to_come(after, events, fetched) < fetches_to_come(s, events, next)
            }
        }),
{
    let n = tick_count(s.start, s.end, s.interval);
    let pos = s.done.len() as int;
    let t = tick_time(s.start, s.interval, s.tick);
    lemma_cursor_bounds(events, s.start, s.interval, s.tick);
    if next < events.len() {
        let e = events[next];
        if e.timestamp < t {
            lemma_drain_end(events, pos + 1, t);
            lemma_cursor_monotone(events, s.start, s.interval, s.tick, n - 1);
            if e.shape() is Some {
                assert(s.done.push(e) =~= events.take(pos + 1));
            }
        }
    }
}

/// While a frame is due the engine shows the frame of the model. Taking
/// note that it was written keeps the engine in step, or makes it fail on an
/// event that the render applies and that has no shape.
pub proof fn lemma_emit_in_step(
    s: ReplayState,
    events: Seq<PlacementEvent>,
    next: int,
    cut: int,
)
    requires
        in_step(s, events, next, cut),
        s.phase == Phase::Emitting,
    ensures
        s.frame() == frame_at(
            s.window,
            events,
            s.start,
            s.interval,
            tick_of_frame(cut, tick_count(s.start, s.end, s.interval)),
        ),
        ({
            let after = s.emitted();
            if after.failure is Some {
                &&& after.failure == Some(
                    RenderError::Malformed(MalformedEvent::AmbiguousSentinel),
                )
                &&& undecodable(events, consumed(events, s.start, s.end, s.interval))
            } else {
                &&& in_step(after, events, next, cut + 1)
                &&& 0 <= frames_to_come(after) < frames_to_come(s)
            }
        }),
{
    let n = tick_count(s.start, s.end, s.interval);
    let pos = s.done.len() as int;
    let k = s.tick;
    let t1 = tick_time(s.start, s.interval, k + 1);
    assert(t1 == s.clock() + s.interval) by (nonlinear_arith)
        requires
            t1 == s.start + (k + 1) * s.interval,
            s.clock() == s.start + k * s.interval,
    ;
    lemma_tick_exists(s.start, s.end, s.interval, k + 1);
    lemma_cursor_bounds(events, s.start, s.interval, k);
    lemma_cursor_bounds(events, s.start, s.interval, k + 1);
    if !s.trailing && t1 < s.end {
        lemma_cursor_monotone(events, s.start, s.interval, k + 1, n - 1);
        if s.pending is Some {
            let e = s.pending->Some_0;
            if e.timestamp < t1 {
                lemma_drain_end(events, pos + 1, t1);
                if e.shape() is Some {
                    assert(s.done.push(e) =~= events.take(pos + 1));
                }
            }
        }
    }
}

/// An engine that is in step and done has applied the events that the model
/// applies, all of them with a shape, and as many frames were written as the
/// model has.
pub proof fn lemma_done_in_step(
    s: ReplayState,
    events: Seq<PlacementEvent>,
    next: int,
    cut: int,
)
    requires
        in_step(s, events, next, cut),
        s.phase == Phase::Done,
    ensures
        cut == tick_count(s.start, s.end, s.interval) + 1,
        s.done == events.take(consumed(events, s.start, s.end, s.interval)),
        !undecodable(events, consumed(events, s.start, s.end, s.interval)),
        rendered_count(s.window, s.done) <= events.len(),
{
    let last = consumed(events, s.start, s.end, s.interval);
    lemma_rendered_count_bound(s.window, events.take(last));
    lemma_cursor_bounds(events, s.start, s.interval, tick_count(s.start, s.end, s.interval) - 1);
}

/// Replays `events` over the viewport with the corners `(x1, y1)` and
/// `(x2, y2)` and cuts a frame at `starttime`, then every `frame_interval`
/// milliseconds before `endtime`, and one more at the end.
///
/// The frame of a tick shows the events that were drained up to it: each
/// tick drains from where the last one stopped, up to the first event that is
/// not earlier than the tick.
pub fn render(
    events: &Vec<PlacementEvent>,
    x1: i32,
    y1: i32,
    x2: i32,
    y2: i32,
    starttime: i64,
    endtime: i64,
    frame_interval: i64,
) -> (outcome: Result<Rendering, RenderError>)
    ensures
        renders(
            outcome,
            events@,
            Viewport { x1, y1, x2, y2 },
            starttime as int,
            endtime as int,
            frame_interval as int,
        ),
{
    let ghost window = Viewport { x1, y1, x2, y2 };
    let ghost start = starttime as int;
    let ghost end = endtime as int;
    let ghost interval = frame_interval as int;
    let ghost n = tick_count(start, end, interval);
    let mut engine = match Replay::new(x1, y1, x2, y2, starttime, endtime, frame_interval) {
        Ok(engine) => engine,
        Err(fault) => {
            return Err(RenderError::Configuration(fault));
        },
    };
    let mut frames: Vec<Vec<u8>> = Vec::new();
    let mut next: usize = 0;
    proof {
        lemma_initial_in_step(window, start, end, interval, events@);
    }
    loop
        invariant
            engine.wf(),
            window.wf(),
            window == (Viewport { x1, y1, x2, y2 }),
            start == starttime,
            end == endtime,
            interval == frame_interval,
            engine@.window == window,
            engine@.start == start,
            engine@.end == end,
            engine@.interval == interval,
            n == tick_count(start, end, interval),
            in_step(engine@, events@, next as int, frames@.len() as int),
            forall|j: int|
                0 <= j < frames@.len() ==> (#[trigger] frames@[j])@ == frame_at(
                    window,
                    events@,
                    start,
                    interval,
                    tick_of_frame(j, n),
                ),
        ensures
            engine@.phase == Phase::Done,
        decreases frames_to_come(engine@), fetches_to_come(engine@, events@, next as int),
    {
        match engine.phase() {
            Phase::AwaitingNextEvent => {
                proof {
                    lemma_offer_in_step(engine@, events@, next as int, frames@.len() as int);
                }
                let fetched = if next < events.len() {
                    let e = events[next];
                    next = next + 1;
                    Some(e)
                } else {
                    None
                };
                match engine.offer(fetched) {
                    Err(cause) => {
                        return Err(cause);
                    },
                    Ok(()) => {},
                }
            },
            Phase::Emitting => {
                proof {
                    lemma_emit_in_step(engine@, events@, next as int, frames@.len() as int);
                }
                frames.push(engine.snapshot());
                match engine.frame_written() {
                    Err(cause) => {
                        return Err(cause);
                    },
                    Ok(()) => {},
                }
            },
            Phase::Done => {
                break ;
            },
        }
    }
    let applied = engine.applied();
    proof {
        lemma_done_in_step(engine@, events@, next as int, frames@.len() as int);
        assert(events@.len() == events.len());
        assert(frame_bytes(frames@) =~= frames_of(window, events@, start, end, interval));
    }
    Ok(Rendering { frames, applied })
}

} // verus!
