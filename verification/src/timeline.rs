//! The schedule of a render: which ticks there are, and how many events have
//! been applied when the frame of a tick is cut.

use vstd::prelude::*;
use vstd::arithmetic::div_mod::{lemma_fundamental_div_mod, lemma_fundamental_div_mod_converse};
use crate::canvas::Viewport;
use crate::event::PlacementEvent;
use crate::replay::canvas_of;

verus! {

/// The time of tick `k`.
pub open spec fn tick_time(start: int, interval: int, k: int) -> int {
    start + k * interval
}

/// The number of ticks: the times `start`, `start + interval`, ... that are
/// earlier than `end`.
pub open spec fn tick_count(start: int, end: int, interval: int) -> int {
    if end <= start {
        0
    } else {
        (end - start - 1) / interval + 1
    }
}

/// Where a drain that starts at `from` stops: at the first event from there
/// on that is not earlier than `t`, or at the end of the sequence.
pub open spec fn drain_end(events: Seq<PlacementEvent>, from: int, t: int) -> int
    decreases events.len() - from,
{
    if 0 <= from < events.len() && events[from].timestamp < t {
        drain_end(events, from + 1, t)
    } else {
        from
    }
}

/// The number of events applied when the frame of tick `k` is cut. Each tick
/// drains on from where the tick before it stopped.
pub open spec fn cursor(events: Seq<PlacementEvent>, start: int, interval: int, k: int) -> int
    decreases k + 1,
{
    if k < 0 {
        0
    } else {
        drain_end(events, cursor(events, start, interval, k - 1), tick_time(start, interval, k))
    }
}

/// The frame of tick `k`.
pub open spec fn frame_at(
    window: Viewport,
    events: Seq<PlacementEvent>,
    start: int,
    interval: int,
    k: int,
) -> Seq<u8> {
    canvas_of(window, events.take(cursor(events, start, interval, k)))
}

/// The events are in the order of their timestamps.
pub open spec fn ascending(events: Seq<PlacementEvent>) -> bool {
    forall|i: int, j: int|
        0 <= i <= j < events.len() ==> events[i].timestamp <= events[j].timestamp
}

/// Tick `k` exists exactly when its time is earlier than `end`.
pub proof fn lemma_tick_exists(start: int, end: int, interval: int, k: int)
    requires
        interval > 0,
        k >= 0,
    ensures
        k < tick_count(start, end, interval) <==> tick_time(start, interval, k) < end,
{
    if end > start {
        let span = end - start - 1;
        let q = span / interval;
        lemma_fundamental_div_mod(span, interval);
        if k <= q {
            assert(k * interval <= q * interval) by (nonlinear_arith)
                requires
                    k <= q,
                    interval > 0,
            ;
            assert(interval * q == q * interval) by (nonlinear_arith);
        } else {
            assert(k * interval >= (q + 1) * interval) by (nonlinear_arith)
                requires
                    k >= q + 1,
                    interval > 0,
            ;
            assert((q + 1) * interval == interval * q + interval) by (nonlinear_arith);
        }
    } else {
        assert(k * interval >= 0) by (nonlinear_arith)
            requires
                k >= 0,
                interval > 0,
        ;
    }
}

/// A drain stops inside the sequence, has passed only events earlier than
/// `t`, and stands before an event that is not.
pub proof fn lemma_drain_end(events: Seq<PlacementEvent>, from: int, t: int)
    requires
        0 <= from <= events.len(),
    ensures
        from <= drain_end(events, from, t) <= events.len(),
        forall|i: int| from <= i < drain_end(events, from, t) ==> events[i].timestamp < t,
        drain_end(events, from, t) < events.len() ==> events[drain_end(events, from, t)].timestamp
            >= t,
    decreases events.len() - from,
{
    if from < events.len() && events[from].timestamp < t {
        lemma_drain_end(events, from + 1, t);
    }
}

/// The cursor stays inside the sequence and never moves back.
pub proof fn lemma_cursor_bounds(events: Seq<PlacementEvent>, start: int, interval: int, k: int)
    ensures
        0 <= cursor(events, start, interval, k) <= events.len(),
        cursor(events, start, interval, k - 1) <= cursor(events, start, interval, k),
    decreases k + 1,
{
    if k >= 0 {
        lemma_cursor_bounds(events, start, interval, k - 1);
        lemma_drain_end(
            events,
            cursor(events, start, interval, k - 1),
            tick_time(start, interval, k),
        );
    }
}

/// A later tick has applied at least the events of an earlier one.
pub proof fn lemma_cursor_monotone(
    events: Seq<PlacementEvent>,
    start: int,
    interval: int,
    j: int,
    k: int,
)
    requires
        j <= k,
    ensures
        cursor(events, start, interval, j) <= cursor(events, start, interval, k),
    decreases k - j,
{
    if j < k {
        lemma_cursor_monotone(events, start, interval, j, k - 1);
        lemma_cursor_bounds(events, start, interval, k);
    }
}

/// With events in ascending order, the frame of a tick holds exactly the
/// events that are earlier than the tick's time.
pub proof fn lemma_frame_holds_earlier_events(
    events: Seq<PlacementEvent>,
    start: int,
    interval: int,
    k: int,
)
    requires
        ascending(events),
        interval > 0,
        k >= 0,
    ensures
        forall|i: int|
            0 <= i < events.len() ==> (i < cursor(events, start, interval, k)
                <==> events[i].timestamp < tick_time(start, interval, k)),
    decreases k,
{
    let before = cursor(events, start, interval, k - 1);
    let t = tick_time(start, interval, k);
    lemma_cursor_bounds(events, start, interval, k - 1);
    lemma_drain_end(events, before, t);
    if k > 0 {
        lemma_frame_holds_earlier_events(events, start, interval, k - 1);
        assert(tick_time(start, interval, k - 1) < t) by (nonlinear_arith)
            requires
                interval > 0,
                t == start + k * interval,
                tick_time(start, interval, k - 1) == start + (k - 1) * interval,
        ;
    }
}

/// A drain does not pass an event that is not earlier than `t`.
pub proof fn lemma_drain_stops(events: Seq<PlacementEvent>, from: int, t: int, i: int)
    requires
        0 <= from <= i < events.len(),
        events[i].timestamp >= t,
    ensures
        drain_end(events, from, t) <= i,
    decreases i - from,
{
    if from < i && events[from].timestamp < t {
        lemma_drain_stops(events, from + 1, t, i);
    }
}

/// A drain passes every event up to `to` when all of them are earlier
/// than `t`.
pub proof fn lemma_drain_passes(events: Seq<PlacementEvent>, from: int, t: int, to: int)
    requires
        0 <= from <= to <= events.len(),
        forall|j: int| from <= j < to ==> events[j].timestamp < t,
    ensures
        drain_end(events, from, t) >= to,
    decreases to - from,
{
    if from < to {
        lemma_drain_passes(events, from + 1, t, to);
    } else {
        lemma_drain_end(events, from, t);
    }
}

/// An event is not applied by any tick up to the one whose time is its
/// timestamp.
pub proof fn lemma_not_yet_due(
    events: Seq<PlacementEvent>,
    start: int,
    interval: int,
    k: int,
    i: int,
)
    requires
        interval > 0,
        0 <= i < events.len(),
        events[i].timestamp >= tick_time(start, interval, k),
    ensures
        cursor(events, start, interval, k) <= i,
    decreases k + 1,
{
    if k >= 0 {
        assert(tick_time(start, interval, k - 1) <= tick_time(start, interval, k))
            by (nonlinear_arith)
            requires
                interval > 0,
                tick_time(start, interval, k) == start + k * interval,
                tick_time(start, interval, k - 1) == start + (k - 1) * interval,
        ;
        lemma_not_yet_due(events, start, interval, k - 1, i);
        lemma_cursor_bounds(events, start, interval, k - 1);
        lemma_drain_stops(
            events,
            cursor(events, start, interval, k - 1),
            tick_time(start, interval, k),
            i,
        );
    }
}

/// The half-open boundary: an event whose timestamp is the time of tick `k`
/// is missing from the frame of tick `k`. It is present in the frame of
/// tick `k + 1` when every event before it is earlier than that tick, as
/// it is with events in ascending order.
pub proof fn lemma_half_open_tick(
    events: Seq<PlacementEvent>,
    start: int,
    interval: int,
    k: int,
    i: int,
)
    requires
        interval > 0,
        k >= 0,
        0 <= i < events.len(),
        events[i].timestamp == tick_time(start, interval, k),
        forall|j: int| 0 <= j < i ==> events[j].timestamp < tick_time(start, interval, k + 1),
    ensures
        cursor(events, start, interval, k) <= i < cursor(events, start, interval, k + 1),
{
    lemma_not_yet_due(events, start, interval, k, i);
    lemma_cursor_bounds(events, start, interval, k);
    assert(tick_time(start, interval, k) < tick_time(start, interval, k + 1)) by (nonlinear_arith)
        requires
            interval > 0,
            tick_time(start, interval, k) == start + k * interval,
            tick_time(start, interval, k + 1) == start + (k + 1) * interval,
    ;
    lemma_drain_passes(
        events,
        cursor(events, start, interval, k),
        tick_time(start, interval, k + 1),
        i + 1,
    );
}

} // verus!
