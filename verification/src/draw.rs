//! Drawing one event onto a canvas.

use vstd::prelude::*;
use crate::canvas::{painted, Canvas, Viewport};
use crate::error::MalformedEvent;
use crate::event::{PlacementEvent, Shape};

verus! {

/// The frame after one event was applied. An event without a shape changes
/// nothing.
pub open spec fn after_event(frame: Seq<u8>, window: Viewport, event: PlacementEvent) -> Seq<u8> {
    match event.shape() {
        Some(shape) => painted(
            frame,
            window.x1 as int,
            window.y1 as int,
            window.width(),
            shape,
            event.color,
        ),
        None => frame,
    }
}

/// Whether an applied event is counted as rendered: circles and rectangles
/// always, a point only when the viewport holds it.
pub open spec fn counted(window: Viewport, event: PlacementEvent) -> bool {
    match event.shape() {
        Some(Shape::Point { x, y }) => window.contains(x as int, y as int),
        Some(_) => true,
        None => false,
    }
}

/// Draws the event as a single cell at `(x, y)`.
pub fn draw_pixel(frame: &mut Canvas, pixel: &PlacementEvent)
    requires
        old(frame).wf(),
    ensures
        final(frame).wf(),
        final(frame).window() == old(frame).window(),
        final(frame).bytes() == old(frame).filled(Shape::Point { x: pixel.x, y: pixel.y }, pixel.color),
{
    frame.set_pixel(pixel.x, pixel.y, pixel.color);
}

/// Draws the event as a rectangle with the corners `(x, y)` and
/// `(aux1, aux2)`, in either order.
pub fn draw_rectangle(frame: &mut Canvas, pixel: &PlacementEvent)
    requires
        old(frame).wf(),
    ensures
        final(frame).wf(),
        final(frame).window() == old(frame).window(),
        final(frame).bytes() == old(frame).filled(
            Shape::Rectangle { ax: pixel.x, ay: pixel.y, bx: pixel.aux1, by: pixel.aux2 },
            pixel.color,
        ),
{
    frame.fill_rectangle((pixel.x, pixel.y), (pixel.aux1, pixel.aux2), pixel.color);
}

/// Draws the event as a disk around `(x, y)` with the radius `aux1`.
pub fn draw_circle(frame: &mut Canvas, pixel: &PlacementEvent)
    requires
        old(frame).wf(),
    ensures
        final(frame).wf(),
        final(frame).window() == old(frame).window(),
        final(frame).bytes() == old(frame).filled(
            Shape::Circle { cx: pixel.x, cy: pixel.y, radius: pixel.aux1 },
            pixel.color,
        ),
{
    frame.fill_circle((pixel.x, pixel.y), pixel.aux1, pixel.color);
}

/// Decodes one event and draws it. A point that the viewport does not hold is
/// passed over without a write. Returns whether the event counts as rendered.
pub fn apply(frame: &mut Canvas, event: &PlacementEvent) -> (r: Result<bool, MalformedEvent>)
    requires
        old(frame).wf(),
    ensures
        final(frame).wf(),
        final(frame).window() == old(frame).window(),
        final(frame).bytes() == after_event(old(frame).bytes(), old(frame).window(), *event),
        event.shape() is Some ==> r == Ok::<bool, MalformedEvent>(
            counted(old(frame).window(), *event),
        ),
        event.shape() is None ==> r == Err::<bool, MalformedEvent>(
            MalformedEvent::AmbiguousSentinel,
        ),
{
    match event.decode() {
        Err(e) => Err(e),
        Ok(Shape::Point { x, y }) => {
            if !frame.viewport().holds(x, y) {
                proof {
                    frame.lemma_point_outside(x, y, event.color);
                }
                return Ok(false);
            }
            draw_pixel(frame, event);
            Ok(true)
        },
        Ok(Shape::Circle { .. }) => {
            draw_circle(frame, event);
            Ok(true)
        },
        Ok(Shape::Rectangle { .. }) => {
            draw_rectangle(frame, event);
            Ok(true)
        },
    }
}

} // verus!
