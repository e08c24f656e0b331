//! Replays a log of pixel placements onto a raster canvas and cuts the replay
//! into frames at a fixed interval of simulated time.
//!
//! The crate is verified with Verus. Every executable function carries a
//! contract over the mathematical models defined next to it.
//!
//! * [`event`] holds the stored row and the three shapes it can stand for.
//! * [`canvas`] holds the frame buffer and says what painting a shape does.
//! * [`draw`] draws one event.
//! * [`replay`] is the engine: a state machine between a store of events and
//!   a sink of frames, neither of which it touches itself.
//! * [`timeline`] says which events the frame of each tick shows.
//! * [`render`] runs the engine over events in memory and proves that the
//!   engine, fed in order, cuts the frames of the timeline.
//! * [`text`], [`date`], [`record`] and [`archive`] read the archives that a
//!   store is filled from.
//! * [`palette`] lists the colours of the canvas.
//! * [`error`] lists what can go wrong.

pub mod archive;
pub mod canvas;
pub mod date;
pub mod draw;
pub mod error;
pub mod event;
pub mod palette;
pub mod record;
pub mod render;
pub mod replay;
pub mod text;
pub mod timeline;
