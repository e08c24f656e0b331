//! The failures a render or an ingestion can end in.

use vstd::prelude::*;

verus! {

/// Why one stored or textual record could not be understood.
#[derive(Clone, Copy, Debug, PartialEq, Eq, Structural)]
pub enum MalformedEvent {
    /// The first auxiliary field is unset while the second is not.
    AmbiguousSentinel,
    /// A record has fewer fields than an event needs.
    MissingField,
    /// The date text does not have the expected run of numeric fields.
    BadDate,
    /// The date fields do not name an instant that exists.
    NoSuchInstant,
    /// The coordinate text has an unknown layout or a number that does not fit.
    BadCoordinates,
    /// The colour text is not `#` followed by a hexadecimal number that fits.
    BadColor,
    /// More distinct actors were seen than identifiers exist.
    TooManyActors,
}

/// Why a render could not be set up.
#[derive(Clone, Copy, Debug, PartialEq, Eq, Structural)]
pub enum ConfigurationError {
    /// The second corner of the viewport lies left of or above the first.
    InvertedViewport,
    /// The viewport's pixel buffer could not be addressed on this machine.
    ViewportTooLarge,
    /// The frame interval is zero or negative.
    NonPositiveInterval,
}

/// Every way in which a render ends without a usable result.
#[derive(Clone, Copy, Debug, PartialEq, Eq, Structural)]
pub enum RenderError {
    /// An event that was due to be applied could not be decoded.
    Malformed(MalformedEvent),
    /// The event store failed to deliver.
    StoreQueryFailure,
    /// The frame sink refused a frame.
    SinkWriteFailure,
    /// The parameters of the render were rejected.
    Configuration(ConfigurationError),
}

} // verus!
