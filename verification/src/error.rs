use vstd::prelude::*;

verus! {

/// The failure kinds of the embedding codec.
#[derive(Clone, Copy, Debug, PartialEq, Eq, Structural)]
pub enum StegoError {
    /// A pixel index fell outside the image bounds.
    BoundsError,
    /// The payload would not fit within the image's embedding capacity.
    CapacityError,
    /// Recovered name bytes were not valid UTF-8.
    EncodingError,
}

} // verus!
