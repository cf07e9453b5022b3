//! What can go wrong in a store, and where.
use vstd::prelude::*;

verus! {

/// The step at which the engine refused.
#[derive(Debug, Clone, Copy, PartialEq, Eq, Structural)]
pub enum Step {
    /// Making the engine.
    Create,
    /// Reserving capacity.
    Reserve,
    /// Inserting a vector.
    Add,
    /// Taking a vector out.
    Remove,
    /// Answering a query.
    Search,
    /// Handing out a vector.
    Get,
    /// Writing an image.
    Save,
    /// Reading an image.
    Load,
}

/// Why an operation on a store failed.
#[derive(Debug, Clone, PartialEq, Eq)]
pub enum VexusError {
    /// The engine could not be made or given the capacity asked for.
    Construction { step: Step, reason: String },
    /// A vector does not have four bytes for each of the store's dimensions.
    /// The store was not touched.
    DimensionMismatch { expected: u32, byte_len: usize },
    /// The vectors of a batch do not have four bytes for each dimension of
    /// each label. The store was not touched.
    BatchSizeMismatch,
    /// A vector came under the one label that the engine keeps for itself.
    /// The store was not touched.
    ReservedLabel,
    /// The engine refused the operation; `reason` holds its own words.
    Engine { step: Step, reason: String },
    /// The engine refused the vector at `position` of a batch, at `step`. The
    /// vectors before it stay in the store.
    BatchItem { position: usize, step: Step, reason: String },
    /// The engine read an image, but the image is not one of vectors of the
    /// dimensions asked for, kept as 32-bit scalars.
    ImageMismatch,
    /// The store is too large for an image: an image says the number of
    /// its places and the bytes of one vector in 32 bits each.
    ImageTooLarge,
    /// The bytes are not those of a mapping between tags and labels.
    MappingCorrupt,
    /// A new tag came when every label had been handed out.
    OutOfLabels,
}

} // verus!
