//! Error taxonomy: topology construction fails fast, the data pipeline
//! degrades gracefully and only signals fatal conditions through these types.

use vstd::prelude::*;

verus! {

/// Fatal errors of topology construction. The builder never leaves a
/// partially invalid topology behind: the first failing layer aborts it.
#[derive(Clone, Copy, Debug, PartialEq, Eq, Structural)]
pub enum TopologyError {
    /// A layer hyperparameter is non-positive where positivity is required.
    InvalidLayerParameter,
    /// A layer cannot be applied to the shape flowing into it, or the
    /// resulting dimensions do not fit the machine.
    IncompatibleShape,
    /// `finalize` was reached with no input shape or no layers.
    EmptyTopology,
}

/// Fatal errors of dataset construction and iteration. Per-row and
/// per-sample failures are not errors: they are counted and reported.
#[derive(Clone, Copy, Debug, PartialEq, Eq, Structural)]
pub enum PipelineError {
    /// The label source could not be opened, or holds no usable header.
    LabelSourceUnreadable,
    /// The intersection of on-disk identifiers and labelled identifiers
    /// is empty.
    EmptyDataset,
    /// The sample root disappeared or became unreadable mid-run.
    DatasetUnavailable,
}

} // verus!
