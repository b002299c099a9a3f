//! A backend-independent description of feed-forward layered networks,
//! together with a batched supervised-dataset pipeline.
//!
//! The topology half declares layers (`LayerSpec`), infers and validates the
//! shape flowing through each of them (`infer`), and accumulates them into an
//! immutable, fully checked `NetworkTopology` (`NetworkSpecBuilder`).
//!
//! The pipeline half parses a tabular label source (`LabelIndex`), pairs it
//! with the identifiers found on disk (`DatasetIndex`), and partitions the
//! resulting ordered sample sequence into fixed-size training batches
//! (`BatchIterator`). All file and device access stays outside: the library
//! works on plain values handed in by its caller.

pub mod errors;
pub mod shape;
pub mod layer;
pub mod infer;
pub mod topology;
pub mod alexnet;
pub mod lenet;
pub mod text;
pub mod labels;
pub mod dataset;
pub mod batch;
pub mod driver;
