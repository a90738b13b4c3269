//! Greedy batching of key/value records for a bulk-write store, and the
//! decision logic that drives the sequential upload of those batches.

pub mod plan;
pub mod record;
pub mod uploader;

pub use record::{Limits, Record, PAIRS_MAX_COUNT, UPLOAD_MAX_SIZE};
pub use uploader::{plan_batches, Action, Event, Phase, Uploader};
