//! 64-bit, time-sortable unique identifiers: a 40-bit millisecond timestamp,
//! a 10-bit node id and a 13-bit per-millisecond sequence.
pub mod layout;
pub mod text;
pub mod error;
pub mod id;
pub mod order;
pub mod clock;
pub mod node;
pub mod batch;
pub mod generator;

pub use error::IdError;
pub use id::Id;
pub use generator::{Attempt, Generator, SimpleCursor, ThreadBatch};
