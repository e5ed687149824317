//! Readable streams.

pub mod byte_laws;
pub mod byte_progress;
pub mod byte_state;
pub mod byte_task;
pub mod builder;
pub mod controller;
pub mod effect;
pub mod handle;
pub mod inner;
pub mod laws;
pub mod model;
pub mod progress;
pub mod reader;
pub mod reading_laws;
pub mod source;
pub mod source_laws;
pub mod tee;
