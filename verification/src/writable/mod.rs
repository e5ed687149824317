//! Writable streams.

pub mod answers;
pub mod builder;
pub mod controller;
pub mod effect;
pub mod handle;
pub mod inner;
pub mod laws;
pub mod model;
pub mod progress;
pub mod sink_laws;
pub mod successes;
pub mod writer;
