//! Streams with backpressure: readable and writable streams, byte streams, teeing, piping and
//! transforming, as verified state machines.
//!
//! Every machine is a plain value.  An event goes in through a method, and what has to happen
//! outside (answering a caller, waking a task, calling a source or a sink) comes out as a list of
//! effects, in the order in which they are to be carried out.

pub mod channel;
pub mod error;
pub mod occurrences;
pub mod pipe;
pub mod platform;
pub mod readable;
pub mod start;
pub mod strategy;
pub mod transform;
pub mod wakers;
pub mod writable;
