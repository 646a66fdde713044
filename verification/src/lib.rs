//! Verified decision logic of the broker-reader-writer pattern.
//!
//! A broker receives items from a reader and forwards work to a writer.
//! Each of the three runs a loop whose decisions (run the operation, hand
//! its result to the handler, stop, shut the others down) are stated here
//! as state machines with exact contracts; the runtime that performs the
//! actions lives outside this crate.

pub mod broker;
pub mod builder;
pub mod reader;
pub mod running;
pub mod writer;

pub use running::Running;
pub use builder::Builder;
