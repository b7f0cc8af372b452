//! Repairs broken file references in a line-oriented playlist.
//!
//! The crate holds the decisions of the four pipeline stages (reader, task
//! processor, statistics collector and writer) as verified functions over plain
//! values. Each stage is a step function from a state and an event to the next
//! state and the action to perform; the program around the library performs the
//! actions (file access, channel traffic, printing) and reports what happened.
pub mod conf;
pub mod error;
pub mod home;
pub mod phase;
pub mod pipeline;
pub mod reader;
pub mod report;
pub mod stats;
pub mod task_processor;
pub mod writer;

use vstd::prelude::*;

verus! {

/// The configuration file that is read when none is named.
pub const DEFAULT_CONF_PATH: &'static str = "config.yaml";

} // verus!
