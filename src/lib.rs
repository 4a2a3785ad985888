//! Online word-embedding trainer: the integer and text logic behind the
//! embedding store, the corpus pipeline and the trainer's progress record.
//!
//! Vector arithmetic lives with the caller; this crate decides which words
//! exist, which vector pairs a training call touches, how article text turns
//! into tokens, and how a streaming run moves between its phases.

use vstd::prelude::*;

pub mod definitions;
pub mod hashing;
pub mod math;
pub mod model;
pub mod pipeline;
pub mod progress;
pub mod query;
pub mod text;
pub mod vocab;
