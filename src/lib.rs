//! An event filterer over tagged events, with filters per tag dimension, and
//! the decision logic of the worker that applies action outcomes.
pub mod text;
pub mod tags;
pub mod filter;
pub mod error;
pub mod globs;
pub mod filterer;
pub mod outcome;
