//! Cooperative cancellation contexts.
//!
//! A [`Context`] is an awaitable, clonable cancellation signal. Completing any
//! clone completes them all; completion flows from a context to the children
//! derived from it, never upwards.
//!
//! The bookkeeping behind a family of contexts (a root and everything derived
//! from it) is the arena [`Tree`], whose operations carry full contracts.
use vstd::prelude::*;

pub mod context;
pub mod laws;
mod sync;
pub mod tree;

pub use context::Context;
pub use tree::{NodeState, Tree};
