//! Bridges a push-based event source into pull-based, poll-driven consumption,
//! and ties a rendered node's presence in its mount point to the lifetime of the
//! computation that drives it.
use vstd::prelude::*;

pub mod bridge;
pub mod listeners;
pub mod render;

verus! {

} // verus!
