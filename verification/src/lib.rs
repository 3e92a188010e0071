//! Latency instrumentation for a hostcall dispatch layer.
//!
//! A `TimingStore` maps a closed, fixed set of hostcall names to growable
//! sequences of recorded durations, measured in raw cycle-counter ticks.
//! Dispatch sites bracket each hostcall with a cycle-counter read and push
//! the resulting `(start, end)` pair under the hostcall's name; at the end
//! of a run the non-empty sample sets are extracted for reporting.

use vstd::prelude::*;

pub mod registry;
pub mod report;
pub mod store;

verus! {

/// The ways a timing operation can fail.
///
/// Pushing a sample under a name outside the closed registry is a caller
/// contract violation; it is reported explicitly so the dispatch layer can
/// treat it as fatal.
#[derive(Debug, Clone, Copy, PartialEq, Eq, Structural)]
pub enum TimingError {
    UnknownOperation,
}

} // verus!
