use vstd::prelude::*;

verus! {

/// The unified failure taxonomy of the facade.
///
/// Construction-time misconfiguration fails fast and is always surfaced;
/// nothing is swallowed or retried internally.
#[derive(Debug)]
pub enum Error {
    /// The sandboxed backend's runtime has not finished its one-time
    /// initialization, so no parser can be constructed yet.
    BackendNotReady,
    /// The backend rejected the grammar's ABI version.
    LanguageMismatch,
    /// Included ranges were not given in non-decreasing, non-overlapping
    /// start order, or a range itself was backwards.
    InvalidIncludedRanges,
    /// Pattern text failed to compile; carries the offending offset and a
    /// human-readable reason, preserved verbatim for pattern authors.
    QueryCompileError { offset: u64, reason: String },
    /// The parse exceeded its configured time budget and the engine produced
    /// no partial tree to hand back.
    Timeout,
    /// An external cancellation flag was observed.
    Cancelled,
    /// The engine rejected the edits recorded on the previous tree.
    InvalidEdit,
}

} // verus!
