use vstd::prelude::*;

verus! {

/// Outcome of scanning one file. Constructed exactly once per scan job and
/// immutable afterwards; consumed by the report sink.
#[derive(Debug)]
pub struct Detection {
    /// Absolute, canonicalized path; the original path if canonicalization failed.
    pub path: String,
    /// Byte length at scan time; 0 if metadata lookup failed or the file is empty.
    pub size: u64,
    /// Unix epoch seconds at scan start.
    pub scanned_at: u64,
    /// Elapsed scan duration in whole seconds; 0 if matching was skipped.
    pub time: u64,
    /// Present when canonicalization, metadata lookup, or matching failed.
    pub error: Option<String>,
    /// True iff the matching engine returned at least one matched rule.
    pub detected: bool,
    /// Matched rule identifiers, in the order the engine returned them.
    pub tags: Vec<String>,
}

impl Detection {
    /// The structural invariant every constructed detection satisfies:
    /// a positive verdict is recorded iff at least one rule identifier was matched.
    pub open spec fn wf(self) -> bool {
        self.detected <==> self.tags@.len() > 0
    }
}

/// Settings for the matching engine: where the rules come from and the
/// per-file scan timeout in seconds.
pub struct Configuration {
    pub data_path: String,
    pub timeout: i32,
}

} // verus!
