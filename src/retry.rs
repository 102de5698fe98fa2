use vstd::prelude::*;

verus! {

/// How many times a failed fetch is tried again before it is given up.
pub const RETRY_COUNT: u32 = 8;

/// Pause between two tries of a preview fetch, in milliseconds.
pub const PREVIEW_RETRY_DELAY_MS: u64 = 500;

/// Pause before each try of a full download, in milliseconds.
pub const DOWNLOAD_RETRY_DELAY_MS: u64 = 100;

/// The two kinds of failure a fetch can report.
#[derive(Debug, Clone, Copy, PartialEq, Eq, Structural)]
pub enum FailureKind {
    /// Network failure or timeout: worth another try.
    Transient,
    /// Missing or unsupported resource, or undecodable bytes: never retried.
    Permanent,
}

/// The retry decision as a predicate: `failures` is the number of failures
/// already retried before this one.
pub open spec fn retry_allowed(failures: u32, error: FailureKind) -> bool {
    error == FailureKind::Transient && failures < RETRY_COUNT
}

/// Decides whether a failed fetch is tried again.
pub fn should_retry(failures: u32, error: FailureKind) -> (r: bool)
    ensures
        r == retry_allowed(failures, error),
{
    match error {
        FailureKind::Transient => failures < RETRY_COUNT,
        FailureKind::Permanent => false,
    }
}

} // verus!
