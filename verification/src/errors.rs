use vstd::prelude::*;

verus! {

/// Why the engine refused to process an activity or a fetched document.
///
/// - `Parse`: the payload is malformed; hard reject, never retried.
/// - `Signature`: authentication failed; hard reject, no dedup record.
/// - `Resolution`: a referenced actor or object could not be resolved; the
///   receiver does not retry (the sender owns delivery retries).
/// - `Application`: a moderation or validation gate refused the side effect,
///   or the referenced object is in a state that forbids it; a later retry
///   may succeed once the blocking condition clears.
#[derive(Clone, Copy, PartialEq, Eq, Structural, Debug)]
pub enum EngineError {
    Parse,
    Signature,
    Resolution,
    Application,
}

/// How a successfully ingested activity ended.
///
/// - `Applied`: its side effect was applied to local state.
/// - `Duplicate`: its id had already been fully processed; nothing was
///   re-applied, and the sender is told success so it stops retrying.
/// - `Unsupported`: the activity kind is outside the supported set; the
///   engine records it and reports success so unsupported features do not
///   poison sender retries.
#[derive(Clone, Copy, PartialEq, Eq, Structural, Debug)]
pub enum IngestOutcome {
    Applied,
    Duplicate,
    Unsupported,
}

} // verus!
