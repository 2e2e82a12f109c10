use vstd::prelude::*;

verus! {

/// Why a single logical fetch failed. Failures are data: within a stage they
/// are recorded against the item that caused them and never abort sibling
/// work. Only a discovery failure is fatal to a whole run.
#[derive(Clone, Copy, PartialEq, Eq, Structural, Debug)]
pub enum FetchError {
    /// A network-level failure: connection refused, timeout, name resolution.
    Transport,
    /// The remote service answered with a shape the client cannot interpret:
    /// a missing or wrongly typed field, or a non-array where an array was
    /// expected.
    BadResponse,
    /// The remote service answered with a non-success status code, passed
    /// through untouched rather than interpreted.
    RemoteStatus(u16),
}

} // verus!
