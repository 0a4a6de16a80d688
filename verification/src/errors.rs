//! Error kinds of the engine and the distinguishable verification failures.

use vstd::prelude::*;

verus! {

/// A cryptographic or structural check of the pipeline that did not hold.
/// These are the designed negative outcomes of verification, one per check.
#[derive(Clone, Copy, Debug, PartialEq, Eq, Structural)]
pub enum VerifyFailure {
    /// A public-input segment whose begin address lies past its stop pointer.
    MalformedSegments,
    /// Range-check bounds out of order.
    RangeCheckOrder,
    /// Main-page memory entries whose addresses are not strictly increasing.
    AddressOutOfOrder,
    /// A continuous-page header describing an empty page.
    EmptyPageHeader,
    /// The claimed composition value does not match the commitments at the
    /// derived challenge point.
    CommitmentMismatch,
    /// The recomputed public-input hash differs from the one the proof carries.
    PublicInputHashMismatch,
}

/// Everything a driver call can fail with.
#[derive(Clone, Copy, Debug, PartialEq, Eq, Structural)]
pub enum EngineError {
    /// A stack region would grow past its configured bound; the session must
    /// be aborted, never silently truncated.
    CapacityExceeded,
    /// A pop or peek on an empty data region: a contract violation, fatal.
    Empty,
    /// A task frame that no registered task kind can decode: a corrupted or
    /// cross-version checkpoint, fatal.
    UnknownTaskTag,
    /// A verification check failed; the proof is rejected.  This is a normal
    /// negative result, distinguishable from the fatal kinds above.
    VerificationFailed(VerifyFailure),
    /// The proof bytes handed to ingestion do not have the required layout.
    MalformedProof,
}

} // verus!
