use vstd::prelude::*;

verus! {

/// Every failure the core can surface. All errors are returned as typed
/// results; nothing is swallowed, and retry policy belongs to the caller.
#[derive(Clone, Copy, Debug, PartialEq, Eq, Structural)]
pub enum Error {
    /// The consensus client is frozen; it accepts no further proofs.
    ClientFrozen,
    /// The consensus client has outlived its unbonding period without an update.
    ClientExpired,
    /// A consensus proof was malformed, did not chain from the trusted
    /// state, or carried byzantine evidence.
    VerificationError,
    /// A membership proof did not verify against the stored commitment root.
    MembershipProofInvalid,
    /// A membership proof named a height that was never recorded.
    UnknownStateMachineHeight,
    /// A receipt was stored under an existing key with different content.
    DuplicateReceiptError,
    /// No stored receipt matches the requested corridor.
    NoClaimableReceipts,
    /// A host could not answer a state query.
    HostQueryError,
}

} // verus!
