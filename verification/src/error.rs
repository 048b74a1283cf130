//! The reasons for which a record is not created or a mutation is rejected.

use vstd::prelude::*;

verus! {

/// Why a record, or one of its parts, could not be created.
#[derive(Clone, Copy, Debug, PartialEq, Eq, Structural)]
pub enum CreationError {
    /// The identity has an empty id, or retains no version when archiving.
    InvalidIdentity,
    /// No owner key was supplied.
    EmptyOwnerSet,
    /// An owner key has a weight of zero.
    InvalidWeight,
    /// An owner key appears twice.
    DuplicateKey,
    /// The first version does not have index zero.
    NonSequentialIndex,
    /// The record would be larger than the size limit.
    SizeLimitExceeded,
}

/// Why a proposed mutation was rejected.
#[derive(Clone, Copy, Debug, PartialEq, Eq, Structural)]
pub enum MutationError {
    /// The expiry time of the record has been reached.
    RecordExpired,
    /// The evidence holds no entry at all.
    NoSignatures,
    /// The owners with a valid signature do not reach the threshold, or
    /// there is no such owner.
    InsufficientWeight,
    /// The index of the new version is not the last index plus one.
    NonSequentialIndex,
    /// The resulting record would be larger than the size limit.
    SizeLimitExceeded,
}

} // verus!
