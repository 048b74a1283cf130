//! Records and the decision on their mutations.
//!
//! A candidate mutation goes from proposed to applied, or is rejected: first
//! the record must not have expired, then the evidence must authorize the
//! candidate under the record's current owners, then the candidate must fit
//! the record. What comes out is a new snapshot of the record; the snapshot
//! that went in is left as it was.

use crate::authorization::{authorization, authorize, evidence_views, AuthorizationResult};
use crate::error::{CreationError, MutationError};
use crate::identity::{FixedAttributes, FixedAttributesView};
use crate::ledger::{
    continues, evicted, law_append_keeps_sequence, law_retention, ledger_size, retained,
    sequential, version_views, Ledger, Version, VersionView,
};
use crate::policy::{MutableAttributes, MutableAttributesView};
use crate::signature::KeyAndSignature;
use vstd::prelude::*;

verus! {

/// The size limit of a record where none is configured, in bytes.
pub const DEFAULT_SIZE_LIMIT: u64 = 102_400;

/// A record as mathematical values.
pub struct DataView {
    pub fixed_attributes: FixedAttributesView,
    pub mutable_attributes: MutableAttributesView,
    pub versions: Seq<VersionView>,
}

impl DataView {
    /// The identity and the attributes are valid, the versions are
    /// sequential, and there are no more of them than the identity allows.
    pub open spec fn valid(self) -> bool {
        &&& self.fixed_attributes.valid()
        &&& self.mutable_attributes.valid()
        &&& sequential(self.versions)
        &&& self.versions.len() <= self.fixed_attributes.capacity()
    }

    /// The size of the record in bytes, when it is laid out flat: each
    /// integer at its width and each key at its length, with eight bytes of
    /// length before every byte string and every list. It is the size of
    /// the identity, of the attributes and of the ledger together.
    pub open spec fn size(self) -> nat {
        self.fixed_attributes.size() + self.mutable_attributes.size() + ledger_size(
            self.versions,
        )
    }
}

/// A record: its identity, its current attributes and its active versions.
#[derive(Debug, PartialEq, Eq)]
pub struct Data {
    fixed_attributes: FixedAttributes,
    mutable_attributes: MutableAttributes,
    versions: Ledger,
}

impl View for Data {
    type V = DataView;

    closed spec fn view(&self) -> DataView {
        DataView {
            fixed_attributes: self.fixed_attributes@,
            mutable_attributes: self.mutable_attributes@,
            versions: self.versions@,
        }
    }
}

impl Clone for Data {
    fn clone(&self) -> (copy: Self)
        ensures
            copy@ == self@,
    {
        proof {
            use_type_invariant(self);
        }
        Data {
            fixed_attributes: self.fixed_attributes.clone(),
            mutable_attributes: self.mutable_attributes.clone(),
            versions: self.versions.clone(),
        }
    }
}

/// A candidate mutation of a record.
#[derive(Debug)]
pub enum Mutation {
    /// Replace the attributes, and with them the owners, by these.
    Attributes(MutableAttributes),
    /// Append this version.
    NewVersion(Version),
}

/// A candidate mutation as mathematical values.
pub enum MutationView {
    Attributes(MutableAttributesView),
    NewVersion(VersionView),
}

impl View for Mutation {
    type V = MutationView;

    open spec fn view(&self) -> MutationView {
        match self {
            Mutation::Attributes(attributes) => MutationView::Attributes(attributes@),
            Mutation::NewVersion(version) => MutationView::NewVersion(version@),
        }
    }
}

/// An accepted mutation: the new snapshot of the record, and the versions
/// that left it.
#[derive(Debug)]
pub struct Applied {
    /// The record after the mutation.
    pub record: Data,
    /// The versions that left the record, oldest first. They are to be
    /// handed to the archive.
    pub archived: Vec<Version>,
}

/// An accepted mutation as mathematical values.
pub struct AppliedView {
    pub record: DataView,
    pub archived: Seq<VersionView>,
}

impl View for Applied {
    type V = AppliedView;

    open spec fn view(&self) -> AppliedView {
        AppliedView { record: self.record@, archived: version_views(self.archived@) }
    }
}

/// What creating a record from these parts gives, where no record may be
/// larger than `size_limit`.
pub open spec fn created(
    fixed_attributes: FixedAttributesView,
    mutable_attributes: MutableAttributesView,
    initial_version: VersionView,
    size_limit: u64,
) -> Result<DataView, CreationError> {
    let record = DataView { fixed_attributes, mutable_attributes, versions: seq![initial_version] };
    if initial_version.index != 0 {
        Err(CreationError::NonSequentialIndex)
    } else if record.size() > size_limit {
        Err(CreationError::SizeLimitExceeded)
    } else {
        Ok(record)
    }
}

/// What applying an authorized `candidate` to `record` gives, where no
/// record may be larger than `size_limit`.
pub open spec fn applied(record: DataView, candidate: MutationView, size_limit: u64) -> Result<
    AppliedView,
    MutationError,
> {
    match candidate {
        MutationView::Attributes(attributes) => {
            let next = DataView { mutable_attributes: attributes, ..record };
            if next.size() > size_limit {
                Err(MutationError::SizeLimitExceeded)
            } else {
                Ok(AppliedView { record: next, archived: Seq::empty() })
            }
        },
        MutationView::NewVersion(version) => {
            let max_versions = record.fixed_attributes.max_versions;
            let min_retained_count = record.fixed_attributes.min_retained_count;
            let next = DataView {
                versions: retained(record.versions, version, max_versions, min_retained_count),
                ..record
            };
            if !continues(record.versions, version) {
                Err(MutationError::NonSequentialIndex)
            } else if next.size() > size_limit {
                Err(MutationError::SizeLimitExceeded)
            } else {
                Ok(
                    AppliedView {
                        record: next,
                        archived: evicted(
                            record.versions,
                            version,
                            max_versions,
                            min_retained_count,
                        ),
                    },
                )
            }
        },
    }
}

/// What proposing `candidate` for `record` at the time `now` gives, where
/// the evidence that came with it had the outcome `authorization`.
pub open spec fn outcome(
    record: DataView,
    candidate: MutationView,
    authorization: AuthorizationResult,
    now: i64,
    size_limit: u64,
) -> Result<AppliedView, MutationError> {
    if now >= record.mutable_attributes.expiry_time {
        Err(MutationError::RecordExpired)
    } else {
        match authorization {
            AuthorizationResult::NoSignatures => Err(MutationError::NoSignatures),
            AuthorizationResult::InsufficientWeight => Err(MutationError::InsufficientWeight),
            AuthorizationResult::Authorized { .. } => applied(record, candidate, size_limit),
        }
    }
}

/// The view of what a proposal gave.
pub open spec fn result_view(result: Result<Applied, MutationError>) -> Result<
    AppliedView,
    MutationError,
> {
    match result {
        Ok(applied) => Ok(applied@),
        Err(error) => Err(error),
    }
}

impl Data {
    /// Holds of every record: its view is valid.
    #[verifier::type_invariant]
    pub open spec fn well_formed(self) -> bool {
        self@.valid()
    }

    /// Creates a record with a single version.
    ///
    /// Fails with `NonSequentialIndex` when the index of `initial_version`
    /// is not zero, else with `SizeLimitExceeded` when the record would be
    /// larger than `size_limit` bytes.
    pub fn create(
        fixed_attributes: FixedAttributes,
        mutable_attributes: MutableAttributes,
        initial_version: Version,
        size_limit: u64,
    ) -> (result: Result<Data, CreationError>)
        ensures
            result matches Ok(record) ==> Ok::<DataView, CreationError>(record@) == created(
                fixed_attributes@,
                mutable_attributes@,
                initial_version@,
                size_limit,
            ) && record@.valid(),
            result matches Err(error) ==> Err::<DataView, CreationError>(error) == created(
                fixed_attributes@,
                mutable_attributes@,
                initial_version@,
                size_limit,
            ),
    {
        proof {
            use_type_invariant(&fixed_attributes);
            use_type_invariant(&mutable_attributes);
        }
        let versions = match Ledger::genesis(initial_version) {
            Ok(ledger) => ledger,
            Err(error) => {
                return Err(error);
            },
        };
        proof {
            use_type_invariant(&versions);
        }
        let record = Data { fixed_attributes, mutable_attributes, versions };
        if !record.fits(size_limit) {
            return Err(CreationError::SizeLimitExceeded);
        }
        Ok(record)
    }

    /// Whether the record takes no more than `size_limit` bytes.
    pub fn fits(&self, size_limit: u64) -> (fits: bool)
        ensures
            fits == (self@.size() <= size_limit),
    {
        let size: u128 = self.fixed_attributes.size() + self.mutable_attributes.size();
        if size > size_limit as u128 {
            return false;
        }
        self.versions.fits((size_limit as u128 - size) as u64)
    }

    /// Whether the record has expired at the time `now`.
    pub fn is_expired(&self, now: i64) -> (expired: bool)
        ensures
            expired == (now >= self@.mutable_attributes.expiry_time),
    {
        now >= self.mutable_attributes.expiry_time()
    }

    /// Applies a candidate that has been authorized.
    ///
    /// New attributes take the place of the current ones. A new version is
    /// appended as [`Ledger::append`] says, which fails with
    /// `NonSequentialIndex` unless it continues the versions. Either fails
    /// with `SizeLimitExceeded` when the resulting record would be larger
    /// than `size_limit` bytes.
    fn apply(&self, candidate: Mutation, size_limit: u64) -> (result: Result<
        Applied,
        MutationError,
    >)
        ensures
            result_view(result) == applied(self@, candidate@, size_limit),
    {
        proof {
            use_type_invariant(self);
        }
        match candidate {
            Mutation::Attributes(attributes) => {
                proof {
                    use_type_invariant(&attributes);
                }
                let record = Data {
                    fixed_attributes: self.fixed_attributes.clone(),
                    mutable_attributes: attributes,
                    versions: self.versions.clone(),
                };
                if !record.fits(size_limit) {
                    return Err(MutationError::SizeLimitExceeded);
                }
                let archived: Vec<Version> = Vec::new();
                assert(version_views(archived@) =~= Seq::<VersionView>::empty());
                Ok(Applied { record, archived })
            },
            Mutation::NewVersion(version) => {
                let budget = self.ledger_budget(size_limit);
                match self.versions.append(version, &self.fixed_attributes, budget) {
                    Ok(appended) => {
                        proof {
                            use_type_invariant(&appended.ledger);
                            law_retention(
                                self@.versions,
                                version@,
                                self@.fixed_attributes.max_versions,
                                self@.fixed_attributes.min_retained_count,
                            );
                        }
                        let record = Data {
                            fixed_attributes: self.fixed_attributes.clone(),
                            mutable_attributes: self.mutable_attributes.clone(),
                            versions: appended.ledger,
                        };
                        Ok(Applied { record, archived: appended.archived })
                    },
                    Err(error) => Err(error),
                }
            },
        }
    }

    /// The bytes that `size_limit` leaves to the ledger of this record, once
    /// the identity and the attributes have taken theirs. Where they alone
    /// are over the limit, nothing is left.
    fn ledger_budget(&self, size_limit: u64) -> (budget: u64)
        ensures
            forall|ledger: Seq<VersionView>|
                #![trigger ledger_size(ledger)]
                ledger_size(ledger) <= budget <==> self@.fixed_attributes.size()
                    + self@.mutable_attributes.size() + ledger_size(ledger) <= size_limit,
    {
        let taken: u128 = self.fixed_attributes.size() + self.mutable_attributes.size();
        if taken > size_limit as u128 {
            0
        } else {
            (size_limit as u128 - taken) as u64
        }
    }

    /// Decides on a candidate from the outcome of its authorization.
    ///
    /// Fails with `RecordExpired` when `now` has reached the expiry time,
    /// whatever the authorization; else with `NoSignatures` or
    /// `InsufficientWeight` when the authorization failed so. Else the
    /// candidate is applied: new attributes take the place of the current
    /// ones, and a new version is appended as [`Ledger::append`] says, which
    /// fails with `NonSequentialIndex` unless it continues the versions.
    /// Either fails with `SizeLimitExceeded` when the resulting record would
    /// be larger than `size_limit` bytes.
    pub fn resolve(
        &self,
        candidate: Mutation,
        authorization: AuthorizationResult,
        now: i64,
        size_limit: u64,
    ) -> (result: Result<Applied, MutationError>)
        ensures
            result_view(result) == outcome(self@, candidate@, authorization, now, size_limit),
    {
        if self.is_expired(now) {
            return Err(MutationError::RecordExpired);
        }
        match authorization {
            AuthorizationResult::NoSignatures => Err(MutationError::NoSignatures),
            AuthorizationResult::InsufficientWeight => Err(MutationError::InsufficientWeight),
            AuthorizationResult::Authorized { .. } => self.apply(candidate, size_limit),
        }
    }

    /// Decides on a candidate mutation of this record.
    ///
    /// `candidate_bytes` are the exact bytes of the candidate that the
    /// signatures in `evidence` were made over, and `now` is the current
    /// time in seconds since the Unix epoch. The evidence is held against
    /// the current owners, also where the candidate replaces them. On an
    /// expired record no signature is checked.
    pub fn propose_mutation(
        &self,
        candidate: Mutation,
        candidate_bytes: &[u8],
        evidence: &Vec<KeyAndSignature>,
        now: i64,
        size_limit: u64,
    ) -> (result: Result<Applied, MutationError>)
        ensures
            result_view(result) == outcome(
                self@,
                candidate@,
                authorization(
                    self@.mutable_attributes,
                    candidate_bytes@,
                    evidence_views(evidence@),
                ),
                now,
                size_limit,
            ),
    {
        if self.is_expired(now) {
            return Err(MutationError::RecordExpired);
        }
        let verdict = authorize(&self.mutable_attributes, candidate_bytes, evidence);
        self.resolve(candidate, verdict, now, size_limit)
    }

    /// The identity of the record.
    pub fn fixed_attributes(&self) -> (identity: &FixedAttributes)
        ensures
            identity@ == self@.fixed_attributes,
            self@.valid(),
    {
        proof {
            use_type_invariant(self);
        }
        &self.fixed_attributes
    }

    /// The current attributes of the record.
    pub fn mutable_attributes(&self) -> (attributes: &MutableAttributes)
        ensures
            attributes@ == self@.mutable_attributes,
            self@.valid(),
    {
        proof {
            use_type_invariant(self);
        }
        &self.mutable_attributes
    }

    /// The active versions of the record.
    pub fn versions(&self) -> (ledger: &Ledger)
        ensures
            ledger@ == self@.versions,
            self@.valid(),
    {
        proof {
            use_type_invariant(self);
        }
        &self.versions
    }
}

/// A mutation of an expired record is rejected with `RecordExpired`,
/// whatever the outcome of its authorization.
pub proof fn law_expired_record_rejects(
    record: DataView,
    candidate: MutationView,
    authorization: AuthorizationResult,
    now: i64,
    size_limit: u64,
)
    requires
        now >= record.mutable_attributes.expiry_time,
    ensures
        outcome(record, candidate, authorization, now, size_limit) == Err::<
            AppliedView,
            MutationError,
        >(MutationError::RecordExpired),
{
}

/// A mutation is accepted only before the record expires and with an
/// authorization that succeeded.
pub proof fn law_accepted_only_when_authorized(
    record: DataView,
    candidate: MutationView,
    authorization: AuthorizationResult,
    now: i64,
    size_limit: u64,
)
    requires
        outcome(record, candidate, authorization, now, size_limit) is Ok,
    ensures
        now < record.mutable_attributes.expiry_time,
        authorization is Authorized,
{
}

/// What an accepted mutation gives reads back as the candidate: accepted
/// attributes are the record's attributes, with the versions untouched and
/// nothing archived; an accepted version is the record's last version, with
/// the attributes untouched. The identity is never touched.
pub proof fn law_accepted_candidate_reads_back(
    record: DataView,
    candidate: MutationView,
    authorization: AuthorizationResult,
    now: i64,
    size_limit: u64,
)
    requires
        record.valid(),
        outcome(record, candidate, authorization, now, size_limit) is Ok,
    ensures
        ({
            let accepted = outcome(record, candidate, authorization, now, size_limit)->Ok_0;
            &&& accepted.record.fixed_attributes == record.fixed_attributes
            &&& candidate matches MutationView::Attributes(attributes) ==> {
                &&& accepted.record.mutable_attributes == attributes
                &&& accepted.record.versions == record.versions
                &&& accepted.archived.len() == 0
            }
            &&& candidate matches MutationView::NewVersion(version) ==> {
                &&& accepted.record.versions.last() == version
                &&& accepted.record.mutable_attributes == record.mutable_attributes
            }
        }),
{
    if let MutationView::NewVersion(version) = candidate {
        law_retention(
            record.versions,
            version,
            record.fixed_attributes.max_versions,
            record.fixed_attributes.min_retained_count,
        );
    }
}

/// An accepted mutation of a valid record gives a valid record within the
/// size limit, where new attributes, if it brings any, are valid.
pub proof fn law_accepted_record_valid(
    record: DataView,
    candidate: MutationView,
    authorization: AuthorizationResult,
    now: i64,
    size_limit: u64,
)
    requires
        record.valid(),
        candidate matches MutationView::Attributes(attributes) ==> attributes.valid(),
        outcome(record, candidate, authorization, now, size_limit) is Ok,
    ensures
        outcome(record, candidate, authorization, now, size_limit)->Ok_0.record.valid(),
        outcome(record, candidate, authorization, now, size_limit)->Ok_0.record.size()
            <= size_limit,
{
    if let MutationView::NewVersion(version) = candidate {
        law_append_keeps_sequence(
            record.versions,
            version,
            record.fixed_attributes.max_versions,
            record.fixed_attributes.min_retained_count,
        );
    }
}

/// Once a version has been accepted, proposing a version with the same
/// index again is rejected: with `NonSequentialIndex` where the record has
/// not expired and the evidence authorizes.
pub proof fn law_resubmitted_index_rejected(
    record: DataView,
    version: VersionView,
    again: VersionView,
    first: AuthorizationResult,
    second: AuthorizationResult,
    then: i64,
    now: i64,
    size_limit: u64,
)
    requires
        record.valid(),
        outcome(record, MutationView::NewVersion(version), first, then, size_limit) is Ok,
        again.index == version.index,
    ensures
        ({
            let next = outcome(
                record,
                MutationView::NewVersion(version),
                first,
                then,
                size_limit,
            )->Ok_0.record;
            let repeated = outcome(next, MutationView::NewVersion(again), second, now, size_limit);
            &&& repeated is Err
            &&& now < next.mutable_attributes.expiry_time && second is Authorized ==> repeated
                == Err::<AppliedView, MutationError>(MutationError::NonSequentialIndex)
        }),
{
    law_retention(
        record.versions,
        version,
        record.fixed_attributes.max_versions,
        record.fixed_attributes.min_retained_count,
    );
}

} // verus!
