//! Identity of a record: what is set when the record is created and never
//! changes afterwards.

use crate::error::CreationError;
use vstd::prelude::*;

verus! {

/// The fixed attributes of a record, as mathematical values.
pub struct FixedAttributesView {
    pub type_tag: u64,
    pub id: Seq<u8>,
    pub max_versions: u64,
    pub min_retained_count: u8,
    pub fixed_payload: Seq<u8>,
}

impl FixedAttributesView {
    /// The id is not empty, and at least one version is retained when
    /// archiving.
    pub open spec fn valid(self) -> bool {
        self.id.len() > 0 && self.min_retained_count >= 1
    }

    /// The largest number of versions that a record of this identity ever
    /// holds: `max_versions`, or `min_retained_count` where that is more.
    pub open spec fn capacity(self) -> nat {
        if self.max_versions >= self.min_retained_count {
            self.max_versions as nat
        } else {
            self.min_retained_count as nat
        }
    }

    /// The number of bytes that the identity takes in a record: the type
    /// tag, the id behind its length, the two bounds, and the payload behind
    /// its length.
    pub open spec fn size(self) -> nat {
        8 + (8 + self.id.len()) + 8 + 1 + (8 + self.fixed_payload.len())
    }
}

/// What building an identity from these values gives: the values themselves,
/// or `InvalidIdentity` where the id is empty or nothing is retained.
pub open spec fn built(
    type_tag: u64,
    id: Seq<u8>,
    max_versions: u64,
    min_retained_count: u8,
    fixed_payload: Seq<u8>,
) -> Result<FixedAttributesView, CreationError> {
    if id.len() == 0 || min_retained_count == 0 {
        Err(CreationError::InvalidIdentity)
    } else {
        Ok(FixedAttributesView { type_tag, id, max_versions, min_retained_count, fixed_payload })
    }
}

/// Attributes of a record which never change once set: its type and id, the
/// bounds on the number of versions it holds, and a payload.
#[derive(Debug, PartialEq, Eq)]
pub struct FixedAttributes {
    type_tag: u64,
    id: Vec<u8>,
    max_versions: u64,
    min_retained_count: u8,
    fixed_payload: Vec<u8>,
}

impl View for FixedAttributes {
    type V = FixedAttributesView;

    closed spec fn view(&self) -> FixedAttributesView {
        FixedAttributesView {
            type_tag: self.type_tag,
            id: self.id@,
            max_versions: self.max_versions,
            min_retained_count: self.min_retained_count,
            fixed_payload: self.fixed_payload@,
        }
    }
}

impl Clone for FixedAttributes {
    fn clone(&self) -> (copy: Self)
        ensures
            copy@ == self@,
    {
        proof {
            use_type_invariant(self);
        }
        FixedAttributes {
            type_tag: self.type_tag,
            id: self.id.clone(),
            max_versions: self.max_versions,
            min_retained_count: self.min_retained_count,
            fixed_payload: self.fixed_payload.clone(),
        }
    }
}

impl FixedAttributes {
    /// Holds of every identity: its view is valid.
    #[verifier::type_invariant]
    pub open spec fn well_formed(self) -> bool {
        self@.valid()
    }

    /// Builds the identity of a record.
    ///
    /// Fails with `InvalidIdentity` when `id` is empty or
    /// `min_retained_count` is zero.
    pub fn new(
        type_tag: u64,
        id: Vec<u8>,
        max_versions: u64,
        min_retained_count: u8,
        fixed_payload: Vec<u8>,
    ) -> (result: Result<FixedAttributes, CreationError>)
        ensures
            result is Ok <==> id@.len() > 0 && min_retained_count >= 1,
            result matches Ok(identity) ==> Ok::<FixedAttributesView, CreationError>(identity@)
                == built(type_tag, id@, max_versions, min_retained_count, fixed_payload@),
            result matches Err(error) ==> Err::<FixedAttributesView, CreationError>(error)
                == built(type_tag, id@, max_versions, min_retained_count, fixed_payload@),
    {
        if id.len() == 0 || min_retained_count == 0 {
            return Err(CreationError::InvalidIdentity);
        }
        Ok(FixedAttributes { type_tag, id, max_versions, min_retained_count, fixed_payload })
    }

    /// The type of the record.
    pub fn type_tag(&self) -> (tag: u64)
        ensures
            tag == self@.type_tag,
    {
        self.type_tag
    }

    /// The id of the record, unique among the records of its type.
    pub fn id(&self) -> (id: &Vec<u8>)
        ensures
            id@ == self@.id,
            id@.len() > 0,
    {
        proof {
            use_type_invariant(self);
        }
        &self.id
    }

    /// The largest number of versions that the record holds.
    pub fn max_versions(&self) -> (max: u64)
        ensures
            max == self@.max_versions,
    {
        self.max_versions
    }

    /// The number of versions below which archiving never brings the
    /// record.
    pub fn min_retained_count(&self) -> (min: u8)
        ensures
            min == self@.min_retained_count,
            min >= 1,
    {
        proof {
            use_type_invariant(self);
        }
        self.min_retained_count
    }

    /// The number of bytes that the identity takes in a record.
    pub fn size(&self) -> (size: u128)
        ensures
            size == self@.size(),
            size <= 33 + 2 * usize::MAX,
    {
        8 + (8 + self.id.len() as u128) + 8 + 1 + (8 + self.fixed_payload.len() as u128)
    }

    /// The payload that was set when the record was created.
    pub fn fixed_payload(&self) -> (payload: &Vec<u8>)
        ensures
            payload@ == self@.fixed_payload,
    {
        &self.fixed_payload
    }
}

} // verus!
