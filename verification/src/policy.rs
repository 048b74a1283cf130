//! Ownership policy: the weighted owner keys of a record and the weight
//! that their signatures must reach before the record may change.

use crate::error::CreationError;
use crate::signature::PUBLIC_KEY_BYTES;
use vstd::prelude::*;

verus! {

/// An owner's public key and the weight given to its signature.
#[derive(Clone, Copy, Debug, PartialEq, Eq)]
pub struct KeyAndWeight {
    /// Owner's public key.
    pub key: [u8; PUBLIC_KEY_BYTES],
    /// Weight of this key, at least one in a policy.
    pub weight: u64,
}

/// What a [`KeyAndWeight`] holds, with the key as a sequence of bytes.
pub struct KeyAndWeightView {
    pub key: Seq<u8>,
    pub weight: u64,
}

impl View for KeyAndWeight {
    type V = KeyAndWeightView;

    open spec fn view(&self) -> KeyAndWeightView {
        KeyAndWeightView { key: self.key@, weight: self.weight }
    }
}

/// The views of a sequence of owners, in the same order.
pub open spec fn owner_views(owners: Seq<KeyAndWeight>) -> Seq<KeyAndWeightView> {
    Seq::new(owners.len(), |i: int| owners[i]@)
}

/// The sum of the weights of `owners`.
pub open spec fn weight_sum(owners: Seq<KeyAndWeightView>) -> nat
    decreases owners.len(),
{
    if owners.len() == 0 {
        0
    } else {
        weight_sum(owners.drop_last()) + owners.last().weight as nat
    }
}

/// No owner has a weight of zero.
pub open spec fn weights_positive(owners: Seq<KeyAndWeightView>) -> bool {
    forall|i: int| 0 <= i < owners.len() ==> (#[trigger] owners[i]).weight >= 1
}

/// No key belongs to two owners.
pub open spec fn keys_distinct(owners: Seq<KeyAndWeightView>) -> bool {
    forall|i: int, j: int|
        0 <= i < j < owners.len() ==> (#[trigger] owners[i]).key != (#[trigger] owners[j]).key
}

/// The replaceable attributes of a record, as mathematical values.
pub struct MutableAttributesView {
    pub owner_keys: Seq<KeyAndWeightView>,
    pub min_weight_for_consensus: u64,
    pub expiry_time: i64,
    pub mutable_payload: Seq<u8>,
}

impl MutableAttributesView {
    /// The owner set is not empty, every weight is at least one and no key
    /// appears twice.
    pub open spec fn valid(self) -> bool {
        &&& self.owner_keys.len() > 0
        &&& weights_positive(self.owner_keys)
        &&& keys_distinct(self.owner_keys)
    }

    /// The sum of the weights of all owners.
    pub open spec fn total_weight(self) -> nat {
        weight_sum(self.owner_keys)
    }

    /// The number of bytes that the attributes take in a record: the owners
    /// behind their number, each with the 32 bytes of its key and the 8 of
    /// its weight, the minimum weight, the expiry time, and the payload
    /// behind its length.
    pub open spec fn size(self) -> nat {
        (8 + (32 + 8) * self.owner_keys.len()) + 8 + 8 + (8 + self.mutable_payload.len())
    }

    /// The weight that valid signatures must reach. It is the configured
    /// minimum, but never less than one: a minimum of zero does not do away
    /// with the need for one valid signature.
    pub open spec fn threshold(self) -> u64 {
        if self.min_weight_for_consensus == 0 {
            1
        } else {
            self.min_weight_for_consensus
        }
    }
}

/// What building the attributes of a record from these values gives: the
/// values themselves where they are valid, and else the first of the three
/// errors that applies.
pub open spec fn built(
    owner_keys: Seq<KeyAndWeightView>,
    min_weight_for_consensus: u64,
    expiry_time: i64,
    mutable_payload: Seq<u8>,
) -> Result<MutableAttributesView, CreationError> {
    if owner_keys.len() == 0 {
        Err(CreationError::EmptyOwnerSet)
    } else if !weights_positive(owner_keys) {
        Err(CreationError::InvalidWeight)
    } else if !keys_distinct(owner_keys) {
        Err(CreationError::DuplicateKey)
    } else {
        Ok(
            MutableAttributesView {
                owner_keys,
                min_weight_for_consensus,
                expiry_time,
                mutable_payload,
            },
        )
    }
}

/// Attributes of a record that an authorized mutation may replace: the
/// owners' keys with their weights, the weight needed for consensus, the
/// time at which the record expires, and a payload.
#[derive(Debug, PartialEq, Eq)]
pub struct MutableAttributes {
    owner_keys: Vec<KeyAndWeight>,
    min_weight_for_consensus: u64,
    expiry_time: i64,
    mutable_payload: Vec<u8>,
}

impl View for MutableAttributes {
    type V = MutableAttributesView;

    closed spec fn view(&self) -> MutableAttributesView {
        MutableAttributesView {
            owner_keys: owner_views(self.owner_keys@),
            min_weight_for_consensus: self.min_weight_for_consensus,
            expiry_time: self.expiry_time,
            mutable_payload: self.mutable_payload@,
        }
    }
}

impl Clone for MutableAttributes {
    fn clone(&self) -> (copy: Self)
        ensures
            copy@ == self@,
    {
        proof {
            use_type_invariant(self);
        }
        let owner_keys = self.owner_keys.clone();
        assert(owner_views(owner_keys@) =~= owner_views(self.owner_keys@));
        MutableAttributes {
            owner_keys,
            min_weight_for_consensus: self.min_weight_for_consensus,
            expiry_time: self.expiry_time,
            mutable_payload: self.mutable_payload.clone(),
        }
    }
}

/// Whether two keys hold the same bytes.
pub fn same_key(a: &[u8; PUBLIC_KEY_BYTES], b: &[u8; PUBLIC_KEY_BYTES]) -> (same: bool)
    ensures
        same == (a@ == b@),
{
    let mut i: usize = 0;
    while i < PUBLIC_KEY_BYTES
        invariant
            i <= PUBLIC_KEY_BYTES,
            forall|k: int| 0 <= k < i ==> a@[k] == b@[k],
        decreases PUBLIC_KEY_BYTES - i,
    {
        if a[i] != b[i] {
            return false;
        }
        i += 1;
    }
    assert(a@ =~= b@);
    true
}

/// The sum of the weights is at most the largest weight times the number of
/// owners.
pub proof fn lemma_weight_sum_bound(owners: Seq<KeyAndWeightView>)
    ensures
        weight_sum(owners) <= owners.len() * u64::MAX,
    decreases owners.len(),
{
    if owners.len() > 0 {
        lemma_weight_sum_bound(owners.drop_last());
        assert(weight_sum(owners.drop_last()) + u64::MAX <= owners.len() * u64::MAX)
            by (nonlinear_arith)
            requires
                weight_sum(owners.drop_last()) <= (owners.len() - 1) * u64::MAX,
        ;
    }
}

/// As many weights as a vector holds sum to a number that fits 128 bits,
/// with room for one more.
pub proof fn lemma_weights_fit(count: usize)
    ensures
        count * u64::MAX + u64::MAX <= u128::MAX,
{
    assert(count * u64::MAX + u64::MAX <= u128::MAX) by (nonlinear_arith)
        requires
            count <= u64::MAX,
    ;
}

/// Where no weight is zero, the sum of the weights is at least the number of
/// owners.
pub proof fn lemma_weight_sum_positive(owners: Seq<KeyAndWeightView>)
    requires
        weights_positive(owners),
    ensures
        weight_sum(owners) >= owners.len(),
    decreases owners.len(),
{
    if owners.len() > 0 {
        let init = owners.drop_last();
        assert forall|i: int| 0 <= i < init.len() implies (#[trigger] init[i]).weight >= 1 by {
            assert(owners[i].weight >= 1);
        }
        lemma_weight_sum_positive(init);
        assert(owners.last().weight >= 1);
    }
}

impl MutableAttributes {
    /// Holds of every value of this type: its view is valid.
    #[verifier::type_invariant]
    pub open spec fn well_formed(self) -> bool {
        self@.valid()
    }

    /// Builds the attributes of a record from its owners, the weight needed
    /// for consensus, the expiry time and a payload.
    ///
    /// Fails with `EmptyOwnerSet` when `owner_keys` is empty, else with
    /// `InvalidWeight` when one of the weights is zero, else with
    /// `DuplicateKey` when two owners have the same key.
    pub fn new(
        owner_keys: Vec<KeyAndWeight>,
        min_weight_for_consensus: u64,
        expiry_time: i64,
        mutable_payload: Vec<u8>,
    ) -> (result: Result<MutableAttributes, CreationError>)
        ensures
            result is Ok <==> owner_keys@.len() > 0 && weights_positive(owner_views(owner_keys@))
                && keys_distinct(owner_views(owner_keys@)),
            result matches Ok(attributes) ==> Ok::<MutableAttributesView, CreationError>(
                attributes@,
            ) == built(
                owner_views(owner_keys@),
                min_weight_for_consensus,
                expiry_time,
                mutable_payload@,
            ),
            result matches Err(error) ==> Err::<MutableAttributesView, CreationError>(error)
                == built(
                owner_views(owner_keys@),
                min_weight_for_consensus,
                expiry_time,
                mutable_payload@,
            ),
    {
        let n = owner_keys.len();
        if n == 0 {
            return Err(CreationError::EmptyOwnerSet);
        }
        let ghost owners = owner_views(owner_keys@);
        let mut i: usize = 0;
        while i < n
            invariant
                i <= n,
                n == owner_keys.len(),
                owners == owner_views(owner_keys@),
                weights_positive(owners.take(i as int)),
            decreases n - i,
        {
            if owner_keys[i].weight == 0 {
                assert(owners[i as int].weight == 0);
                return Err(CreationError::InvalidWeight);
            }
            assert forall|k: int| 0 <= k < i + 1 implies (#[trigger] owners.take(i + 1)[k]).weight
                >= 1 by {
                if k < i {
                    assert(owners.take(i as int)[k].weight >= 1);
                }
            }
            i += 1;
        }
        assert(owners.take(n as int) =~= owners);
        let mut j: usize = 0;
        while j < n
            invariant
                j <= n,
                n == owner_keys.len(),
                owners == owner_views(owner_keys@),
                weights_positive(owners),
                keys_distinct(owners.take(j as int)),
            decreases n - j,
        {
            let mut k: usize = 0;
            while k < j
                invariant
                    k <= j < n,
                    n == owner_keys.len(),
                    owners == owner_views(owner_keys@),
                    weights_positive(owners),
                    forall|m: int|
                        0 <= m < k ==> (#[trigger] owners[m]).key != owners[j as int].key,
                decreases j - k,
            {
                if same_key(&owner_keys[k].key, &owner_keys[j].key) {
                    assert(owners[k as int].key == owners[j as int].key);
                    return Err(CreationError::DuplicateKey);
                }
                k += 1;
            }
            assert forall|a: int, b: int| 0 <= a < b < j + 1 implies (#[trigger] owners.take(
                j + 1,
            )[a]).key != (#[trigger] owners.take(j + 1)[b]).key by {
                if b < j {
                    assert(owners.take(j as int)[a].key != owners.take(j as int)[b].key);
                } else {
                    assert(owners[a].key != owners[j as int].key);
                }
            }
            j += 1;
        }
        Ok(MutableAttributes { owner_keys, min_weight_for_consensus, expiry_time, mutable_payload })
    }

    /// The sum of the weights of all owners.
    pub fn total_weight(&self) -> (total: u128)
        ensures
            total == self@.total_weight(),
            total >= 1,
    {
        proof {
            use_type_invariant(self);
        }
        let ghost owners = owner_views(self.owner_keys@);
        let n = self.owner_keys.len();
        let mut total: u128 = 0;
        let mut i: usize = 0;
        while i < n
            invariant
                i <= n,
                n == self.owner_keys.len(),
                owners == owner_views(self.owner_keys@),
                total == weight_sum(owners.take(i as int)),
            decreases n - i,
        {
            proof {
                lemma_weight_sum_bound(owners.take(i as int));
                lemma_weights_fit(i);
                assert(owners.take(i + 1).drop_last() =~= owners.take(i as int));
            }
            total = total + self.owner_keys[i].weight as u128;
            i += 1;
        }
        proof {
            assert(owners.take(n as int) =~= owners);
            lemma_weight_sum_positive(owners);
        }
        total
    }

    /// The owners' keys with their weights, in the order in which they were
    /// given.
    pub fn owner_keys(&self) -> (owners: &Vec<KeyAndWeight>)
        ensures
            owner_views(owners@) == self@.owner_keys,
            self@.valid(),
    {
        proof {
            use_type_invariant(self);
        }
        &self.owner_keys
    }

    /// The minimum weight that the signing owners must reach, as configured.
    pub fn min_weight_for_consensus(&self) -> (weight: u64)
        ensures
            weight == self@.min_weight_for_consensus,
    {
        self.min_weight_for_consensus
    }

    /// The time from which on the record is expired, in seconds since the
    /// Unix epoch.
    pub fn expiry_time(&self) -> (time: i64)
        ensures
            time == self@.expiry_time,
    {
        self.expiry_time
    }

    /// The payload that is replaced together with the owners.
    pub fn mutable_payload(&self) -> (payload: &Vec<u8>)
        ensures
            payload@ == self@.mutable_payload,
    {
        &self.mutable_payload
    }

    /// The number of bytes that the attributes take in a record.
    pub fn size(&self) -> (size: u128)
        ensures
            size == self@.size(),
            size <= 32 + 41 * usize::MAX,
    {
        (8 + (32 + 8) * (self.owner_keys.len() as u128)) + 8 + 8 + (8
            + self.mutable_payload.len() as u128)
    }

    /// The weight that valid signatures must reach: the configured minimum,
    /// or one where that is zero.
    pub fn threshold(&self) -> (threshold: u64)
        ensures
            threshold == self@.threshold(),
            threshold >= 1,
    {
        if self.min_weight_for_consensus == 0 {
            1
        } else {
            self.min_weight_for_consensus
        }
    }
}

} // verus!
