//! Authorization of a candidate mutation: do the owners who signed it carry
//! enough weight?
//!
//! Each owner counts at most once, however often its key occurs in the
//! evidence, and only where one of its signatures is valid. Keys that belong
//! to no owner count for nothing. The outcome does not depend on the order
//! of the evidence.

use crate::policy::{
    keys_distinct, lemma_weight_sum_bound, lemma_weights_fit, owner_views, same_key, weight_sum,
    weights_positive, KeyAndWeightView, MutableAttributes, MutableAttributesView,
};
use crate::signature::{
    endorses, verify_entry, KeyAndSignature, SignedEntryView, PUBLIC_KEY_BYTES,
};
use vstd::prelude::*;

verus! {

/// The outcome of an authorization.
#[derive(Clone, Copy, Debug, PartialEq, Eq, Structural)]
pub enum AuthorizationResult {
    /// Enough owners have signed.
    Authorized {
        /// The sum of the weights of the owners who signed.
        weight: u128,
    },
    /// The evidence holds no entry at all.
    NoSignatures,
    /// No owner has signed, or those who have do not reach the minimum
    /// weight.
    InsufficientWeight,
}

/// A key from the evidence, with the verdict on the signature that came
/// with it.
#[derive(Clone, Copy, Debug, PartialEq, Eq)]
pub struct Attestation {
    /// The key under which the signature was checked.
    pub key: [u8; PUBLIC_KEY_BYTES],
    /// Whether the signature was valid.
    pub valid: bool,
}

/// What an [`Attestation`] holds, with the key as a sequence of bytes.
pub struct AttestationView {
    pub key: Seq<u8>,
    pub valid: bool,
}

impl View for Attestation {
    type V = AttestationView;

    open spec fn view(&self) -> AttestationView {
        AttestationView { key: self.key@, valid: self.valid }
    }
}

/// The views of a sequence of attestations, in the same order.
pub open spec fn attestation_views(attestations: Seq<Attestation>) -> Seq<AttestationView> {
    Seq::new(attestations.len(), |i: int| attestations[i]@)
}

/// The views of a sequence of evidence entries, in the same order.
pub open spec fn evidence_views(evidence: Seq<KeyAndSignature>) -> Seq<SignedEntryView> {
    Seq::new(evidence.len(), |i: int| evidence[i]@)
}

/// The attestations that checking `evidence` against `message` gives: one
/// for each entry, in the same order.
pub open spec fn attested(evidence: Seq<SignedEntryView>, message: Seq<u8>) -> Seq<
    AttestationView,
> {
    Seq::new(
        evidence.len(),
        |i: int| AttestationView { key: evidence[i].key, valid: endorses(evidence[i], message) },
    )
}

/// Some attestation for `key` is valid.
pub open spec fn vouched(attestations: Seq<AttestationView>, key: Seq<u8>) -> bool {
    exists|i: int|
        0 <= i < attestations.len() && (#[trigger] attestations[i]).key == key
            && attestations[i].valid
}

/// The sum of the weights of the owners for whose key some attestation is
/// valid.
pub open spec fn counted_weight(
    owners: Seq<KeyAndWeightView>,
    attestations: Seq<AttestationView>,
) -> nat
    decreases owners.len(),
{
    if owners.len() == 0 {
        0
    } else {
        counted_weight(owners.drop_last(), attestations) + if vouched(
            attestations,
            owners.last().key,
        ) {
            owners.last().weight as nat
        } else {
            0
        }
    }
}

/// Some owner has a valid attestation.
pub open spec fn some_owner_vouched(
    owners: Seq<KeyAndWeightView>,
    attestations: Seq<AttestationView>,
) -> bool {
    exists|j: int| 0 <= j < owners.len() && vouched(attestations, (#[trigger] owners[j]).key)
}

/// The outcome of authorization under `policy`, given the verdicts on the
/// evidence.
pub open spec fn decision(
    policy: MutableAttributesView,
    attestations: Seq<AttestationView>,
) -> AuthorizationResult {
    if attestations.len() == 0 {
        AuthorizationResult::NoSignatures
    } else if some_owner_vouched(policy.owner_keys, attestations) && counted_weight(
        policy.owner_keys,
        attestations,
    ) >= policy.min_weight_for_consensus {
        AuthorizationResult::Authorized {
            weight: counted_weight(policy.owner_keys, attestations) as u128,
        }
    } else {
        AuthorizationResult::InsufficientWeight
    }
}

/// The outcome of authorization under `policy` of a candidate with the
/// bytes `message`, for which `evidence` was handed in.
pub open spec fn authorization(
    policy: MutableAttributesView,
    message: Seq<u8>,
    evidence: Seq<SignedEntryView>,
) -> AuthorizationResult {
    decision(policy, attested(evidence, message))
}

/// The counted weight is at most the sum of all weights.
pub proof fn lemma_counted_weight_bound(
    owners: Seq<KeyAndWeightView>,
    attestations: Seq<AttestationView>,
)
    ensures
        counted_weight(owners, attestations) <= weight_sum(owners),
    decreases owners.len(),
{
    if owners.len() > 0 {
        lemma_counted_weight_bound(owners.drop_last(), attestations);
    }
}

/// Whether some attestation for `key` is valid.
fn is_vouched(attestations: &Vec<Attestation>, key: &[u8; PUBLIC_KEY_BYTES]) -> (found: bool)
    ensures
        found == vouched(attestation_views(attestations@), key@),
{
    let ghost views = attestation_views(attestations@);
    let n = attestations.len();
    let mut i: usize = 0;
    while i < n
        invariant
            i <= n,
            n == attestations.len(),
            views == attestation_views(attestations@),
            forall|k: int| 0 <= k < i ==> !((#[trigger] views[k]).key == key@ && views[k].valid),
        decreases n - i,
    {
        if attestations[i].valid && same_key(&attestations[i].key, key) {
            assert(views[i as int].key == key@ && views[i as int].valid);
            return true;
        }
        i += 1;
    }
    false
}

/// Decides an authorization from the verdicts on the evidence.
///
/// Gives `NoSignatures` where there is no attestation at all. Else sums the
/// weights of the owners that have a valid attestation, each owner once, and
/// gives `Authorized` with that sum where there is such an owner and the sum
/// is at least the policy's minimum weight; `InsufficientWeight` otherwise.
pub fn tally(policy: &MutableAttributes, attestations: &Vec<Attestation>) -> (result:
    AuthorizationResult)
    ensures
        result == decision(policy@, attestation_views(attestations@)),
        result matches AuthorizationResult::Authorized { weight } ==> weight == counted_weight(
            policy@.owner_keys,
            attestation_views(attestations@),
        ),
{
    if attestations.len() == 0 {
        return AuthorizationResult::NoSignatures;
    }
    let owners = policy.owner_keys();
    let ghost views = attestation_views(attestations@);
    let ghost owner_seq = policy@.owner_keys;
    let n = owners.len();
    let mut weight: u128 = 0;
    let mut any: bool = false;
    let mut j: usize = 0;
    while j < n
        invariant
            j <= n,
            n == owners.len(),
            owner_seq == owner_views(owners@),
            views == attestation_views(attestations@),
            weight == counted_weight(owner_seq.take(j as int), views),
            any == some_owner_vouched(owner_seq.take(j as int), views),
        decreases n - j,
    {
        proof {
            lemma_counted_weight_bound(owner_seq.take(j as int), views);
            lemma_weight_sum_bound(owner_seq.take(j as int));
            lemma_weights_fit(j);
            assert(owner_seq.take(j + 1).drop_last() =~= owner_seq.take(j as int));
        }
        let signed = is_vouched(attestations, &owners[j].key);
        if signed {
            weight = weight + owners[j].weight as u128;
        }
        proof {
            let before = owner_seq.take(j as int);
            let after = owner_seq.take(j + 1);
            if some_owner_vouched(after, views) {
                let w = choose|w: int|
                    0 <= w < after.len() && vouched(views, (#[trigger] after[w]).key);
                if w < j {
                    assert(vouched(views, before[w].key));
                }
            }
            if any {
                let w = choose|w: int|
                    0 <= w < before.len() && vouched(views, (#[trigger] before[w]).key);
                assert(vouched(views, after[w].key));
            }
            if signed {
                assert(vouched(views, after[j as int].key));
            }
        }
        any = any || signed;
        j += 1;
    }
    proof {
        assert(owner_seq.take(n as int) =~= owner_seq);
    }
    if any && weight >= policy.min_weight_for_consensus() as u128 {
        AuthorizationResult::Authorized { weight }
    } else {
        AuthorizationResult::InsufficientWeight
    }
}

/// Checks every entry of the evidence against the bytes that were signed.
pub fn check_evidence(message: &[u8], evidence: &Vec<KeyAndSignature>) -> (attestations: Vec<
    Attestation,
>)
    ensures
        attestation_views(attestations@) == attested(evidence_views(evidence@), message@),
{
    let ghost entries = evidence_views(evidence@);
    let n = evidence.len();
    let mut attestations: Vec<Attestation> = Vec::new();
    let mut i: usize = 0;
    while i < n
        invariant
            i <= n,
            n == evidence.len(),
            entries == evidence_views(evidence@),
            attestations.len() == i,
            forall|k: int|
                0 <= k < i ==> (#[trigger] attestations[k])@ == (AttestationView {
                    key: entries[k].key,
                    valid: endorses(entries[k], message@),
                }),
        decreases n - i,
    {
        let valid = verify_entry(&evidence[i], message);
        attestations.push(Attestation { key: evidence[i].key, valid });
        i += 1;
    }
    assert(attestation_views(attestations@) =~= attested(entries, message@));
    attestations
}

/// Decides whether `evidence` authorizes, under `policy`, the candidate
/// whose exact bytes are `candidate_bytes`.
///
/// Every entry of the evidence is checked against the bytes; entries that
/// fail, and entries whose key belongs to no owner, are passed over. See
/// [`tally`] for the decision.
pub fn authorize(
    policy: &MutableAttributes,
    candidate_bytes: &[u8],
    evidence: &Vec<KeyAndSignature>,
) -> (result: AuthorizationResult)
    ensures
        result == authorization(policy@, candidate_bytes@, evidence_views(evidence@)),
{
    let attestations = check_evidence(candidate_bytes, evidence);
    tally(policy, &attestations)
}

/// The attestations that are left when every one for `key` is taken away.
pub open spec fn without_key(attestations: Seq<AttestationView>, key: Seq<u8>) -> Seq<
    AttestationView,
> {
    attestations.filter(|a: AttestationView| a.key != key)
}

/// The evidence that is left when every entry with `key` is taken away.
pub open spec fn evidence_without_key(evidence: Seq<SignedEntryView>, key: Seq<u8>) -> Seq<
    SignedEntryView,
> {
    evidence.filter(|entry: SignedEntryView| entry.key != key)
}

/// Taking away the attestations for one key leaves every other key vouched
/// for as before, and that key not at all.
pub proof fn lemma_vouched_without_key(
    attestations: Seq<AttestationView>,
    removed: Seq<u8>,
    key: Seq<u8>,
)
    ensures
        vouched(without_key(attestations, removed), key) <==> vouched(attestations, key) && key
            != removed,
{
    let keep = |a: AttestationView| a.key != removed;
    let rest = attestations.filter(keep);
    if vouched(rest, key) {
        let i = choose|i: int|
            0 <= i < rest.len() && (#[trigger] rest[i]).key == key && rest[i].valid;
        attestations.lemma_filter_pred(keep, i);
        assert(rest.contains(rest[i]));
        attestations.lemma_filter_contains_rev(keep, rest[i]);
        let k = choose|k: int| 0 <= k < attestations.len() && attestations[k] == rest[i];
        assert(attestations[k].key == key && attestations[k].valid);
    }
    if vouched(attestations, key) && key != removed {
        let k = choose|k: int|
            0 <= k < attestations.len() && (#[trigger] attestations[k]).key == key
                && attestations[k].valid;
        attestations.lemma_filter_contains(keep, k);
        let i = choose|i: int| 0 <= i < rest.len() && rest[i] == attestations[k];
        assert(rest[i].key == key && rest[i].valid);
    }
}

/// Taking away the entries with one key leaves every other key vouched for
/// as before, and that key not at all.
pub proof fn lemma_vouched_without_entries(
    evidence: Seq<SignedEntryView>,
    message: Seq<u8>,
    removed: Seq<u8>,
    key: Seq<u8>,
)
    ensures
        vouched(attested(evidence_without_key(evidence, removed), message), key) <==> vouched(
            attested(evidence, message),
            key,
        ) && key != removed,
{
    let keep = |entry: SignedEntryView| entry.key != removed;
    let rest = evidence.filter(keep);
    let all_attested = attested(evidence, message);
    let rest_attested = attested(rest, message);
    if vouched(rest_attested, key) {
        let i = choose|i: int|
            0 <= i < rest_attested.len() && (#[trigger] rest_attested[i]).key == key
                && rest_attested[i].valid;
        evidence.lemma_filter_pred(keep, i);
        assert(rest.contains(rest[i]));
        evidence.lemma_filter_contains_rev(keep, rest[i]);
        let k = choose|k: int| 0 <= k < evidence.len() && evidence[k] == rest[i];
        assert(all_attested[k].key == key && all_attested[k].valid);
    }
    if vouched(all_attested, key) && key != removed {
        let k = choose|k: int|
            0 <= k < all_attested.len() && (#[trigger] all_attested[k]).key == key
                && all_attested[k].valid;
        evidence.lemma_filter_contains(keep, k);
        let i = choose|i: int| 0 <= i < rest.len() && rest[i] == evidence[k];
        assert(rest_attested[i].key == key && rest_attested[i].valid);
    }
}

/// The counted weight, and whether any owner counts, depend only on which
/// owners' keys have a valid attestation: not on the order of the
/// attestations, on repeats, or on keys of others.
pub proof fn lemma_counted_weight_by_keys(
    owners: Seq<KeyAndWeightView>,
    a: Seq<AttestationView>,
    b: Seq<AttestationView>,
)
    requires
        forall|j: int|
            0 <= j < owners.len() ==> vouched(a, (#[trigger] owners[j]).key) == vouched(
                b,
                owners[j].key,
            ),
    ensures
        counted_weight(owners, a) == counted_weight(owners, b),
        some_owner_vouched(owners, a) == some_owner_vouched(owners, b),
    decreases owners.len(),
{
    if owners.len() > 0 {
        let init = owners.drop_last();
        assert forall|j: int| 0 <= j < init.len() implies vouched(a, (#[trigger] init[j]).key)
            == vouched(b, init[j].key) by {
            assert(init[j] == owners[j]);
        }
        lemma_counted_weight_by_keys(init, a, b);
        assert(owners.last() == owners[owners.len() - 1]);
    }
    if some_owner_vouched(owners, a) {
        let j = choose|j: int| 0 <= j < owners.len() && vouched(a, (#[trigger] owners[j]).key);
        assert(vouched(b, owners[j].key));
    }
    if some_owner_vouched(owners, b) {
        let j = choose|j: int| 0 <= j < owners.len() && vouched(b, (#[trigger] owners[j]).key);
        assert(vouched(a, owners[j].key));
    }
}

/// Where no weight is zero, an owner counts exactly when the counted weight
/// is at least one.
pub proof fn lemma_signer_iff_weight(
    owners: Seq<KeyAndWeightView>,
    attestations: Seq<AttestationView>,
)
    requires
        weights_positive(owners),
    ensures
        some_owner_vouched(owners, attestations) <==> counted_weight(owners, attestations) >= 1,
    decreases owners.len(),
{
    if owners.len() > 0 {
        let init = owners.drop_last();
        let last = owners.len() - 1;
        assert forall|i: int| 0 <= i < init.len() implies (#[trigger] init[i]).weight >= 1 by {
            assert(owners[i].weight >= 1);
        }
        lemma_signer_iff_weight(init, attestations);
        assert(owners.last() == owners[last] && owners[last].weight >= 1);
        if some_owner_vouched(owners, attestations) {
            let j = choose|j: int|
                0 <= j < owners.len() && vouched(attestations, (#[trigger] owners[j]).key);
            if j < last {
                assert(vouched(attestations, init[j].key));
            }
        }
        if some_owner_vouched(init, attestations) {
            let j = choose|j: int|
                0 <= j < init.len() && vouched(attestations, (#[trigger] init[j]).key);
            assert(vouched(attestations, owners[j].key));
        }
    }
}

/// Where `rest` vouches for the owners that `attestations` vouches for, but
/// for one of them, the counted weight of `rest` is lower by that owner's
/// weight.
pub proof fn lemma_counted_weight_without_signer(
    owners: Seq<KeyAndWeightView>,
    attestations: Seq<AttestationView>,
    rest: Seq<AttestationView>,
    signer: int,
)
    requires
        0 <= signer < owners.len(),
        vouched(attestations, owners[signer].key),
        forall|j: int|
            0 <= j < owners.len() ==> (vouched(rest, (#[trigger] owners[j]).key) <==> vouched(
                attestations,
                owners[j].key,
            ) && j != signer),
    ensures
        counted_weight(owners, rest) + owners[signer].weight == counted_weight(
            owners,
            attestations,
        ),
    decreases owners.len(),
{
    let init = owners.drop_last();
    let last = owners.len() - 1;
    assert(owners.last() == owners[last]);
    if signer == last {
        assert forall|j: int| 0 <= j < init.len() implies vouched(rest, (#[trigger] init[j]).key)
            == vouched(attestations, init[j].key) by {
            assert(init[j] == owners[j]);
        }
        lemma_counted_weight_by_keys(init, rest, attestations);
    } else {
        assert forall|j: int| 0 <= j < init.len() implies (vouched(rest, (#[trigger] init[j]).key)
            <==> vouched(attestations, init[j].key) && j != signer) by {
            assert(init[j] == owners[j]);
        }
        assert(init[signer] == owners[signer]);
        lemma_counted_weight_without_signer(init, attestations, rest, signer);
    }
}

/// Where the keys of the owners are distinct and `rest` vouches for every
/// key but `owners[signer].key` as `attestations` does, and for that key
/// not at all, `rest` vouches for the owners that `attestations` vouches
/// for, but for that one.
proof fn lemma_one_signer_less(
    owners: Seq<KeyAndWeightView>,
    attestations: Seq<AttestationView>,
    rest: Seq<AttestationView>,
    signer: int,
)
    requires
        keys_distinct(owners),
        0 <= signer < owners.len(),
        forall|j: int|
            0 <= j < owners.len() ==> (vouched(rest, (#[trigger] owners[j]).key) <==> vouched(
                attestations,
                owners[j].key,
            ) && owners[j].key != owners[signer].key),
    ensures
        forall|j: int|
            0 <= j < owners.len() ==> (vouched(rest, (#[trigger] owners[j]).key) <==> vouched(
                attestations,
                owners[j].key,
            ) && j != signer),
{
    assert forall|j: int| 0 <= j < owners.len() implies (vouched(rest, (#[trigger] owners[j]).key)
        <==> vouched(attestations, owners[j].key) && j != signer) by {
        if j < signer {
            assert(owners[j].key != owners[signer].key);
        } else if signer < j {
            assert(owners[signer].key != owners[j].key);
        }
    }
}

/// The outcome depends only on whether there is any evidence and on which
/// owners' keys have a valid attestation. So it is the same for the evidence
/// in any order, with or without repeats and entries of others.
pub proof fn law_outcome_by_keys(
    policy: MutableAttributesView,
    a: Seq<AttestationView>,
    b: Seq<AttestationView>,
)
    requires
        a.len() == 0 <==> b.len() == 0,
        forall|key: Seq<u8>| #[trigger] vouched(a, key) == vouched(b, key),
    ensures
        decision(policy, a) == decision(policy, b),
{
    lemma_counted_weight_by_keys(policy.owner_keys, a, b);
}

/// Under a valid policy, evidence that is not empty authorizes exactly when
/// the counted weight reaches the policy's threshold, and fails with
/// `InsufficientWeight` otherwise.
pub proof fn law_authorized_iff_threshold_reached(
    policy: MutableAttributesView,
    attestations: Seq<AttestationView>,
)
    requires
        policy.valid(),
        attestations.len() > 0,
    ensures
        decision(policy, attestations) is Authorized <==> counted_weight(
            policy.owner_keys,
            attestations,
        ) >= policy.threshold(),
        !(decision(policy, attestations) is Authorized) ==> decision(policy, attestations)
            == AuthorizationResult::InsufficientWeight,
{
    lemma_signer_iff_weight(policy.owner_keys, attestations);
}

/// Boundary, first half: owners whose weights add up to exactly the minimum
/// weight authorize, provided there is at least one of them.
pub proof fn law_exact_weight_authorizes(
    policy: MutableAttributesView,
    attestations: Seq<AttestationView>,
)
    requires
        policy.valid(),
        some_owner_vouched(policy.owner_keys, attestations),
        counted_weight(policy.owner_keys, attestations) == policy.min_weight_for_consensus,
    ensures
        decision(policy, attestations) == (AuthorizationResult::Authorized {
            weight: policy.min_weight_for_consensus as u128,
        }),
{
    let owners = policy.owner_keys;
    let j = choose|j: int|
        0 <= j < owners.len() && vouched(attestations, (#[trigger] owners[j]).key);
    assert(vouched(attestations, owners[j].key) ==> attestations.len() > 0);
}

/// Boundary, second half: where the owners who signed add up to exactly the
/// minimum weight, the attestations without those of any one of them do not
/// authorize.
pub proof fn law_removing_a_signer_fails(
    policy: MutableAttributesView,
    attestations: Seq<AttestationView>,
    signer: int,
)
    requires
        policy.valid(),
        counted_weight(policy.owner_keys, attestations) == policy.min_weight_for_consensus,
        0 <= signer < policy.owner_keys.len(),
        vouched(attestations, policy.owner_keys[signer].key),
    ensures
        !(decision(policy, without_key(attestations, policy.owner_keys[signer].key))
            is Authorized),
{
    let owners = policy.owner_keys;
    let rest = without_key(attestations, owners[signer].key);
    assert forall|j: int| 0 <= j < owners.len() implies (vouched(rest, (#[trigger] owners[j]).key)
        <==> vouched(attestations, owners[j].key) && owners[j].key != owners[signer].key) by {
        lemma_vouched_without_key(attestations, owners[signer].key, owners[j].key);
    }
    lemma_one_signer_less(owners, attestations, rest, signer);
    lemma_counted_weight_without_signer(owners, attestations, rest, signer);
    assert(owners[signer].weight >= 1);
}

/// Boundary exactness. Under a valid policy, evidence in which the owners
/// with a valid signature add up to exactly the minimum weight authorizes,
/// with that weight; and the same evidence without the entries of any one of
/// these owners does not.
pub proof fn law_boundary_exactness(
    policy: MutableAttributesView,
    message: Seq<u8>,
    evidence: Seq<SignedEntryView>,
    signer: int,
)
    requires
        policy.valid(),
        counted_weight(policy.owner_keys, attested(evidence, message))
            == policy.min_weight_for_consensus,
        0 <= signer < policy.owner_keys.len(),
        vouched(attested(evidence, message), policy.owner_keys[signer].key),
    ensures
        authorization(policy, message, evidence) == (AuthorizationResult::Authorized {
            weight: policy.min_weight_for_consensus as u128,
        }),
        !(authorization(
            policy,
            message,
            evidence_without_key(evidence, policy.owner_keys[signer].key),
        ) is Authorized),
{
    let owners = policy.owner_keys;
    let attestations = attested(evidence, message);
    let rest = attested(evidence_without_key(evidence, owners[signer].key), message);
    law_exact_weight_authorizes(policy, attestations);
    assert forall|j: int| 0 <= j < owners.len() implies (vouched(rest, (#[trigger] owners[j]).key)
        <==> vouched(attestations, owners[j].key) && owners[j].key != owners[signer].key) by {
        lemma_vouched_without_entries(evidence, message, owners[signer].key, owners[j].key);
    }
    lemma_one_signer_less(owners, attestations, rest, signer);
    lemma_counted_weight_without_signer(owners, attestations, rest, signer);
    assert(owners[signer].weight >= 1);
}

/// Evidence without a single entry never authorizes, whatever the policy.
pub proof fn law_no_signatures_never_authorize(policy: MutableAttributesView, message: Seq<u8>)
    ensures
        authorization(policy, message, Seq::empty()) == AuthorizationResult::NoSignatures,
{
}

/// Under a policy with a single owner of weight one and a minimum weight of
/// zero, one valid signature of that owner authorizes.
pub proof fn law_single_owner_authorizes(
    policy: MutableAttributesView,
    message: Seq<u8>,
    entry: SignedEntryView,
)
    requires
        policy.owner_keys.len() == 1,
        policy.owner_keys[0].weight == 1,
        policy.min_weight_for_consensus == 0,
        entry.key == policy.owner_keys[0].key,
        endorses(entry, message),
    ensures
        authorization(policy, message, seq![entry]) == (AuthorizationResult::Authorized {
            weight: 1,
        }),
{
    let owners = policy.owner_keys;
    let attestations = attested(seq![entry], message);
    assert(attestations[0].key == entry.key && attestations[0].valid);
    assert(vouched(attestations, owners[0].key));
    assert(owners.last() == owners[0]);
    assert(counted_weight(owners.drop_last(), attestations) == 0);
}

} // verus!
