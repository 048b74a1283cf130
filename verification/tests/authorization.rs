use sodiumoxide::crypto::sign;
use structured_data::{
    authorize, check_evidence, tally, verify_entry, Attestation, AuthorizationResult,
    KeyAndSignature, KeyAndWeight, MutableAttributes,
};

fn keypair(tag: u8) -> (sign::PublicKey, sign::SecretKey) {
    sign::keypair_from_seed(&sign::Seed([tag; 32]))
}

fn key(tag: u8) -> [u8; 32] {
    keypair(tag).0 .0
}

fn signed(tag: u8, message: &[u8]) -> KeyAndSignature {
    let (public, secret) = keypair(tag);
    KeyAndSignature { key: public.0, signature: sign::sign_detached(message, &secret).to_bytes() }
}

fn policy(owners: &[(u8, u64)], min_weight: u64) -> MutableAttributes {
    let owners = owners.iter().map(|&(tag, weight)| KeyAndWeight { key: key(tag), weight });
    MutableAttributes::new(owners.collect(), min_weight, i64::MAX, Vec::new()).unwrap()
}

const CANDIDATE: &[u8] = b"candidate mutation";

#[test]
fn valid_signature_is_accepted() {
    assert!(verify_entry(&signed(1, CANDIDATE), CANDIDATE));
}

#[test]
fn signature_over_other_bytes_is_rejected() {
    assert!(!verify_entry(&signed(1, b"something else"), CANDIDATE));
}

#[test]
fn signature_under_another_key_is_rejected() {
    let entry = KeyAndSignature { key: key(2), signature: signed(1, CANDIDATE).signature };
    assert!(!verify_entry(&entry, CANDIDATE));
}

#[test]
fn tampered_signature_is_rejected() {
    let mut entry = signed(1, CANDIDATE);
    entry.signature[0] ^= 1;
    assert!(!verify_entry(&entry, CANDIDATE));
}

#[test]
fn malformed_signature_is_rejected() {
    let mut entry = signed(1, CANDIDATE);
    entry.signature[63] |= 0x80;
    assert!(!verify_entry(&entry, CANDIDATE));
    entry.signature = [0xff; 64];
    assert!(!verify_entry(&entry, CANDIDATE));
}

#[test]
fn empty_message_can_be_signed() {
    assert!(verify_entry(&signed(3, b""), b""));
    assert!(!verify_entry(&signed(3, b""), b"x"));
}

#[test]
fn check_evidence_gives_one_verdict_per_entry() {
    let mut forged = signed(2, CANDIDATE);
    forged.signature[5] ^= 0x10;
    let evidence = vec![signed(1, CANDIDATE), forged, signed(3, b"other")];
    let attestations = check_evidence(CANDIDATE, &evidence);
    assert_eq!(
        attestations,
        vec![
            Attestation { key: key(1), valid: true },
            Attestation { key: key(2), valid: false },
            Attestation { key: key(3), valid: false },
        ]
    );
}

#[test]
fn one_of_two_owners_is_not_enough() {
    let policy = policy(&[(1, 2), (2, 3)], 4);
    let evidence = vec![signed(1, CANDIDATE)];
    assert_eq!(authorize(&policy, CANDIDATE, &evidence), AuthorizationResult::InsufficientWeight);
}

#[test]
fn both_owners_authorize_with_their_combined_weight() {
    let policy = policy(&[(1, 2), (2, 3)], 4);
    let evidence = vec![signed(1, CANDIDATE), signed(2, CANDIDATE)];
    assert_eq!(
        authorize(&policy, CANDIDATE, &evidence),
        AuthorizationResult::Authorized { weight: 5 }
    );
}

#[test]
fn single_owner_with_zero_minimum_needs_one_signature() {
    let policy = policy(&[(1, 1)], 0);
    assert_eq!(
        authorize(&policy, CANDIDATE, &vec![signed(1, CANDIDATE)]),
        AuthorizationResult::Authorized { weight: 1 }
    );
    assert_eq!(authorize(&policy, CANDIDATE, &Vec::new()), AuthorizationResult::NoSignatures);
}

#[test]
fn zero_minimum_is_not_met_by_an_invalid_signature() {
    let policy = policy(&[(1, 1)], 0);
    let evidence = vec![signed(1, b"not the candidate")];
    assert_eq!(authorize(&policy, CANDIDATE, &evidence), AuthorizationResult::InsufficientWeight);
}

#[test]
fn zero_minimum_is_not_met_by_a_stranger() {
    let policy = policy(&[(1, 1)], 0);
    let evidence = vec![signed(9, CANDIDATE)];
    assert_eq!(authorize(&policy, CANDIDATE, &evidence), AuthorizationResult::InsufficientWeight);
}

#[test]
fn no_evidence_never_authorizes() {
    let policy = policy(&[(1, 2), (2, 3)], 4);
    assert_eq!(authorize(&policy, CANDIDATE, &Vec::new()), AuthorizationResult::NoSignatures);
}

#[test]
fn weight_equal_to_the_minimum_authorizes_and_one_signer_less_does_not() {
    let policy = policy(&[(1, 2), (2, 3), (3, 4)], 7);
    let both = vec![signed(2, CANDIDATE), signed(3, CANDIDATE)];
    assert_eq!(
        authorize(&policy, CANDIDATE, &both),
        AuthorizationResult::Authorized { weight: 7 }
    );
    let without_second = vec![signed(3, CANDIDATE)];
    let without_third = vec![signed(2, CANDIDATE)];
    assert_eq!(
        authorize(&policy, CANDIDATE, &without_second),
        AuthorizationResult::InsufficientWeight
    );
    assert_eq!(
        authorize(&policy, CANDIDATE, &without_third),
        AuthorizationResult::InsufficientWeight
    );
}

#[test]
fn weight_above_the_minimum_authorizes() {
    let policy = policy(&[(1, 2), (2, 3), (3, 4)], 7);
    let all = vec![signed(1, CANDIDATE), signed(2, CANDIDATE), signed(3, CANDIDATE)];
    assert_eq!(authorize(&policy, CANDIDATE, &all), AuthorizationResult::Authorized { weight: 9 });
}

#[test]
fn repeated_signer_counts_once() {
    let policy = policy(&[(1, 2), (2, 3)], 4);
    let evidence = vec![signed(1, CANDIDATE), signed(1, CANDIDATE), signed(1, CANDIDATE)];
    assert_eq!(authorize(&policy, CANDIDATE, &evidence), AuthorizationResult::InsufficientWeight);
    let evidence = vec![signed(2, CANDIDATE), signed(1, CANDIDATE), signed(2, CANDIDATE)];
    assert_eq!(
        authorize(&policy, CANDIDATE, &evidence),
        AuthorizationResult::Authorized { weight: 5 }
    );
}

#[test]
fn strangers_and_invalid_signatures_are_passed_over() {
    let policy = policy(&[(1, 2), (2, 3)], 3);
    let mut forged = signed(1, CANDIDATE);
    forged.signature[10] ^= 4;
    let evidence = vec![signed(7, CANDIDATE), forged, signed(2, CANDIDATE)];
    assert_eq!(
        authorize(&policy, CANDIDATE, &evidence),
        AuthorizationResult::Authorized { weight: 3 }
    );
}

#[test]
fn owner_counts_when_one_of_its_signatures_is_valid() {
    let policy = policy(&[(1, 2)], 2);
    let evidence = vec![signed(1, b"stale"), signed(1, CANDIDATE)];
    assert_eq!(
        authorize(&policy, CANDIDATE, &evidence),
        AuthorizationResult::Authorized { weight: 2 }
    );
}

#[test]
fn order_of_evidence_does_not_matter() {
    let policy = policy(&[(1, 2), (2, 3), (3, 4)], 5);
    let forward = vec![signed(1, CANDIDATE), signed(2, CANDIDATE), signed(8, CANDIDATE)];
    let backward = vec![signed(8, CANDIDATE), signed(2, CANDIDATE), signed(1, CANDIDATE)];
    assert_eq!(authorize(&policy, CANDIDATE, &forward), authorize(&policy, CANDIDATE, &backward));
    assert_eq!(
        authorize(&policy, CANDIDATE, &forward),
        AuthorizationResult::Authorized { weight: 5 }
    );
}

#[test]
fn tally_counts_valid_attestations_of_owners() {
    let policy = policy(&[(1, 2), (2, 3)], 4);
    let attestations = vec![
        Attestation { key: key(2), valid: true },
        Attestation { key: key(1), valid: false },
        Attestation { key: key(5), valid: true },
    ];
    assert_eq!(tally(&policy, &attestations), AuthorizationResult::InsufficientWeight);
    let attestations = vec![
        Attestation { key: key(2), valid: true },
        Attestation { key: key(1), valid: false },
        Attestation { key: key(1), valid: true },
    ];
    assert_eq!(tally(&policy, &attestations), AuthorizationResult::Authorized { weight: 5 });
    assert_eq!(tally(&policy, &Vec::new()), AuthorizationResult::NoSignatures);
}

#[test]
fn tally_adds_large_weights_exactly() {
    let owners = vec![
        KeyAndWeight { key: [1; 32], weight: u64::MAX },
        KeyAndWeight { key: [2; 32], weight: u64::MAX },
    ];
    let policy = MutableAttributes::new(owners, u64::MAX, 0, Vec::new()).unwrap();
    let attestations =
        vec![Attestation { key: [1; 32], valid: true }, Attestation { key: [2; 32], valid: true }];
    assert_eq!(
        tally(&policy, &attestations),
        AuthorizationResult::Authorized { weight: 2 * (u64::MAX as u128) }
    );
}
