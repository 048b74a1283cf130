use structured_data::{CreationError, FixedAttributes, Ledger, MutationError, Version};

fn version(index: u64) -> Version {
    Version { index, payload: vec![b'v', index as u8] }
}

fn bounds(max_versions: u64, min_retained_count: u8) -> FixedAttributes {
    FixedAttributes::new(1, vec![0; 64], max_versions, min_retained_count, Vec::new()).unwrap()
}

fn ledger_up_to(last: u64, identity: &FixedAttributes) -> Ledger {
    let mut ledger = Ledger::genesis(version(0)).unwrap();
    for index in 1..=last {
        ledger = ledger.append(version(index), identity, u64::MAX).unwrap().ledger;
    }
    ledger
}

fn indices(versions: &[Version]) -> Vec<u64> {
    versions.iter().map(|version| version.index).collect()
}

#[test]
fn genesis_holds_the_initial_version() {
    let ledger = Ledger::genesis(version(0)).unwrap();
    assert_eq!(ledger.len(), 1);
    assert_eq!(ledger.versions(), &vec![version(0)]);
    assert_eq!(ledger.latest(), &version(0));
}

#[test]
fn genesis_must_start_at_zero() {
    assert_eq!(Ledger::genesis(version(1)).err(), Some(CreationError::NonSequentialIndex));
    assert_eq!(Ledger::genesis(version(u64::MAX)).err(), Some(CreationError::NonSequentialIndex));
}

#[test]
fn append_takes_the_next_index() {
    let identity = bounds(10, 5);
    let ledger = Ledger::genesis(version(0)).unwrap();
    let appended = ledger.append(version(1), &identity, u64::MAX).unwrap();
    assert_eq!(appended.ledger.versions(), &vec![version(0), version(1)]);
    assert_eq!(appended.ledger.latest(), &version(1));
    assert!(appended.archived.is_empty());
}

#[test]
fn append_leaves_the_old_ledger_untouched() {
    let identity = bounds(1, 1);
    let ledger = Ledger::genesis(version(0)).unwrap();
    let _ = ledger.append(version(1), &identity, u64::MAX).unwrap();
    let _ = ledger.append(version(5), &identity, u64::MAX);
    assert_eq!(ledger.versions(), &vec![version(0)]);
}

#[test]
fn append_rejects_a_gap() {
    let identity = bounds(10, 5);
    let ledger = ledger_up_to(2, &identity);
    assert_eq!(
        ledger.append(version(4), &identity, u64::MAX).err(),
        Some(MutationError::NonSequentialIndex)
    );
}

#[test]
fn append_rejects_an_older_index() {
    let identity = bounds(10, 5);
    let ledger = ledger_up_to(2, &identity);
    assert_eq!(
        ledger.append(version(1), &identity, u64::MAX).err(),
        Some(MutationError::NonSequentialIndex)
    );
    assert_eq!(
        ledger.append(version(0), &identity, u64::MAX).err(),
        Some(MutationError::NonSequentialIndex)
    );
}

#[test]
fn appending_the_same_index_twice_fails_the_second_time() {
    let identity = bounds(10, 5);
    let ledger = ledger_up_to(2, &identity);
    let once = ledger.append(version(3), &identity, u64::MAX).unwrap().ledger;
    assert_eq!(
        once.append(version(3), &identity, u64::MAX).err(),
        Some(MutationError::NonSequentialIndex)
    );
    let other_payload = Version { index: 3, payload: vec![1, 2, 3] };
    assert_eq!(
        once.append(other_payload, &identity, u64::MAX).err(),
        Some(MutationError::NonSequentialIndex)
    );
}

#[test]
fn oldest_version_is_archived_when_the_ledger_is_full() {
    let identity = bounds(3, 1);
    let ledger = ledger_up_to(2, &identity);
    assert_eq!(indices(ledger.versions()), vec![0, 1, 2]);
    let appended = ledger.append(version(3), &identity, u64::MAX).unwrap();
    assert_eq!(appended.archived, vec![version(0)]);
    assert_eq!(appended.ledger.versions(), &vec![version(1), version(2), version(3)]);
}

#[test]
fn every_version_is_archived_once_and_in_order() {
    let identity = bounds(2, 1);
    let mut ledger = Ledger::genesis(version(0)).unwrap();
    let mut archive: Vec<Version> = Vec::new();
    for index in 1..=6 {
        let appended = ledger.append(version(index), &identity, u64::MAX).unwrap();
        archive.extend(appended.archived);
        ledger = appended.ledger;
        assert!(ledger.len() <= 2);
    }
    assert_eq!(indices(&archive), vec![0, 1, 2, 3, 4]);
    assert_eq!(indices(ledger.versions()), vec![5, 6]);
}

#[test]
fn nothing_is_archived_below_the_bound() {
    let identity = bounds(4, 2);
    let ledger = ledger_up_to(2, &identity);
    let appended = ledger.append(version(3), &identity, u64::MAX).unwrap();
    assert!(appended.archived.is_empty());
    assert_eq!(appended.ledger.len(), 4);
}

#[test]
fn retained_minimum_wins_over_a_smaller_bound() {
    let identity = bounds(1, 3);
    let mut ledger = Ledger::genesis(version(0)).unwrap();
    let first = ledger.append(version(1), &identity, u64::MAX).unwrap();
    assert!(first.archived.is_empty());
    ledger = first.ledger;
    let second = ledger.append(version(2), &identity, u64::MAX).unwrap();
    assert!(second.archived.is_empty());
    ledger = second.ledger;
    assert_eq!(indices(ledger.versions()), vec![0, 1, 2]);
    let third = ledger.append(version(3), &identity, u64::MAX).unwrap();
    assert_eq!(indices(&third.archived), vec![0]);
    assert_eq!(indices(third.ledger.versions()), vec![1, 2, 3]);
}

#[test]
fn ledger_never_becomes_empty() {
    let identity = bounds(0, 1);
    let ledger = Ledger::genesis(version(0)).unwrap();
    let appended = ledger.append(version(1), &identity, u64::MAX).unwrap();
    assert_eq!(indices(&appended.archived), vec![0]);
    assert_eq!(indices(appended.ledger.versions()), vec![1]);
}

#[test]
fn single_version_ledger_replaces_its_version() {
    let identity = bounds(1, 1);
    let ledger = ledger_up_to(4, &identity);
    assert_eq!(ledger.versions(), &vec![version(4)]);
    assert_eq!(
        ledger.append(version(4), &identity, u64::MAX).err(),
        Some(MutationError::NonSequentialIndex)
    );
    let replaced = ledger.append(version(5), &identity, u64::MAX).unwrap();
    assert_eq!(replaced.archived, vec![version(4)]);
}

#[test]
fn ledger_over_its_budget_is_rejected() {
    let identity = bounds(10, 5);
    let ledger = Ledger::genesis(version(0)).unwrap();
    assert!(ledger.fits(26));
    assert!(!ledger.fits(25));
    assert!(ledger.append(version(1), &identity, 44).is_ok());
    assert_eq!(
        ledger.append(version(1), &identity, 43).err(),
        Some(MutationError::SizeLimitExceeded)
    );
    assert_eq!(
        ledger.append(version(2), &identity, 43).err(),
        Some(MutationError::NonSequentialIndex)
    );
}

#[test]
fn archived_versions_do_not_count_against_the_budget() {
    let identity = bounds(1, 1);
    let ledger = Ledger::genesis(version(0)).unwrap();
    let appended = ledger.append(version(1), &identity, 26).unwrap();
    assert_eq!(appended.archived, vec![version(0)]);
    assert_eq!(appended.ledger.versions(), &vec![version(1)]);
}

#[test]
fn ledger_clone_is_equal() {
    let identity = bounds(10, 5);
    let ledger = ledger_up_to(3, &identity);
    assert_eq!(ledger.clone(), ledger);
    assert_eq!(version(3).clone(), version(3));
}
