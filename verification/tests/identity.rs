use structured_data::{CreationError, FixedAttributes};

#[test]
fn identity_keeps_what_it_was_given() {
    let identity = FixedAttributes::new(7, vec![1, 2, 3], 10, 5, vec![65, 66, 67]).unwrap();
    assert_eq!(identity.type_tag(), 7);
    assert_eq!(identity.id(), &vec![1, 2, 3]);
    assert_eq!(identity.max_versions(), 10);
    assert_eq!(identity.min_retained_count(), 5);
    assert_eq!(identity.fixed_payload(), &vec![65, 66, 67]);
    assert_eq!(identity.clone(), identity);
}

#[test]
fn identity_with_empty_id_is_refused() {
    let result = FixedAttributes::new(7, Vec::new(), 10, 5, Vec::new());
    assert_eq!(result.err(), Some(CreationError::InvalidIdentity));
}

#[test]
fn identity_that_retains_nothing_is_refused() {
    let result = FixedAttributes::new(7, vec![1], 10, 0, Vec::new());
    assert_eq!(result.err(), Some(CreationError::InvalidIdentity));
}

#[test]
fn identity_may_hold_no_versions_beyond_the_retained() {
    assert!(FixedAttributes::new(7, vec![0; 64], 0, 1, Vec::new()).is_ok());
}

#[test]
fn identity_size_counts_its_fields() {
    let identity = FixedAttributes::new(1, vec![1, 2, 3], 10, 5, vec![4, 5]).unwrap();
    assert_eq!(identity.size(), 38);
}
