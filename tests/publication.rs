use krill::publication::{PublicationError, PublishElement, Repository};

fn repo_with_one() -> Repository {
    let mut repo = Repository::new();
    let delta = vec![PublishElement::Publish { uri: "rsync://x/a.cer".to_string(), hash: vec![1, 2] }];
    repo.apply_delta(&delta).unwrap();
    repo
}

#[test]
fn publish_reissues_manifest_and_crl() {
    let repo = repo_with_one();
    assert_eq!(repo.objects.len(), 1);
    assert_eq!(repo.manifest_number, 2);
    assert_eq!(repo.crl_number, 2);
}

#[test]
fn stale_hash_update_is_rejected_and_nothing_changes() {
    let mut repo = repo_with_one();
    let delta = vec![
        PublishElement::Publish { uri: "rsync://x/b.roa".to_string(), hash: vec![5] },
        PublishElement::Update { uri: "rsync://x/a.cer".to_string(), old_hash: vec![9], hash: vec![3] },
    ];
    assert_eq!(repo.apply_delta(&delta), Err(PublicationError::HashMismatch));
    assert_eq!(repo.objects.len(), 1);
    assert_eq!(repo.objects[0].hash, vec![1, 2]);
    assert_eq!(repo.manifest_number, 2);
    assert_eq!(repo.crl_number, 2);
}

#[test]
fn stale_hash_withdraw_is_rejected() {
    let mut repo = repo_with_one();
    let delta = vec![PublishElement::Withdraw { uri: "rsync://x/a.cer".to_string(), old_hash: vec![1] }];
    assert_eq!(repo.apply_delta(&delta), Err(PublicationError::HashMismatch));
    assert_eq!(repo.objects.len(), 1);
    assert_eq!(repo.manifest_number, 2);
}

#[test]
fn update_and_withdraw_with_current_hash() {
    let mut repo = repo_with_one();
    let delta = vec![PublishElement::Update {
        uri: "rsync://x/a.cer".to_string(),
        old_hash: vec![1, 2],
        hash: vec![7],
    }];
    repo.apply_delta(&delta).unwrap();
    assert_eq!(repo.objects[0].hash, vec![7]);
    let delta = vec![PublishElement::Withdraw { uri: "rsync://x/a.cer".to_string(), old_hash: vec![7] }];
    repo.apply_delta(&delta).unwrap();
    assert!(repo.objects.is_empty());
    assert_eq!(repo.manifest_number, 4);
}

#[test]
fn publish_over_existing_and_missing_targets() {
    let mut repo = repo_with_one();
    let delta = vec![PublishElement::Publish { uri: "rsync://x/a.cer".to_string(), hash: vec![4] }];
    assert_eq!(repo.apply_delta(&delta), Err(PublicationError::ObjectAlreadyPresent));
    let delta = vec![PublishElement::Withdraw { uri: "rsync://x/z.cer".to_string(), old_hash: vec![4] }];
    assert_eq!(repo.apply_delta(&delta), Err(PublicationError::NoObjectPresent));
}

#[test]
fn numbers_exhausted() {
    let mut repo = Repository::new();
    repo.manifest_number = u64::MAX;
    assert_eq!(repo.apply_delta(&vec![]), Err(PublicationError::NumbersExhausted));
}
