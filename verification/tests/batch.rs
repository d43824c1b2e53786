use docker_registry_manager::api::{ApiError, BatchDeletion, DeletionAction};

fn tags(names: &[&str]) -> Vec<String> {
    names.iter().map(|s| s.to_string()).collect()
}

#[test]
fn failure_of_one_tag_does_not_end_the_batch() {
    let mut batch = BatchDeletion::new(tags(&["a", "b", "c"]));
    let mut attempted = Vec::new();
    loop {
        match batch.action() {
            DeletionAction::FetchManifest { tag } => {
                attempted.push(tag.clone());
                batch.manifest_fetched(Ok(format!("sha256:{}", tag)));
            }
            DeletionAction::DeleteManifest { digest } => {
                if digest == "sha256:b" {
                    batch.manifest_deleted(Err(ApiError::Forbidden));
                } else {
                    batch.manifest_deleted(Ok(()));
                }
            }
            DeletionAction::Finished => break,
        }
    }
    assert_eq!(attempted, tags(&["a", "b", "c"]));
    let result = batch.result();
    assert_eq!(result.deleted, 2);
    assert_eq!(result.failed, 1);
    assert_eq!(result.errors, vec!["b: Access forbidden".to_string()]);
    assert_eq!(batch.progress(), 3);
}

#[test]
fn fetch_failure_and_missing_digest_are_failures_of_the_tag() {
    let mut batch = BatchDeletion::new(tags(&["x", "y", "z"]));
    assert_eq!(batch.action(), DeletionAction::FetchManifest { tag: "x".to_string() });
    batch.manifest_fetched(Err(ApiError::NotFound("Failed to get manifest for r:x".to_string())));
    assert_eq!(batch.progress(), 1);
    assert_eq!(batch.action(), DeletionAction::FetchManifest { tag: "y".to_string() });
    batch.manifest_fetched(Ok(String::new()));
    assert_eq!(batch.action(), DeletionAction::FetchManifest { tag: "z".to_string() });
    batch.manifest_fetched(Ok("sha256:z".to_string()));
    assert_eq!(batch.progress(), 2);
    assert_eq!(batch.action(), DeletionAction::DeleteManifest { digest: "sha256:z".to_string() });
    batch.manifest_deleted(Ok(()));
    assert_eq!(batch.action(), DeletionAction::Finished);
    let result = batch.result();
    assert_eq!(result.deleted, 1);
    assert_eq!(result.failed, 2);
    assert_eq!(
        result.errors,
        vec![
            "x: Resource not found: Failed to get manifest for r:x".to_string(),
            "y: No digest returned".to_string(),
        ]
    );
}

#[test]
fn outcomes_that_were_not_asked_for_change_nothing() {
    let mut batch = BatchDeletion::new(tags(&["a"]));
    batch.manifest_deleted(Ok(()));
    assert_eq!(batch.progress(), 0);
    assert_eq!(batch.result().deleted, 0);
    batch.manifest_fetched(Ok("d".to_string()));
    batch.manifest_fetched(Ok("e".to_string()));
    assert_eq!(batch.action(), DeletionAction::DeleteManifest { digest: "d".to_string() });
    batch.manifest_deleted(Ok(()));
    batch.manifest_deleted(Ok(()));
    batch.manifest_fetched(Ok("f".to_string()));
    assert_eq!(batch.action(), DeletionAction::Finished);
    let result = batch.result();
    assert_eq!((result.deleted, result.failed), (1, 0));
    assert!(result.errors.is_empty());
}

#[test]
fn batch_without_tags_is_finished_at_once() {
    let batch = BatchDeletion::new(Vec::new());
    assert_eq!(batch.action(), DeletionAction::Finished);
    let result = batch.result();
    assert_eq!((result.deleted, result.failed), (0, 0));
}
