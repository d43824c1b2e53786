use docker_registry_manager::api::{ApiError, BatchDeletion, DeletionAction, DeletionResult};
use docker_registry_manager::models::{
    AuthConfig, CacheConfig, ConnectionStatus, RegistryConfig, TagInfo, Theme,
};
use docker_registry_manager::presentation::{
    auth_from_form, auth_kind, filter_tags, left_out, next_theme, progress_percent,
    registry_from_form, repository_deletion_status, shorten_digest, status_class, tag_infos,
    tags_deletion_status, theme_class, theme_from_choice, toggle_selection, truncate_digest,
};
use docker_registry_manager::state::AppState;

fn strings(items: &[&str]) -> Vec<String> {
    items.iter().map(|s| s.to_string()).collect()
}

#[test]
fn tags_are_listed_without_digest_and_size() {
    let infos = tag_infos(Some(strings(&["latest", "3.19"])));
    assert_eq!(
        infos,
        vec![
            TagInfo { name: "latest".to_string(), digest: String::new(), size: 0 },
            TagInfo { name: "3.19".to_string(), digest: String::new(), size: 0 },
        ]
    );
    assert!(tag_infos(None).is_empty());
    assert!(tag_infos(Some(vec![])).is_empty());
}

#[test]
fn tags_are_filtered_by_name() {
    let tags = tag_infos(Some(strings(&["Latest", "3.19", "edge-LATEST", "stable"])));
    let names: Vec<String> = filter_tags(&tags, "late").into_iter().map(|t| t.name).collect();
    assert_eq!(names, strings(&["Latest", "edge-LATEST"]));
    assert_eq!(filter_tags(&tags, "").len(), 4);
    assert!(filter_tags(&tags, "nope").is_empty());
}

#[test]
fn selection_is_toggled() {
    let mut selected = strings(&["a", "b"]);
    toggle_selection(&mut selected, "c".to_string());
    assert_eq!(selected, strings(&["a", "b", "c"]));
    toggle_selection(&mut selected, "a".to_string());
    assert_eq!(selected, strings(&["b", "c"]));
    toggle_selection(&mut selected, "a".to_string());
    assert_eq!(selected, strings(&["b", "c", "a"]));
    let mut doubled = strings(&["x", "y", "x"]);
    toggle_selection(&mut doubled, "x".to_string());
    assert_eq!(doubled, strings(&["y"]));
    let mut none: Vec<String> = vec![];
    toggle_selection(&mut none, "x".to_string());
    assert_eq!(none, strings(&["x"]));
}

#[test]
fn digests_are_shortened() {
    let digest = "sha256:0123456789abcdef0123456789abcdef";
    assert_eq!(truncate_digest(digest), "sha256:0123456789abcdef0...");
    assert_eq!(shorten_digest(digest, 19), "sha256:0123456789ab...");
    assert_eq!(truncate_digest("sha256:short"), "sha256:short");
    assert_eq!(truncate_digest("123456789012345678901234"), "123456789012345678901234");
    assert_eq!(truncate_digest("1234567890123456789012345"), "123456789012345678901234...");
    assert_eq!(truncate_digest(""), "");
}

#[test]
fn classes_and_choices_name_status_theme_and_credentials() {
    assert_eq!(status_class(&ConnectionStatus::Connected), "connected");
    assert_eq!(status_class(&ConnectionStatus::Disconnected), "disconnected");
    assert_eq!(status_class(&ConnectionStatus::Error("x".to_string())), "error");
    assert_eq!(status_class(&ConnectionStatus::Unknown), "unknown");
    assert_eq!(theme_class(Theme::Light), "light");
    assert_eq!(theme_class(Theme::Dark), "dark");
    assert_eq!(theme_class(Theme::System), "system");
    assert_eq!(theme_from_choice("light"), Theme::Light);
    assert_eq!(theme_from_choice("dark"), Theme::Dark);
    assert_eq!(theme_from_choice("system"), Theme::System);
    assert_eq!(theme_from_choice("Light"), Theme::System);
    assert_eq!(next_theme(Theme::Light), Theme::Dark);
    assert_eq!(next_theme(Theme::Dark), Theme::System);
    assert_eq!(next_theme(Theme::System), Theme::Light);
    assert_eq!(auth_kind(&AuthConfig::Anonymous), "anonymous");
    assert_eq!(auth_kind(&auth_from_form("basic", "u".to_string(), "p".to_string(), String::new())), "basic");
    assert_eq!(auth_kind(&auth_from_form("bearer", String::new(), String::new(), "t".to_string())), "bearer");
    assert_eq!(
        auth_kind(&AuthConfig::TlsCert { cert_path: String::new(), key_path: String::new() }),
        "tls"
    );
}

#[test]
fn form_gives_credentials_in_plain_text() {
    assert_eq!(
        auth_from_form("basic", "u".to_string(), "p".to_string(), "t".to_string()),
        AuthConfig::BasicAuth { username: "u".to_string(), password: "p".to_string(), encrypted_password: String::new() }
    );
    assert_eq!(
        auth_from_form("bearer", "u".to_string(), "p".to_string(), "t".to_string()),
        AuthConfig::BearerToken { token: "t".to_string(), encrypted_token: String::new() }
    );
    assert_eq!(auth_from_form("tls", "u".to_string(), "p".to_string(), "t".to_string()), AuthConfig::Anonymous);
    assert_eq!(auth_from_form("", String::new(), String::new(), String::new()), AuthConfig::Anonymous);
}

#[test]
fn form_keeps_the_identifier_of_an_edited_registry() {
    let edited = registry_from_form(Some("id-7".to_string()), "n".to_string(), "http://r/".to_string(), AuthConfig::Anonymous);
    assert_eq!(edited.id, "id-7");
    assert_eq!(edited.url, "http://r");
    assert_eq!(edited.status, ConnectionStatus::Unknown);
    let new = registry_from_form(None, "n".to_string(), "http://r".to_string(), AuthConfig::Anonymous);
    assert_eq!(new.id.len(), 36);
    assert_eq!(new.name, "n");
}

#[test]
fn deletion_is_summed_up_in_a_message() {
    let clean = DeletionResult { deleted: 3, failed: 0, errors: vec![] };
    assert_eq!(repository_deletion_status(&clean), "Deleted 3 tags successfully");
    assert_eq!(tags_deletion_status(&clean), "Deleted 3 tags");
    let mixed = DeletionResult { deleted: 12, failed: 2, errors: strings(&["a: x", "b: y"]) };
    assert_eq!(repository_deletion_status(&mixed), "Deleted 12, 2 failed");
    assert_eq!(tags_deletion_status(&mixed), "Deleted 12, 2 errors");
}

#[test]
fn progress_is_a_percentage() {
    assert_eq!(progress_percent(0, 4), 0);
    assert_eq!(progress_percent(1, 4), 25);
    assert_eq!(progress_percent(1, 3), 33);
    assert_eq!(progress_percent(4, 4), 100);
    assert_eq!(progress_percent(0, 0), 0);
    assert_eq!(left_out(12, 10), Some(2));
    assert_eq!(left_out(10, 10), None);
    assert_eq!(left_out(3, 5), None);
}

#[test]
fn selected_tag_without_digest_is_a_failure_with_a_message() {
    let mut batch = BatchDeletion::new(strings(&["a", "b", "c"]));
    batch.manifest_fetched(Ok(String::new()));
    assert_eq!(batch.progress(), 1);
    assert_eq!(batch.action(), DeletionAction::FetchManifest { tag: "b".to_string() });
    batch.manifest_fetched(Ok("sha256:b".to_string()));
    batch.manifest_deleted(Err(ApiError::Unauthorized));
    batch.manifest_fetched(Ok("sha256:c".to_string()));
    batch.manifest_deleted(Ok(()));
    assert_eq!(batch.action(), DeletionAction::Finished);
    let result = batch.result();
    assert_eq!((result.deleted, result.failed), (1, 2));
    assert_eq!(result.errors, strings(&["a: No digest returned", "b: Authentication required"]));
    assert_eq!(result.deleted + result.errors.len(), 3);
    assert_eq!(tags_deletion_status(&result), "Deleted 1, 2 errors");
}

#[test]
fn state_starts_from_what_could_be_loaded() {
    let list = vec![RegistryConfig::with_id("1".to_string(), "n".to_string(), "u".to_string(), AuthConfig::Anonymous)];
    let state = AppState::from_loaded::<String>(
        Ok(list.clone()),
        Ok(Theme::Dark),
        Ok(CacheConfig { refresh_interval: 5, max_age: 6 }),
    );
    assert_eq!(state.registries, list);
    assert_eq!(state.theme, Theme::Dark);
    assert_eq!(state.cache_config, CacheConfig { refresh_interval: 5, max_age: 6 });
    assert_eq!(state.selected_registry, None);
    let state = AppState::from_loaded(Err("a"), Err("b"), Err("c"));
    assert!(state.registries.is_empty());
    assert_eq!(state.theme, Theme::System);
    assert_eq!(state.cache_config, CacheConfig { refresh_interval: 0, max_age: 3600 });
}
