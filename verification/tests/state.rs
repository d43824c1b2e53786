use docker_registry_manager::models::{
    AppError, AuthConfig, CacheConfig, CachedData, ErrorCode, ErrorDetails, RegistryConfig, Theme,
};
use docker_registry_manager::state::AppState;

fn registry(id: &str, name: &str) -> RegistryConfig {
    RegistryConfig::with_id(id.to_string(), name.to_string(), "http://r".to_string(), AuthConfig::Anonymous)
}

#[test]
fn state_starts_empty() {
    let state = AppState::new();
    assert!(state.registries.is_empty());
    assert_eq!(state.selected_registry, None);
    assert_eq!(state.selected_repo, None);
    assert_eq!(state.selected_tag, None);
    assert_eq!(state.theme, Theme::System);
    assert_eq!(state.cache_config, CacheConfig { refresh_interval: 0, max_age: 3600 });
    assert!(AppState::default().registries.is_empty());
}

#[test]
fn registries_keep_the_order_they_were_added_in() {
    let mut state = AppState::new();
    state.add_registry(registry("1", "one"));
    state.add_registry(registry("2", "two"));
    state.add_registry(registry("3", "three"));
    let names: Vec<&str> = state.registries.iter().map(|r| r.name.as_str()).collect();
    assert_eq!(names, vec!["one", "two", "three"]);
    assert_eq!(state.get_registry("2"), Some(registry("2", "two")));
    assert_eq!(state.get_registry("9"), None);
}

#[test]
fn update_replaces_a_registry_in_its_place() {
    let mut state = AppState::new();
    state.add_registry(registry("1", "one"));
    state.add_registry(registry("2", "two"));
    state.update_registry("1", registry("1", "uno"));
    let names: Vec<&str> = state.registries.iter().map(|r| r.name.as_str()).collect();
    assert_eq!(names, vec!["uno", "two"]);
    state.update_registry("9", registry("9", "nine"));
    assert_eq!(state.registries.len(), 2);
}

#[test]
fn deleting_the_selected_registry_clears_the_selection() {
    let mut state = AppState::new();
    state.add_registry(registry("1", "one"));
    state.add_registry(registry("2", "two"));
    state.select_registry(Some("1".to_string()));
    state.select_repo(Some("repo".to_string()));
    state.select_tag(Some("tag".to_string()));
    state.delete_registry("2");
    assert_eq!(state.selected_registry, Some("1".to_string()));
    assert_eq!(state.selected_repo, Some("repo".to_string()));
    assert_eq!(state.selected_tag, Some("tag".to_string()));
    assert_eq!(state.registries.len(), 1);
    state.delete_registry("1");
    assert!(state.registries.is_empty());
    assert_eq!(state.selected_registry, None);
    assert_eq!(state.selected_repo, None);
    assert_eq!(state.selected_tag, None);
}

#[test]
fn selecting_clears_what_lies_below() {
    let mut state = AppState::new();
    state.select_registry(Some("1".to_string()));
    state.select_repo(Some("repo".to_string()));
    state.select_tag(Some("tag".to_string()));
    state.select_repo(Some("other".to_string()));
    assert_eq!(state.selected_tag, None);
    assert_eq!(state.selected_registry, Some("1".to_string()));
    state.select_tag(Some("tag".to_string()));
    state.select_registry(None);
    assert_eq!(state.selected_repo, None);
    assert_eq!(state.selected_tag, None);
}

#[test]
fn settings_are_set() {
    let mut state = AppState::new();
    state.set_theme(Theme::Dark);
    state.set_cache_config(CacheConfig { refresh_interval: 30, max_age: 60 });
    assert_eq!(state.theme, Theme::Dark);
    assert_eq!(state.cache_config, CacheConfig { refresh_interval: 30, max_age: 60 });
}

#[test]
fn cached_data_expires_after_max_age() {
    let cached = CachedData::at(vec![1, 2, 3], "reg".to_string(), 1000);
    assert_eq!(cached.data, vec![1, 2, 3]);
    assert_eq!(cached.registry_id, "reg");
    assert_eq!(cached.timestamp, 1000);
    assert!(!cached.is_expired_at(1000, 60));
    assert!(!cached.is_expired_at(1060, 60));
    assert!(cached.is_expired_at(1061, 60));
    assert!(!cached.is_expired_at(900, 60));
    assert!(cached.is_expired_at(1001, 0));
    assert!(!cached.is_expired_at(u64::MAX, u64::MAX));
}

#[test]
fn cached_data_is_stamped_with_the_clock() {
    let cached = CachedData::new("x", "reg".to_string());
    assert!(cached.timestamp > 1_600_000_000);
    assert!(!cached.is_expired(3600));
    let old = CachedData::at("x", "reg".to_string(), 1);
    assert!(old.is_expired(3600));
}

#[test]
fn app_errors_are_built_step_by_step() {
    let e = AppError::new(ErrorCode::NotFound, "missing".to_string());
    assert_eq!(e.code, ErrorCode::NotFound);
    assert_eq!(e.message, "missing");
    assert_eq!(e.details, None);
    assert!(e.recoverable);
    let details = ErrorDetails {
        status_code: Some(404),
        response_headers: None,
        response_body: Some("{}".to_string()),
        curl_command: None,
    };
    let e = e.with_details(details.clone()).non_recoverable();
    assert_eq!(e.details, Some(details));
    assert!(!e.recoverable);
    assert_eq!(e.message, "missing");
    assert_eq!(e.code, ErrorCode::NotFound);
}
