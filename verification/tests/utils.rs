use docker_registry_manager::models::{
    ApiRequestInfo, AuthConfig, Descriptor, HistoryEntry, Manifest, ManifestV1, ManifestV2,
    OciManifest, RegistryConfig, TagInfo,
};
use docker_registry_manager::utils::{
    calculate_total_size, contains_credentials, create_request_info, export_contains_all_tags,
    export_registries, export_tags_csv, export_tags_json, filter_strings, filter_strings_owned,
    from_exported, generate_curl_command, generate_curl_command_from_info, import_registries,
    is_history_sorted_chronologically, is_sorted_alphabetically, manifest_total_size,
    parse_auth_type, sort_alphabetically, sort_history_chronologically, sorted_alphabetically,
    sorted_history_chronologically, to_exported,
};

fn strings(items: &[&str]) -> Vec<String> {
    items.iter().map(|s| s.to_string()).collect()
}

fn layer(size: u64) -> Descriptor {
    Descriptor { media_type: "l".to_string(), size, digest: format!("sha256:{}", size) }
}

fn entry(created: Option<&str>, by: &str) -> HistoryEntry {
    HistoryEntry { created: created.map(|s| s.to_string()), created_by: Some(by.to_string()), empty_layer: None }
}

fn basic() -> AuthConfig {
    AuthConfig::BasicAuth {
        username: "user".to_string(),
        password: "hunter2".to_string(),
        encrypted_password: String::new(),
    }
}

#[test]
fn total_size_is_the_sum_of_the_layers() {
    assert_eq!(calculate_total_size(&[]), 0);
    assert_eq!(calculate_total_size(&[layer(10), layer(20), layer(5)]), 35);
    assert_eq!(calculate_total_size(&[layer(u64::MAX)]), u64::MAX);
    let v2 = Manifest::V2(ManifestV2 {
        schema_version: 2,
        media_type: "m".to_string(),
        config: layer(1000),
        layers: vec![layer(10), layer(20)],
    });
    assert_eq!(manifest_total_size(&v2), 30);
    let oci = Manifest::OCI(OciManifest { schema_version: 2, media_type: None, config: layer(1), layers: vec![layer(7)] });
    assert_eq!(manifest_total_size(&oci), 7);
    let v1 = Manifest::V1(ManifestV1 {
        schema_version: 1,
        name: "n".to_string(),
        tag: "t".to_string(),
        architecture: "a".to_string(),
        fs_layers: vec![],
        history: vec![],
    });
    assert_eq!(manifest_total_size(&v1), 0);
}

#[test]
fn sum_that_does_not_fit_is_told() {
    let big = Manifest::V2(ManifestV2 {
        schema_version: 2,
        media_type: "m".to_string(),
        config: layer(0),
        layers: vec![layer(u64::MAX), layer(1)],
    });
    assert_eq!(big.checked_total_size(), None);
}

#[test]
fn filter_ignores_case() {
    let items = strings(&["Alpine", "ubuntu", "ALPINE-edge", "busybox"]);
    let found = filter_strings(&items, "alp");
    assert_eq!(found, vec![&items[0], &items[2]]);
    assert_eq!(filter_strings_owned(&items, "BU"), strings(&["ubuntu", "busybox"]));
    assert_eq!(filter_strings_owned(&items, ""), items);
    assert!(filter_strings_owned(&items, "zzz").is_empty());
    assert!(filter_strings(&[], "a").is_empty());
}

#[test]
fn names_sort_whatever_their_case() {
    let items = strings(&["pear", "Apple", "banana", "apple", "Banana"]);
    assert_eq!(
        sorted_alphabetically(&items),
        strings(&["Apple", "apple", "banana", "Banana", "pear"])
    );
    let mut in_place = items.clone();
    sort_alphabetically(&mut in_place);
    assert_eq!(in_place, strings(&["Apple", "apple", "banana", "Banana", "pear"]));
    assert!(is_sorted_alphabetically(&in_place));
    assert!(!is_sorted_alphabetically(&items));
    assert!(is_sorted_alphabetically(&[]));
    assert!(is_sorted_alphabetically(&strings(&["a", "A", "a"])));
    assert_eq!(sorted_alphabetically(&strings(&["b", "ab", "a", ""])), strings(&["", "a", "ab", "b"]));
}

#[test]
fn history_sorts_by_time_and_keeps_ties_in_order() {
    let history = vec![
        entry(Some("2024-03-01T00:00:00Z"), "c"),
        entry(None, "first without time"),
        entry(Some("2023-01-01T00:00:00Z"), "a"),
        entry(Some("2024-03-01T00:00:00Z"), "d"),
        entry(None, "second without time"),
    ];
    let sorted = sorted_history_chronologically(&history);
    let order: Vec<&str> = sorted.iter().map(|e| e.created_by.as_deref().unwrap()).collect();
    assert_eq!(order, vec!["first without time", "second without time", "a", "c", "d"]);
    assert!(is_history_sorted_chronologically(&sorted));
    assert!(!is_history_sorted_chronologically(&history));
    let mut in_place = history.clone();
    sort_history_chronologically(&mut in_place);
    assert_eq!(in_place, sorted);
    assert!(is_history_sorted_chronologically(&[]));
}

#[test]
fn curl_command_for_a_manifest_masks_the_secret() {
    assert_eq!(
        generate_curl_command("https://r.example.com", "library/alpine", "latest", &AuthConfig::Anonymous),
        "curl -H 'Accept: application/vnd.docker.distribution.manifest.v2+json' 'https://r.example.com/v2/library/alpine/manifests/latest'"
    );
    let with_basic = generate_curl_command("http://r", "a", "t", &basic());
    assert_eq!(
        with_basic,
        "curl -H 'Accept: application/vnd.docker.distribution.manifest.v2+json' -H 'Authorization: Basic <user>***' 'http://r/v2/a/manifests/t'"
    );
    assert!(!with_basic.contains("hunter2"));
    let bearer = AuthConfig::BearerToken { token: "tok".to_string(), encrypted_token: String::new() };
    assert_eq!(
        generate_curl_command("http://r", "a", "t", &bearer),
        "curl -H 'Accept: application/vnd.docker.distribution.manifest.v2+json' -H 'Authorization: Bearer ***' 'http://r/v2/a/manifests/t'"
    );
}

#[test]
fn curl_command_for_a_request_masks_authorization() {
    let info = create_request_info(
        "DELETE",
        "http://r/v2/a/manifests/d",
        vec![
            ("Accept".to_string(), "*/*".to_string()),
            ("AUTHORIZATION".to_string(), "Basic dXNlcjpwYXNz".to_string()),
            ("authorization".to_string(), "Bearer tok".to_string()),
            ("Authorization".to_string(), "Digest x".to_string()),
        ],
    );
    assert_eq!(info.method, "DELETE");
    assert_eq!(info.url, "http://r/v2/a/manifests/d");
    assert_eq!(info.headers.len(), 4);
    assert_eq!(info.status_code, None);
    assert_eq!(info.response_headers, None);
    assert_eq!(info.response_body, None);
    assert_eq!(
        info.curl_command,
        "curl -X DELETE -H 'Accept: */*' -H 'AUTHORIZATION: Basic ***' -H 'authorization: Bearer ***' -H 'Authorization: ***' 'http://r/v2/a/manifests/d'"
    );
    assert_eq!(generate_curl_command_from_info(&info), info.curl_command);
    let get = ApiRequestInfo {
        method: "GET".to_string(),
        url: "http://r/v2/".to_string(),
        headers: vec![],
        status_code: Some(200),
        response_headers: None,
        response_body: None,
        curl_command: String::new(),
    };
    assert_eq!(generate_curl_command_from_info(&get), "curl 'http://r/v2/'");
}

#[test]
fn export_holds_no_secret() {
    let registries = vec![
        RegistryConfig::with_id("1".to_string(), "hub".to_string(), "https://r".to_string(), basic()),
        RegistryConfig::with_id("2".to_string(), "local".to_string(), "http://l".to_string(), AuthConfig::Anonymous),
    ];
    let text = export_registries(&registries);
    assert_eq!(
        text,
        "[\n  {\n    \"id\": \"1\",\n    \"name\": \"hub\",\n    \"url\": \"https://r\",\n    \"auth_type\": \"basic:user\"\n  },\n  {\n    \"id\": \"2\",\n    \"name\": \"local\",\n    \"url\": \"http://l\",\n    \"auth_type\": \"anonymous\"\n  }\n]"
    );
    assert!(!text.contains("hunter2"));
    assert!(!contains_credentials(&text));
    assert_eq!(export_registries(&[]), "[]");
}

#[test]
fn exported_configuration_names_the_kind_of_credentials() {
    let tls = AuthConfig::TlsCert { cert_path: "c".to_string(), key_path: "k".to_string() };
    let bearer = AuthConfig::BearerToken { token: "t".to_string(), encrypted_token: String::new() };
    let kinds: Vec<String> = [AuthConfig::Anonymous, basic(), bearer, tls]
        .into_iter()
        .map(|auth| to_exported(&RegistryConfig::with_id("i".to_string(), "n".to_string(), "u".to_string(), auth)).auth_type)
        .collect();
    assert_eq!(kinds, strings(&["anonymous", "basic:user", "bearer", "tls"]));
}

#[test]
fn import_gives_configurations_without_secrets() {
    let registries = vec![
        RegistryConfig::with_id("1".to_string(), "hub".to_string(), "https://r".to_string(), basic()),
        RegistryConfig::with_id(
            "2".to_string(),
            "t".to_string(),
            "http://t".to_string(),
            AuthConfig::BearerToken { token: "tok".to_string(), encrypted_token: String::new() },
        ),
    ];
    let imported = import_registries(&export_registries(&registries)).unwrap();
    assert_eq!(imported.len(), 2);
    assert_eq!(imported[0].id, "1");
    assert_eq!(imported[0].name, "hub");
    assert_eq!(imported[0].url, "https://r");
    assert_eq!(
        imported[0].auth,
        AuthConfig::BasicAuth { username: "user".to_string(), password: String::new(), encrypted_password: String::new() }
    );
    assert_eq!(imported[1].auth, AuthConfig::BearerToken { token: String::new(), encrypted_token: String::new() });
    let again = from_exported(to_exported(&registries[0]));
    assert_eq!(again, imported[0]);
}

#[test]
fn import_refuses_what_is_no_export() {
    let err = import_registries("nonsense").unwrap_err();
    assert!(err.starts_with("Invalid JSON: "));
    assert_eq!(
        import_registries("{}"),
        Err("Invalid JSON: data does not have the shape of an exported registry list".to_string())
    );
    assert!(import_registries("[{\"id\":\"1\",\"name\":\"n\",\"url\":\"u\"}]").is_err());
    assert_eq!(import_registries("[]"), Ok(vec![]));
}

#[test]
fn auth_type_names_are_read_back() {
    assert_eq!(parse_auth_type("anonymous"), AuthConfig::Anonymous);
    assert_eq!(
        parse_auth_type("basic:alice"),
        AuthConfig::BasicAuth { username: "alice".to_string(), password: String::new(), encrypted_password: String::new() }
    );
    assert_eq!(
        parse_auth_type("basic:"),
        AuthConfig::BasicAuth { username: String::new(), password: String::new(), encrypted_password: String::new() }
    );
    assert_eq!(parse_auth_type("bearer"), AuthConfig::BearerToken { token: String::new(), encrypted_token: String::new() });
    assert_eq!(parse_auth_type("tls"), AuthConfig::TlsCert { cert_path: String::new(), key_path: String::new() });
    assert_eq!(parse_auth_type("kerberos"), AuthConfig::Anonymous);
    assert_eq!(parse_auth_type("basic"), AuthConfig::Anonymous);
    assert_eq!(parse_auth_type(""), AuthConfig::Anonymous);
}

#[test]
fn signs_of_credentials_are_found() {
    assert!(contains_credentials("{\"Password\": \"x\"}"));
    assert!(contains_credentials("{\"token\":\"x\"}"));
    assert!(contains_credentials("{\"h\":\"Bearer abc\"}"));
    assert!(contains_credentials("{\"h\":\"basic abc\"}"));
    assert!(!contains_credentials("{\"auth_type\": \"basic:user\"}"));
    assert!(!contains_credentials(""));
}

#[test]
fn tags_export_as_csv_and_json() {
    let tags = vec![
        TagInfo { name: "latest".to_string(), digest: "sha256:a".to_string(), size: 1234 },
        TagInfo { name: "3.19".to_string(), digest: "sha256:b".to_string(), size: 0 },
        TagInfo { name: "big".to_string(), digest: "sha256:c".to_string(), size: u64::MAX },
    ];
    let csv = export_tags_csv(&tags);
    assert_eq!(
        csv,
        "name,digest,size\nlatest,sha256:a,1234\n3.19,sha256:b,0\nbig,sha256:c,18446744073709551615\n"
    );
    assert_eq!(export_tags_csv(&[]), "name,digest,size\n");
    let json = export_tags_json(&tags[..1]);
    assert_eq!(json, "[\n  {\n    \"name\": \"latest\",\n    \"digest\": \"sha256:a\",\n    \"size\": 1234\n  }\n]");
    assert!(export_contains_all_tags(&csv, &tags));
    assert!(export_contains_all_tags(&json, &tags[..1]));
    assert!(!export_contains_all_tags(&json, &tags));
    assert!(export_contains_all_tags("", &[]));
}
