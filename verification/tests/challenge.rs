use docker_registry_manager::auth::{parse_www_authenticate, ParamMap};

#[test]
fn blank_headers_hold_no_challenge() {
    assert!(parse_www_authenticate("").is_none());
    assert!(parse_www_authenticate("   ").is_none());
    assert!(parse_www_authenticate("\t \n").is_none());
}

#[test]
fn basic_challenge_with_quoted_realm() {
    let c = parse_www_authenticate("Basic realm=\"Registry\"").unwrap();
    assert_eq!(c.scheme, "Basic");
    assert_eq!(c.realm(), Some("Registry"));
    assert_eq!(c.service(), None);
    assert_eq!(c.scope(), None);
}

#[test]
fn bearer_challenge_with_three_parameters() {
    let c = parse_www_authenticate(
        "Bearer realm=\"https://auth.docker.io/token\",service=\"registry.docker.io\",scope=\"repository:library/alpine:pull\"",
    )
    .unwrap();
    assert_eq!(c.scheme, "Bearer");
    assert_eq!(c.realm(), Some("https://auth.docker.io/token"));
    assert_eq!(c.service(), Some("registry.docker.io"));
    assert_eq!(c.scope(), Some("repository:library/alpine:pull"));
}

#[test]
fn scheme_alone_has_no_parameters() {
    let c = parse_www_authenticate("  Negotiate  ").unwrap();
    assert_eq!(c.scheme, "Negotiate");
    assert_eq!(c.realm(), None);
    assert!(!c.params.contains_key("realm"));
}

#[test]
fn unquoted_values_end_at_the_comma_and_are_trimmed() {
    let c = parse_www_authenticate("Bearer realm=example , service = registry ,scope=pull").unwrap();
    assert_eq!(c.realm(), Some("example"));
    assert_eq!(c.service(), Some("registry"));
    assert_eq!(c.scope(), Some("pull"));
}

#[test]
fn quoted_values_keep_spaces_and_commas() {
    let c = parse_www_authenticate("Basic realm=\" My Registry, Inc. \", charset=\"UTF-8\"").unwrap();
    assert_eq!(c.realm(), Some(" My Registry, Inc. "));
    assert_eq!(c.params.get("charset").map(|s| s.as_str()), Some("UTF-8"));
}

#[test]
fn unknown_keys_are_kept() {
    let c = parse_www_authenticate("Bearer realm=\"r\", error=\"invalid_token\", rel=\"next\", other=next").unwrap();
    assert_eq!(c.params.get("error").map(|s| s.as_str()), Some("invalid_token"));
    assert_eq!(c.params.get("rel").map(|s| s.as_str()), Some("next"));
    assert_eq!(c.params.get("other").map(|s| s.as_str()), Some("next"));
}

#[test]
fn last_value_of_a_key_wins() {
    let c = parse_www_authenticate("Basic realm=\"first\", realm=\"second\"").unwrap();
    assert_eq!(c.realm(), Some("second"));
}

#[test]
fn pair_without_equals_sign_is_skipped() {
    let c = parse_www_authenticate("Basic realm=\"r\", junk").unwrap();
    assert_eq!(c.realm(), Some("r"));
    assert!(!c.params.contains_key("junk"));
    assert_eq!(c.scheme, "Basic");
}

#[test]
fn leading_pair_without_equals_sign_is_skipped() {
    let c = parse_www_authenticate("Bearer foo,realm=\"x\"").unwrap();
    assert_eq!(c.scheme, "Bearer");
    assert_eq!(c.realm(), Some("x"));
    assert!(!c.params.contains_key("foo"));
    assert!(!c.params.contains_key("foo,realm"));
}

#[test]
fn pairs_without_equals_sign_are_skipped_wherever_they_stand() {
    let c = parse_www_authenticate("Bearer a, realm=r , b c ,, service=\"s\", d,scope=p,e").unwrap();
    assert_eq!(c.realm(), Some("r"));
    assert_eq!(c.service(), Some("s"));
    assert_eq!(c.scope(), Some("p"));
    for skipped in ["a", "b c", "d", "e", "a, realm", "d,scope"] {
        assert!(!c.params.contains_key(skipped));
    }
    let c = parse_www_authenticate("Basic ,,realm=x").unwrap();
    assert_eq!(c.realm(), Some("x"));
    let c = parse_www_authenticate("Basic , ,").unwrap();
    assert_eq!(c.scheme, "Basic");
    assert_eq!(c.realm(), None);
}

#[test]
fn unterminated_quote_runs_to_the_end() {
    let c = parse_www_authenticate("Basic realm=\"open").unwrap();
    assert_eq!(c.realm(), Some("open"));
}

#[test]
fn empty_values_are_kept() {
    let c = parse_www_authenticate("Basic realm=, service=\"\"").unwrap();
    assert_eq!(c.realm(), Some(""));
    assert_eq!(c.service(), Some(""));
}

#[test]
fn param_map_replaces_the_value_of_a_key() {
    let mut m = ParamMap::new();
    assert!(m.get("a").is_none());
    m.insert("a".to_string(), "1".to_string());
    m.insert("b".to_string(), "2".to_string());
    m.insert("a".to_string(), "3".to_string());
    assert_eq!(m.get("a").map(|s| s.as_str()), Some("3"));
    assert_eq!(m.get("b").map(|s| s.as_str()), Some("2"));
    assert!(m.contains_key("b"));
    assert!(!m.contains_key("c"));
}
