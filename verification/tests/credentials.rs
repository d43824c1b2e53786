use docker_registry_manager::auth::{
    can_make_header, decode_basic_auth, get_auth_header, get_auth_type, AuthType,
};
use docker_registry_manager::models::AuthConfig;

fn basic(username: &str, password: &str) -> AuthConfig {
    AuthConfig::BasicAuth {
        username: username.to_string(),
        password: password.to_string(),
        encrypted_password: String::new(),
    }
}

#[test]
fn anonymous_and_certificate_send_no_header() {
    assert_eq!(get_auth_header(&AuthConfig::Anonymous), None);
    let tls = AuthConfig::TlsCert { cert_path: "c.pem".to_string(), key_path: "k.pem".to_string() };
    assert_eq!(get_auth_header(&tls), None);
}

#[test]
fn basic_header_is_base64_of_joined_credentials() {
    assert_eq!(get_auth_header(&basic("user", "pass")), Some("Basic dXNlcjpwYXNz".to_string()));
    assert_eq!(get_auth_header(&basic("user", "pa:ss")), Some("Basic dXNlcjpwYTpzcw==".to_string()));
}

#[test]
fn basic_header_is_made_for_an_empty_password() {
    assert_eq!(get_auth_header(&basic("user", "")), Some("Basic dXNlcjo=".to_string()));
}

#[test]
fn bearer_header_carries_the_token_verbatim() {
    let auth = AuthConfig::BearerToken { token: "abc.def ghi".to_string(), encrypted_token: String::new() };
    assert_eq!(get_auth_header(&auth), Some("Bearer abc.def ghi".to_string()));
}

#[test]
fn basic_header_decodes_to_its_credentials() {
    for (u, p) in [("user", "pass"), ("user", "pa:ss:word"), ("", ""), ("u", ""), ("üser", "pässwörd:€")] {
        let auth = basic(u, p);
        assert!(can_make_header(&auth));
        let header = get_auth_header(&auth).unwrap();
        assert_eq!(decode_basic_auth(&header), Some((u.to_string(), p.to_string())));
    }
}

#[test]
fn decoding_splits_at_the_first_colon() {
    assert_eq!(
        decode_basic_auth("Basic YTpiOmM="),
        Some(("a".to_string(), "b:c".to_string()))
    );
}

#[test]
fn decoding_refuses_what_is_no_basic_header() {
    assert_eq!(decode_basic_auth("Bearer dXNlcjpwYXNz"), None);
    assert_eq!(decode_basic_auth("basic dXNlcjpwYXNz"), None);
    assert_eq!(decode_basic_auth("Basic !!!"), None);
    // base64 of "nocolon"
    assert_eq!(decode_basic_auth("Basic bm9jb2xvbg=="), None);
    // base64 of the bytes ff fe, which are no UTF-8
    assert_eq!(decode_basic_auth("Basic //4="), None);
    assert_eq!(decode_basic_auth(""), None);
}

#[test]
fn auth_type_names_the_variant() {
    assert_eq!(get_auth_type(&AuthConfig::Anonymous), AuthType::Anonymous);
    assert_eq!(get_auth_type(&basic("u", "p")), AuthType::Basic);
    let bearer = AuthConfig::BearerToken { token: "t".to_string(), encrypted_token: String::new() };
    assert_eq!(get_auth_type(&bearer), AuthType::Bearer);
    let tls = AuthConfig::TlsCert { cert_path: String::new(), key_path: String::new() };
    assert_eq!(get_auth_type(&tls), AuthType::TlsCert);
}
