use docker_registry_manager::api::{
    find_header_value, parse_link_header, ApiError, HttpMethod, HttpResponse, RegistryClient,
};
use docker_registry_manager::models::{AuthConfig, Manifest};

fn client() -> RegistryClient {
    RegistryClient::new("https://registry.example.com/".to_string(), AuthConfig::Anonymous).unwrap()
}

fn response(status: u16, headers: &[(&str, &str)], body: &str) -> Result<HttpResponse, String> {
    Ok(HttpResponse {
        status,
        headers: headers.iter().map(|(k, v)| (k.to_string(), v.to_string())).collect(),
        body: Ok(body.to_string()),
    })
}

fn unreadable(status: u16) -> Result<HttpResponse, String> {
    Ok(HttpResponse { status, headers: vec![], body: Err("connection reset".to_string()) })
}

#[test]
fn body_that_cannot_be_read_is_a_parse_error() {
    let c = client();
    let error = Err(ApiError::ParseError("connection reset".to_string()));
    assert_eq!(c.get_catalog(&unreadable(200)).map(|_| ()), error);
    assert_eq!(c.get_tags("r", &unreadable(200)).map(|_| ()), error);
    assert_eq!(c.get_manifest("r", "t", &unreadable(200)).map(|_| ()), error);
    // the status comes first, and operations that read no body do not mind
    assert_eq!(c.get_catalog(&unreadable(404)), Err(ApiError::NotFound("Failed to get catalog".to_string())));
    assert_eq!(c.ping(&unreadable(200)), Ok(()));
    assert_eq!(c.delete_manifest("d", &unreadable(202)), Ok(()));
    assert_eq!(c.head_blob("d", &unreadable(200)).map(|b| b.size), Ok(0));
}

const V2_BODY: &str = "{\"schemaVersion\":2,\"mediaType\":\"application/vnd.docker.distribution.manifest.v2+json\",\"config\":{\"mediaType\":\"application/vnd.docker.container.image.v1+json\",\"size\":7,\"digest\":\"sha256:c\"},\"layers\":[{\"mediaType\":\"l\",\"size\":10,\"digest\":\"sha256:a\"},{\"mediaType\":\"l\",\"size\":20,\"digest\":\"sha256:b\"}]}";

const OCI_BODY: &str = "{\"schemaVersion\":2,\"config\":{\"mediaType\":\"c\",\"size\":1,\"digest\":\"sha256:c\"},\"layers\":[{\"mediaType\":\"l\",\"size\":5,\"digest\":\"sha256:a\"}]}";

const V1_BODY: &str = "{\"schemaVersion\":1,\"name\":\"library/alpine\",\"tag\":\"latest\",\"architecture\":\"amd64\",\"fsLayers\":[{\"blobSum\":\"sha256:x\"},{\"blobSum\":\"sha256:y\"}],\"history\":[{\"v1Compatibility\":\"{}\"}]}";

#[test]
fn base_url_loses_one_trailing_slash() {
    assert_eq!(client().ping_request().url, "https://registry.example.com/v2/");
    let bare = RegistryClient::new("http://localhost:5000".to_string(), AuthConfig::Anonymous).unwrap();
    assert_eq!(bare.ping_request().url, "http://localhost:5000/v2/");
    let double = RegistryClient::new("http://localhost:5000//".to_string(), AuthConfig::Anonymous).unwrap();
    assert_eq!(double.ping_request().url, "http://localhost:5000//v2/");
}

#[test]
fn requests_name_method_and_path() {
    let c = client();
    let ping = c.ping_request();
    assert_eq!(ping.method, HttpMethod::Get);
    assert!(ping.headers.is_empty());
    assert_eq!(c.get_catalog_request(None).url, "https://registry.example.com/v2/_catalog");
    assert_eq!(
        c.get_catalog_request(Some("n=50&last=foo")).url,
        "https://registry.example.com/v2/_catalog?n=50&last=foo"
    );
    assert_eq!(c.get_tags_request("library/alpine").url, "https://registry.example.com/v2/library/alpine/tags/list");
    let manifest = c.get_manifest_request("library/alpine", "latest");
    assert_eq!(manifest.method, HttpMethod::Get);
    assert_eq!(manifest.url, "https://registry.example.com/v2/library/alpine/manifests/latest");
    assert_eq!(
        manifest.headers,
        vec![(
            "Accept".to_string(),
            "application/vnd.docker.distribution.manifest.v2+json, application/vnd.oci.image.manifest.v1+json, application/vnd.docker.distribution.manifest.v1+json".to_string()
        )]
    );
    let delete = c.delete_manifest_request("r", "sha256:d");
    assert_eq!(delete.method, HttpMethod::Delete);
    assert_eq!(delete.url, "https://registry.example.com/v2/r/manifests/sha256:d");
    let head = c.head_blob_request("r", "sha256:d");
    assert_eq!(head.method, HttpMethod::Head);
    assert_eq!(head.url, "https://registry.example.com/v2/r/blobs/sha256:d");
}

#[test]
fn requests_carry_the_credentials() {
    let auth = AuthConfig::BasicAuth {
        username: "user".to_string(),
        password: "pass".to_string(),
        encrypted_password: String::new(),
    };
    let c = RegistryClient::new("http://r".to_string(), auth).unwrap();
    assert_eq!(
        c.ping_request().headers,
        vec![("Authorization".to_string(), "Basic dXNlcjpwYXNz".to_string())]
    );
    let manifest = c.get_manifest_request("a", "b");
    assert_eq!(manifest.headers.len(), 2);
    assert_eq!(manifest.headers[0].0, "Authorization");
    assert_eq!(manifest.headers[1].0, "Accept");
    let bearer = AuthConfig::BearerToken { token: "tok".to_string(), encrypted_token: String::new() };
    let c = RegistryClient::new("http://r".to_string(), bearer).unwrap();
    assert_eq!(c.get_tags_request("x").headers, vec![("Authorization".to_string(), "Bearer tok".to_string())]);
}

#[test]
fn ping_succeeds_on_200_and_401() {
    let c = client();
    assert_eq!(c.ping(&response(200, &[], "")), Ok(()));
    assert_eq!(c.ping(&response(401, &[], "")), Ok(()));
    assert_eq!(c.ping(&response(403, &[], "")), Err(ApiError::Forbidden));
    assert_eq!(
        c.ping(&response(404, &[], "")),
        Err(ApiError::NotFound("Registry not available".to_string()))
    );
    assert_eq!(c.ping(&Err("connection refused".to_string())), Err(ApiError::NetworkError("connection refused".to_string())));
}

#[test]
fn status_maps_to_error() {
    assert_eq!(ApiError::from_status(401, "m".to_string()), ApiError::Unauthorized);
    assert_eq!(ApiError::from_status(403, "m".to_string()), ApiError::Forbidden);
    assert_eq!(ApiError::from_status(404, "m".to_string()), ApiError::NotFound("m".to_string()));
    assert_eq!(ApiError::from_status(429, "m".to_string()), ApiError::RateLimited(60));
    assert_eq!(ApiError::from_status(500, "m".to_string()), ApiError::ServerError("m".to_string()));
    assert_eq!(ApiError::from_status(599, "m".to_string()), ApiError::ServerError("m".to_string()));
    assert_eq!(ApiError::from_status(600, "m".to_string()), ApiError::NetworkError("m".to_string()));
    assert_eq!(ApiError::from_status(499, "m".to_string()), ApiError::NetworkError("m".to_string()));
    assert_eq!(ApiError::from_status(302, "m".to_string()), ApiError::NetworkError("m".to_string()));
    assert_eq!(ApiError::from_status(0, "m".to_string()), ApiError::NetworkError("m".to_string()));
}

#[test]
fn errors_describe_themselves() {
    assert_eq!(ApiError::NetworkError("x".to_string()).message(), "Network error: x");
    assert_eq!(ApiError::Unauthorized.message(), "Authentication required");
    assert_eq!(ApiError::Forbidden.message(), "Access forbidden");
    assert_eq!(ApiError::NotFound("x".to_string()).message(), "Resource not found: x");
    assert_eq!(ApiError::RateLimited(60).message(), "Rate limited, retry after 60 seconds");
    assert_eq!(ApiError::ServerError("x".to_string()).message(), "Server error: x");
    assert_eq!(ApiError::ParseError("x".to_string()).message(), "Parse error: x");
    assert_eq!(ApiError::InvalidUrl("x".to_string()).message(), "Invalid URL: x");
}

#[test]
fn every_operation_maps_401_404_and_429() {
    let c = client();
    let unauthorized = response(401, &[], "");
    assert_eq!(c.get_catalog(&unauthorized), Err(ApiError::Unauthorized));
    assert_eq!(c.get_tags("r", &unauthorized), Err(ApiError::Unauthorized));
    assert_eq!(c.get_manifest("r", "t", &unauthorized), Err(ApiError::Unauthorized));
    assert_eq!(c.delete_manifest("sha256:d", &unauthorized), Err(ApiError::Unauthorized));
    assert_eq!(c.head_blob("sha256:d", &unauthorized), Err(ApiError::Unauthorized));
    let missing = response(404, &[], "");
    assert_eq!(c.get_catalog(&missing), Err(ApiError::NotFound("Failed to get catalog".to_string())));
    assert_eq!(c.get_tags("r", &missing), Err(ApiError::NotFound("Failed to get tags for r".to_string())));
    assert_eq!(
        c.get_manifest("r", "t", &missing),
        Err(ApiError::NotFound("Failed to get manifest for r:t".to_string()))
    );
    assert_eq!(
        c.delete_manifest("sha256:d", &missing),
        Err(ApiError::NotFound("Failed to delete manifest sha256:d".to_string()))
    );
    assert_eq!(
        c.head_blob("sha256:d", &missing),
        Err(ApiError::NotFound("Failed to get blob sha256:d".to_string()))
    );
    let limited = response(429, &[("Retry-After", "5")], "");
    assert_eq!(c.get_catalog(&limited), Err(ApiError::RateLimited(60)));
    assert_eq!(c.get_tags("r", &limited), Err(ApiError::RateLimited(60)));
    assert_eq!(c.get_manifest("r", "t", &limited), Err(ApiError::RateLimited(60)));
    assert_eq!(c.delete_manifest("d", &limited), Err(ApiError::RateLimited(60)));
    assert_eq!(c.head_blob("d", &limited), Err(ApiError::RateLimited(60)));
    assert_eq!(c.ping(&limited), Err(ApiError::RateLimited(60)));
}

#[test]
fn transport_failure_is_a_network_error() {
    let c = client();
    let failed: Result<HttpResponse, String> = Err("dns".to_string());
    assert_eq!(c.get_catalog(&failed), Err(ApiError::NetworkError("dns".to_string())));
    assert_eq!(c.get_tags("r", &failed), Err(ApiError::NetworkError("dns".to_string())));
    assert_eq!(c.get_manifest("r", "t", &failed), Err(ApiError::NetworkError("dns".to_string())));
    assert_eq!(c.delete_manifest("d", &failed), Err(ApiError::NetworkError("dns".to_string())));
    assert_eq!(c.head_blob("d", &failed), Err(ApiError::NetworkError("dns".to_string())));
}

#[test]
fn catalog_with_link_header_names_the_next_page() {
    let c = client();
    let r = c
        .get_catalog(&response(
            200,
            &[("link", "</v2/_catalog?n=50&last=foo>; rel=\"next\"")],
            "{\"repositories\":[\"a\",\"b/c\"]}",
        ))
        .unwrap();
    assert_eq!(r.repositories, vec!["a".to_string(), "b/c".to_string()]);
    assert_eq!(r.next_page, Some("n=50&last=foo".to_string()));
}

#[test]
fn catalog_without_link_header_has_no_next_page() {
    let c = client();
    let r = c.get_catalog(&response(200, &[("Content-Type", "application/json")], "{\"repositories\":[]}")).unwrap();
    assert!(r.repositories.is_empty());
    assert_eq!(r.next_page, None);
}

#[test]
fn catalog_body_must_be_a_catalog() {
    let c = client();
    assert!(matches!(c.get_catalog(&response(200, &[], "not json")), Err(ApiError::ParseError(_))));
    assert!(matches!(c.get_catalog(&response(200, &[], "{\"repos\":[]}")), Err(ApiError::ParseError(_))));
    assert!(matches!(c.get_catalog(&response(200, &[], "{\"repositories\":[1]}")), Err(ApiError::ParseError(_))));
    assert_eq!(
        c.get_catalog(&response(201, &[], "{\"repositories\":[]}")),
        Err(ApiError::NetworkError("Failed to get catalog".to_string()))
    );
}

#[test]
fn link_header_gives_the_query_of_the_next_page() {
    assert_eq!(
        parse_link_header("</v2/_catalog?n=50&last=foo>; rel=\"next\""),
        Some("n=50&last=foo".to_string())
    );
    assert_eq!(parse_link_header("</v2/_catalog?n=100&last=repo>; rel=next"), Some("n=100&last=repo".to_string()));
    assert_eq!(parse_link_header("</v2/_catalog?n=1>; rel=\"prev\""), None);
    assert_eq!(
        parse_link_header("</v2/_catalog?n=1>; rel=\"prev\", </v2/_catalog?n=2>; rel=\"next\""),
        Some("n=2".to_string())
    );
    assert_eq!(parse_link_header("</v2/_catalog>; rel=\"next\""), None);
    assert_eq!(parse_link_header(""), None);
    assert_eq!(parse_link_header("  <<x?a=1?b=2>> ; rel=\"next\""), Some("a=1".to_string()));
}

#[test]
fn tags_are_read_with_and_without_a_list() {
    let c = client();
    let r = c.get_tags("alpine", &response(200, &[], "{\"name\":\"alpine\",\"tags\":[\"latest\",\"3.19\"]}")).unwrap();
    assert_eq!(r.name, "alpine");
    assert_eq!(r.tags, Some(vec!["latest".to_string(), "3.19".to_string()]));
    let r = c.get_tags("alpine", &response(200, &[], "{\"name\":\"alpine\",\"tags\":null}")).unwrap();
    assert_eq!(r.tags, None);
    let r = c.get_tags("alpine", &response(200, &[], "{\"name\":\"alpine\"}")).unwrap();
    assert_eq!(r.tags, None);
    assert!(matches!(c.get_tags("alpine", &response(200, &[], "{\"tags\":[]}")), Err(ApiError::ParseError(_))));
    assert_eq!(
        c.get_tags("alpine", &response(500, &[], "")),
        Err(ApiError::ServerError("Failed to get tags for alpine".to_string()))
    );
}

#[test]
fn manifest_of_schema_version_2_sums_its_layers() {
    let c = client();
    let (m, digest) = c
        .get_manifest("r", "t", &response(200, &[("Docker-Content-Digest", "sha256:abc")], V2_BODY))
        .unwrap();
    assert_eq!(digest, "sha256:abc");
    assert!(matches!(m, Manifest::V2(_)));
    assert_eq!(m.total_size(), 30);
    assert_eq!(m.checked_total_size(), Some(30));
    assert_eq!(m.layers().len(), 2);
    assert_eq!(m.layers()[1].digest, "sha256:b");
    assert_eq!(m.media_type(), "application/vnd.docker.distribution.manifest.v2+json");
}

#[test]
fn manifest_without_media_type_is_oci() {
    let c = client();
    let (m, digest) = c.get_manifest("r", "t", &response(200, &[], OCI_BODY)).unwrap();
    assert_eq!(digest, "");
    assert!(matches!(m, Manifest::OCI(_)));
    assert_eq!(m.media_type(), "application/vnd.oci.image.manifest.v1+json");
    assert_eq!(m.total_size(), 5);
}

#[test]
fn manifest_of_schema_version_1_has_no_sized_layers() {
    let c = client();
    let (m, _) = c.get_manifest("r", "t", &response(200, &[], V1_BODY)).unwrap();
    match &m {
        Manifest::V1(v1) => {
            assert_eq!(v1.name, "library/alpine");
            assert_eq!(v1.tag, "latest");
            assert_eq!(v1.architecture, "amd64");
            assert_eq!(v1.fs_layers.len(), 2);
            assert_eq!(v1.fs_layers[1].blob_sum, "sha256:y");
            assert_eq!(v1.history.len(), 1);
        }
        _ => panic!("not a schema version 1 manifest"),
    }
    assert!(m.layers().is_empty());
    assert_eq!(m.total_size(), 0);
    assert_eq!(m.media_type(), "application/vnd.docker.distribution.manifest.v1+json");
}

#[test]
fn manifest_of_schema_version_1_may_leave_out_layers_and_history() {
    let c = client();
    let body = "{\"schemaVersion\":1,\"name\":\"n\",\"tag\":\"t\",\"architecture\":\"arm64\"}";
    let (m, _) = c.get_manifest("r", "t", &response(200, &[], body)).unwrap();
    match m {
        Manifest::V1(v1) => {
            assert!(v1.fs_layers.is_empty());
            assert!(v1.history.is_empty());
        }
        _ => panic!("not a schema version 1 manifest"),
    }
}

#[test]
fn body_of_no_manifest_shape_is_a_parse_error() {
    let c = client();
    assert_eq!(
        c.get_manifest("r", "t", &response(200, &[], "{\"schemaVersion\":2}")),
        Err(ApiError::ParseError("missing or invalid field `name`".to_string()))
    );
    assert_eq!(
        c.get_manifest("r", "t", &response(200, &[], "[]")),
        Err(ApiError::ParseError("missing or invalid field `schemaVersion`".to_string()))
    );
    let body = "{\"schemaVersion\":1,\"name\":\"n\",\"tag\":\"t\",\"architecture\":\"a\",\"history\":[{}]}";
    assert_eq!(
        c.get_manifest("r", "t", &response(200, &[], body)),
        Err(ApiError::ParseError("invalid field `history`".to_string()))
    );
    assert!(matches!(c.get_manifest("r", "t", &response(200, &[], "{")), Err(ApiError::ParseError(_))));
    // a size that is no integer makes the descriptor unreadable
    let body = "{\"schemaVersion\":2,\"config\":{\"mediaType\":\"c\",\"size\":1.5,\"digest\":\"d\"},\"layers\":[]}";
    assert!(matches!(c.get_manifest("r", "t", &response(200, &[], body)), Err(ApiError::ParseError(_))));
    let body = "{\"schemaVersion\":2,\"config\":{\"mediaType\":\"c\",\"size\":-1,\"digest\":\"d\"},\"layers\":[]}";
    assert!(matches!(c.get_manifest("r", "t", &response(200, &[], body)), Err(ApiError::ParseError(_))));
}

#[test]
fn delete_succeeds_on_200_and_202() {
    let c = client();
    assert_eq!(c.delete_manifest("d", &response(200, &[], "")), Ok(()));
    assert_eq!(c.delete_manifest("d", &response(202, &[], "")), Ok(()));
    assert_eq!(
        c.delete_manifest("d", &response(204, &[], "")),
        Err(ApiError::NetworkError("Failed to delete manifest d".to_string()))
    );
    assert_eq!(c.delete_manifest("d", &response(403, &[], "")), Err(ApiError::Forbidden));
}

#[test]
fn blob_info_comes_from_the_headers() {
    let c = client();
    let r = c
        .head_blob("sha256:d", &response(200, &[("content-length", "1234"), ("Content-Type", "application/octet-stream")], ""))
        .unwrap();
    assert_eq!(r.digest, "sha256:d");
    assert_eq!(r.size, 1234);
    assert_eq!(r.media_type, Some("application/octet-stream".to_string()));
    let r = c.head_blob("sha256:d", &response(200, &[("Content-Length", "many")], "")).unwrap();
    assert_eq!(r.size, 0);
    assert_eq!(r.media_type, None);
    let r = c.head_blob("sha256:d", &response(200, &[("Content-Length", "18446744073709551616")], "")).unwrap();
    assert_eq!(r.size, 0);
    let r = c.head_blob("sha256:d", &response(200, &[("Content-Length", "18446744073709551615")], "")).unwrap();
    assert_eq!(r.size, u64::MAX);
    let r = c.head_blob("sha256:d", &response(200, &[], "")).unwrap();
    assert_eq!(r.size, 0);
}

#[test]
fn headers_are_found_whatever_their_case() {
    let headers = vec![
        ("Content-Type".to_string(), "a".to_string()),
        ("LINK".to_string(), "first".to_string()),
        ("link".to_string(), "second".to_string()),
    ];
    assert_eq!(find_header_value(&headers, "Link"), Some("first"));
    assert_eq!(find_header_value(&headers, "content-type"), Some("a"));
    assert_eq!(find_header_value(&headers, "Content-Length"), None);
}
