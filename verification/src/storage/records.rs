//! The stored form of the three records: the registry list, the theme and
//! the cache policy, each as JSON.

use crate::json::{
    array_value, find_member, item_models, member, member_models, object_value, push_member,
    text_member, text_value, u64_member, u64_value, JsonModel, JsonNumber, JsonValue,
};
use crate::models::cache::CacheConfig;
use crate::models::error::Theme;
use crate::models::registry::{
    registry_views, AuthConfig, AuthConfigView, ConnectionStatus, ConnectionStatusView,
    RegistryConfig, RegistryConfigView,
};
use crate::text::same_text;
use vstd::prelude::*;

verus! {

/// A member that holds a text.
pub open spec fn text_entry(key: Seq<char>, value: Seq<char>) -> (Seq<char>, JsonModel) {
    (key, JsonModel::Text(value))
}

/// A member that holds a number.
pub open spec fn number_entry(key: Seq<char>, value: u64) -> (Seq<char>, JsonModel) {
    (key, JsonModel::Number(JsonNumber::Unsigned(value)))
}

/// `members` with a text member added at the end, unless the text is empty.
pub open spec fn with_secret(
    members: Seq<(Seq<char>, JsonModel)>,
    key: Seq<char>,
    value: Seq<char>,
) -> Seq<(Seq<char>, JsonModel)> {
    if value.len() > 0 {
        members.push(text_entry(key, value))
    } else {
        members
    }
}

/// The stored form of an authentication configuration: an object with the
/// variant's name under `type` and the variant's fields beside it. An
/// encrypted secret that is empty is left out.
pub open spec fn auth_json(auth: AuthConfigView) -> JsonModel {
    match auth {
        AuthConfigView::Anonymous => JsonModel::Object(seq![text_entry("type"@, "Anonymous"@)]),
        AuthConfigView::BasicAuth { username, password, encrypted_password } => JsonModel::Object(
            with_secret(
                seq![
                    text_entry("type"@, "BasicAuth"@),
                    text_entry("username"@, username),
                    text_entry("password"@, password),
                ],
                "encrypted_password"@,
                encrypted_password,
            ),
        ),
        AuthConfigView::BearerToken { token, encrypted_token } => JsonModel::Object(
            with_secret(
                seq![text_entry("type"@, "BearerToken"@), text_entry("token"@, token)],
                "encrypted_token"@,
                encrypted_token,
            ),
        ),
        AuthConfigView::TlsCert { cert_path, key_path } => JsonModel::Object(
            seq![
                text_entry("type"@, "TlsCert"@),
                text_entry("cert_path"@, cert_path),
                text_entry("key_path"@, key_path),
            ],
        ),
    }
}

/// The stored form of a registry configuration: `id`, `name`, `url` and
/// `auth`. The connection status is not stored.
pub open spec fn registry_json(config: RegistryConfigView) -> JsonModel {
    JsonModel::Object(
        seq![
            text_entry("id"@, config.id),
            text_entry("name"@, config.name),
            text_entry("url"@, config.url),
            ("auth"@, auth_json(config.auth)),
        ],
    )
}

/// The stored form of the registry list: an array, in the order of the list.
pub open spec fn registries_json(configs: Seq<RegistryConfigView>) -> JsonModel {
    JsonModel::Array(Seq::new(configs.len(), |i: int| registry_json(configs[i])))
}

/// A text member that may be left out, and is then empty: none where it is
/// no text.
pub open spec fn text_member_or_empty(value: JsonModel, key: Seq<char>) -> Option<Seq<char>> {
    match member(value, key) {
        None => Some(Seq::empty()),
        Some(JsonModel::Text(s)) => Some(s),
        Some(_) => None,
    }
}

/// The Basic configuration that a value holds.
pub open spec fn basic_auth_of(value: JsonModel) -> Option<AuthConfigView> {
    match (
        text_member(value, "username"@),
        text_member_or_empty(value, "password"@),
        text_member_or_empty(value, "encrypted_password"@),
    ) {
        (Some(username), Some(password), Some(encrypted_password)) => Some(
            AuthConfigView::BasicAuth { username, password, encrypted_password },
        ),
        _ => None,
    }
}

/// The bearer configuration that a value holds.
pub open spec fn bearer_auth_of(value: JsonModel) -> Option<AuthConfigView> {
    match (
        text_member_or_empty(value, "token"@),
        text_member_or_empty(value, "encrypted_token"@),
    ) {
        (Some(token), Some(encrypted_token)) => Some(
            AuthConfigView::BearerToken { token, encrypted_token },
        ),
        _ => None,
    }
}

/// The certificate configuration that a value holds.
pub open spec fn tls_auth_of(value: JsonModel) -> Option<AuthConfigView> {
    match (text_member(value, "cert_path"@), text_member(value, "key_path"@)) {
        (Some(cert_path), Some(key_path)) => Some(AuthConfigView::TlsCert { cert_path, key_path }),
        _ => None,
    }
}

/// The authentication configuration that a value holds: the variant that
/// `type` names, with its fields. A plain or encrypted secret may be left
/// out, and is then empty.
pub open spec fn auth_of(value: JsonModel) -> Option<AuthConfigView> {
    match text_member(value, "type"@) {
        Some(kind) => if kind == "Anonymous"@ {
            Some(AuthConfigView::Anonymous)
        } else if kind == "BasicAuth"@ {
            basic_auth_of(value)
        } else if kind == "BearerToken"@ {
            bearer_auth_of(value)
        } else if kind == "TlsCert"@ {
            tls_auth_of(value)
        } else {
            None
        },
        None => None,
    }
}

/// The authentication configuration under `key`.
pub open spec fn auth_member(value: JsonModel, key: Seq<char>) -> Option<AuthConfigView> {
    match member(value, key) {
        Some(inner) => auth_of(inner),
        None => None,
    }
}

/// The registry configuration that a value holds, with no known status.
pub open spec fn registry_of(value: JsonModel) -> Option<RegistryConfigView> {
    match (
        text_member(value, "id"@),
        text_member(value, "name"@),
        text_member(value, "url"@),
        auth_member(value, "auth"@),
    ) {
        (Some(id), Some(name), Some(url), Some(auth)) => Some(
            RegistryConfigView { id, name, url, auth, status: ConnectionStatusView::Unknown },
        ),
        _ => None,
    }
}

/// The registry list that a value holds: an array of registry
/// configurations.
pub open spec fn registries_of(value: JsonModel) -> Option<Seq<RegistryConfigView>> {
    match value {
        JsonModel::Array(items) => if forall|i: int|
            0 <= i < items.len() ==> registry_of(#[trigger] items[i]) is Some {
            Some(Seq::new(items.len(), |i: int| registry_of(items[i])->0))
        } else {
            None
        },
        _ => None,
    }
}

/// The name of a theme.
pub open spec fn theme_name(theme: Theme) -> Seq<char> {
    match theme {
        Theme::System => "System"@,
        Theme::Light => "Light"@,
        Theme::Dark => "Dark"@,
    }
}

/// The stored form of a theme: its name.
pub open spec fn theme_json(theme: Theme) -> JsonModel {
    JsonModel::Text(theme_name(theme))
}

/// The theme that a value holds.
pub open spec fn theme_of(value: JsonModel) -> Option<Theme> {
    match value {
        JsonModel::Text(name) => if name == "System"@ {
            Some(Theme::System)
        } else if name == "Light"@ {
            Some(Theme::Light)
        } else if name == "Dark"@ {
            Some(Theme::Dark)
        } else {
            None
        },
        _ => None,
    }
}

/// The stored form of the cache policy.
pub open spec fn cache_config_json(config: CacheConfig) -> JsonModel {
    JsonModel::Object(
        seq![
            number_entry("refresh_interval"@, config.refresh_interval),
            number_entry("max_age"@, config.max_age),
        ],
    )
}

/// The cache policy that a value holds.
pub open spec fn cache_config_of(value: JsonModel) -> Option<CacheConfig> {
    match (u64_member(value, "refresh_interval"@), u64_member(value, "max_age"@)) {
        (Some(refresh_interval), Some(max_age)) => Some(CacheConfig { refresh_interval, max_age }),
        _ => None,
    }
}

/// A list of members without any member.
pub fn no_members() -> (out: Vec<(String, JsonValue)>)
    ensures
        member_models(out@) == Seq::<(Seq<char>, JsonModel)>::empty(),
{
    let out: Vec<(String, JsonValue)> = Vec::new();
    assert(member_models(out@) =~= Seq::<(Seq<char>, JsonModel)>::empty());
    out
}

/// Writes an authentication configuration in its stored form.
pub fn encode_auth(auth: &AuthConfig) -> (out: JsonValue)
    ensures
        out@ == auth_json(auth@),
{
    let mut members = no_members();
    match auth {
        AuthConfig::Anonymous => {
            push_member(&mut members, "type", text_value("Anonymous"));
            assert(member_models(members@) =~= seq![text_entry("type"@, "Anonymous"@)]);
        },
        AuthConfig::BasicAuth { username, password, encrypted_password } => {
            push_member(&mut members, "type", text_value("BasicAuth"));
            push_member(&mut members, "username", text_value(username.as_str()));
            push_member(&mut members, "password", text_value(password.as_str()));
            let ghost base = seq![
                text_entry("type"@, "BasicAuth"@),
                text_entry("username"@, username@),
                text_entry("password"@, password@),
            ];
            assert(member_models(members@) =~= base);
            if !encrypted_password.as_str().is_empty() {
                push_member(
                    &mut members,
                    "encrypted_password",
                    text_value(encrypted_password.as_str()),
                );
            }
        },
        AuthConfig::BearerToken { token, encrypted_token } => {
            push_member(&mut members, "type", text_value("BearerToken"));
            push_member(&mut members, "token", text_value(token.as_str()));
            let ghost base = seq![text_entry("type"@, "BearerToken"@), text_entry("token"@, token@)];
            assert(member_models(members@) =~= base);
            if !encrypted_token.as_str().is_empty() {
                push_member(&mut members, "encrypted_token", text_value(encrypted_token.as_str()));
            }
        },
        AuthConfig::TlsCert { cert_path, key_path } => {
            push_member(&mut members, "type", text_value("TlsCert"));
            push_member(&mut members, "cert_path", text_value(cert_path.as_str()));
            push_member(&mut members, "key_path", text_value(key_path.as_str()));
            assert(member_models(members@) =~= seq![
                text_entry("type"@, "TlsCert"@),
                text_entry("cert_path"@, cert_path@),
                text_entry("key_path"@, key_path@),
            ]);
        },
    }
    object_value(members)
}

/// Writes a registry configuration in its stored form.
pub fn encode_registry(config: &RegistryConfig) -> (out: JsonValue)
    ensures
        out@ == registry_json(config@),
{
    let mut members = no_members();
    push_member(&mut members, "id", text_value(config.id.as_str()));
    push_member(&mut members, "name", text_value(config.name.as_str()));
    push_member(&mut members, "url", text_value(config.url.as_str()));
    push_member(&mut members, "auth", encode_auth(&config.auth));
    assert(member_models(members@) =~= seq![
        text_entry("id"@, config@.id),
        text_entry("name"@, config@.name),
        text_entry("url"@, config@.url),
        ("auth"@, auth_json(config@.auth)),
    ]);
    object_value(members)
}

/// Writes a registry list in its stored form.
pub fn encode_registries(configs: &Vec<RegistryConfig>) -> (out: JsonValue)
    ensures
        out@ == registries_json(registry_views(configs@)),
{
    let mut items: Vec<JsonValue> = Vec::new();
    let mut i: usize = 0;
    while i < configs.len()
        invariant
            0 <= i <= configs@.len(),
            items@.len() == i,
            forall|j: int| 0 <= j < i ==> (#[trigger] items@[j])@ == registry_json(configs@[j]@),
        decreases configs@.len() - i,
    {
        items.push(encode_registry(&configs[i]));
        i += 1;
    }
    let out = array_value(items);
    assert(item_models(items@) =~= Seq::new(
        configs@.len(),
        |i: int| registry_json(registry_views(configs@)[i]),
    ));
    out
}

/// Reads a text member that may be left out.
fn decode_text_or_empty(value: &JsonValue, key: &str) -> (r: Option<String>)
    ensures
        crate::text::opt_text(r) == text_member_or_empty(value@, key@),
{
    match value.get(key) {
        None => Some(String::new()),
        Some(found) => match found.as_text() {
            Some(s) => Some(s.clone()),
            None => None,
        },
    }
}

/// The view of a configuration that may be absent.
pub open spec fn opt_auth(o: Option<AuthConfig>) -> Option<AuthConfigView> {
    match o {
        Some(auth) => Some(auth@),
        None => None,
    }
}

/// The view of a configuration that may be absent.
pub open spec fn opt_registry(o: Option<RegistryConfig>) -> Option<RegistryConfigView> {
    match o {
        Some(config) => Some(config@),
        None => None,
    }
}

/// Reads an authentication configuration from its stored form.
pub fn decode_auth(value: &JsonValue) -> (r: Option<AuthConfig>)
    ensures
        opt_auth(r) == auth_of(value@),
{
    let kind = match value.text_member("type") {
        Some(kind) => kind,
        None => {
            return None;
        },
    };
    if same_text(kind.as_str(), "Anonymous") {
        Some(AuthConfig::Anonymous)
    } else if same_text(kind.as_str(), "BasicAuth") {
        let username = value.text_member("username");
        let password = decode_text_or_empty(value, "password");
        let encrypted_password = decode_text_or_empty(value, "encrypted_password");
        match (username, password, encrypted_password) {
            (Some(username), Some(password), Some(encrypted_password)) => Some(
                AuthConfig::BasicAuth { username, password, encrypted_password },
            ),
            _ => None,
        }
    } else if same_text(kind.as_str(), "BearerToken") {
        let token = decode_text_or_empty(value, "token");
        let encrypted_token = decode_text_or_empty(value, "encrypted_token");
        match (token, encrypted_token) {
            (Some(token), Some(encrypted_token)) => Some(
                AuthConfig::BearerToken { token, encrypted_token },
            ),
            _ => None,
        }
    } else if same_text(kind.as_str(), "TlsCert") {
        let cert_path = value.text_member("cert_path");
        let key_path = value.text_member("key_path");
        match (cert_path, key_path) {
            (Some(cert_path), Some(key_path)) => Some(AuthConfig::TlsCert { cert_path, key_path }),
            _ => None,
        }
    } else {
        None
    }
}

/// Reads a registry configuration from its stored form.
pub fn decode_registry(value: &JsonValue) -> (r: Option<RegistryConfig>)
    ensures
        opt_registry(r) == registry_of(value@),
{
    let id = value.text_member("id");
    let name = value.text_member("name");
    let url = value.text_member("url");
    let auth = match value.get("auth") {
        Some(inner) => decode_auth(inner),
        None => None,
    };
    match (id, name, url, auth) {
        (Some(id), Some(name), Some(url), Some(auth)) => Some(
            RegistryConfig { id, name, url, auth, status: ConnectionStatus::Unknown },
        ),
        _ => None,
    }
}

/// Reads a registry list from its stored form.
pub fn decode_registries(value: &JsonValue) -> (r: Option<Vec<RegistryConfig>>)
    ensures
        match r {
            Some(configs) => registries_of(value@) == Some(registry_views(configs@)),
            None => registries_of(value@) is None,
        },
{
    let items = match value.as_array() {
        Some(items) => items,
        None => {
            return None;
        },
    };
    let ghost models = item_models(items@);
    let mut out: Vec<RegistryConfig> = Vec::new();
    let mut i: usize = 0;
    while i < items.len()
        invariant
            0 <= i <= items@.len(),
            models == item_models(items@),
            value@ == JsonModel::Array(models),
            out@.len() == i,
            forall|j: int| 0 <= j < i ==> registry_of(#[trigger] models[j]) == Some(out@[j]@),
        decreases items@.len() - i,
    {
        match decode_registry(&items[i]) {
            Some(config) => {
                out.push(config);
            },
            None => {
                assert(registry_of(models[i as int]) is None);
                return None;
            },
        }
        i += 1;
    }
    assert(registries_of(value@)->0 =~= registry_views(out@));
    Some(out)
}

/// Writes a theme in its stored form.
pub fn encode_theme(theme: Theme) -> (out: JsonValue)
    ensures
        out@ == theme_json(theme),
{
    match theme {
        Theme::System => text_value("System"),
        Theme::Light => text_value("Light"),
        Theme::Dark => text_value("Dark"),
    }
}

/// Reads a theme from its stored form.
pub fn decode_theme(value: &JsonValue) -> (r: Option<Theme>)
    ensures
        r == theme_of(value@),
{
    match value.as_text() {
        Some(name) => {
            if same_text(name.as_str(), "System") {
                Some(Theme::System)
            } else if same_text(name.as_str(), "Light") {
                Some(Theme::Light)
            } else if same_text(name.as_str(), "Dark") {
                Some(Theme::Dark)
            } else {
                None
            }
        },
        None => None,
    }
}

/// Writes the cache policy in its stored form.
pub fn encode_cache_config(config: &CacheConfig) -> (out: JsonValue)
    ensures
        out@ == cache_config_json(*config),
{
    let mut members = no_members();
    push_member(&mut members, "refresh_interval", u64_value(config.refresh_interval));
    push_member(&mut members, "max_age", u64_value(config.max_age));
    assert(member_models(members@) =~= seq![
        number_entry("refresh_interval"@, config.refresh_interval),
        number_entry("max_age"@, config.max_age),
    ]);
    object_value(members)
}

/// Reads the cache policy from its stored form.
pub fn decode_cache_config(value: &JsonValue) -> (r: Option<CacheConfig>)
    ensures
        r == cache_config_of(value@),
{
    match (value.u64_member("refresh_interval"), value.u64_member("max_age")) {
        (Some(refresh_interval), Some(max_age)) => Some(CacheConfig { refresh_interval, max_age }),
        _ => None,
    }
}

/// A configuration with its status forgotten.
pub open spec fn without_status(config: RegistryConfigView) -> RegistryConfigView {
    RegistryConfigView { status: ConnectionStatusView::Unknown, ..config }
}

/// What the names of the members are: no two of them are the same text.
proof fn lemma_member_names()
    ensures
        "type"@ != "username"@,
        "type"@ != "password"@,
        "type"@ != "encrypted_password"@,
        "type"@ != "token"@,
        "type"@ != "encrypted_token"@,
        "type"@ != "cert_path"@,
        "type"@ != "key_path"@,
        "username"@ != "password"@,
        "username"@ != "encrypted_password"@,
        "password"@ != "encrypted_password"@,
        "token"@ != "encrypted_token"@,
        "cert_path"@ != "key_path"@,
        "id"@ != "name"@,
        "id"@ != "url"@,
        "id"@ != "auth"@,
        "name"@ != "url"@,
        "name"@ != "auth"@,
        "url"@ != "auth"@,
        "refresh_interval"@ != "max_age"@,
        "Anonymous"@ != "BasicAuth"@,
        "Anonymous"@ != "BearerToken"@,
        "Anonymous"@ != "TlsCert"@,
        "BasicAuth"@ != "BearerToken"@,
        "BasicAuth"@ != "TlsCert"@,
        "BearerToken"@ != "TlsCert"@,
        "System"@ != "Light"@,
        "System"@ != "Dark"@,
        "Light"@ != "Dark"@,
{
    reveal_strlit("type");
    reveal_strlit("username");
    reveal_strlit("password");
    reveal_strlit("encrypted_password");
    reveal_strlit("token");
    reveal_strlit("encrypted_token");
    reveal_strlit("cert_path");
    reveal_strlit("key_path");
    reveal_strlit("id");
    reveal_strlit("name");
    reveal_strlit("url");
    reveal_strlit("auth");
    reveal_strlit("refresh_interval");
    reveal_strlit("max_age");
    reveal_strlit("Anonymous");
    reveal_strlit("BasicAuth");
    reveal_strlit("BearerToken");
    reveal_strlit("TlsCert");
    reveal_strlit("System");
    reveal_strlit("Light");
    reveal_strlit("Dark");
    assert("type"@.len() == 4 && "token"@.len() == 5 && "username"@.len() == 8);
    assert("password"@.len() == 8 && "encrypted_password"@.len() == 18);
    assert("encrypted_token"@.len() == 15 && "cert_path"@.len() == 9 && "key_path"@.len() == 8);
    assert("id"@.len() == 2 && "name"@.len() == 4 && "url"@.len() == 3 && "auth"@.len() == 4);
    assert("refresh_interval"@.len() == 16 && "max_age"@.len() == 7);
    assert("Anonymous"@.len() == 9 && "BasicAuth"@.len() == 9 && "BearerToken"@.len() == 11);
    assert("TlsCert"@.len() == 7 && "System"@.len() == 6 && "Light"@.len() == 5);
    assert("Dark"@.len() == 4);
    assert("type"@[0] != "name"@[0]);
    assert("username"@[0] != "password"@[0]);
    assert("Anonymous"@[0] != "BasicAuth"@[0]);
    assert("cert_path"@[0] != "key_path"@[0]);
    assert("name"@[0] != "auth"@[0]);
    assert("Light"@[0] != "Dark"@[0]);
}

/// The stored form of an authentication configuration reads back as the
/// configuration.
pub proof fn lemma_auth_reads_back(auth: AuthConfigView)
    ensures
        auth_of(auth_json(auth)) == Some(auth),
{
    lemma_member_names();
    reveal_with_fuel(find_member, 6);
    match auth {
        AuthConfigView::Anonymous => {},
        AuthConfigView::BasicAuth { username, password, encrypted_password } => {
            if encrypted_password.len() == 0 {
                assert(encrypted_password =~= Seq::<char>::empty());
            }
        },
        AuthConfigView::BearerToken { token, encrypted_token } => {
            if encrypted_token.len() == 0 {
                assert(encrypted_token =~= Seq::<char>::empty());
            }
        },
        AuthConfigView::TlsCert { cert_path, key_path } => {},
    }
}

/// The stored form of a registry configuration reads back as the
/// configuration, with its status forgotten.
pub proof fn lemma_registry_reads_back(config: RegistryConfigView)
    ensures
        registry_of(registry_json(config)) == Some(without_status(config)),
{
    lemma_member_names();
    reveal_with_fuel(find_member, 6);
    lemma_auth_reads_back(config.auth);
}

/// The stored form of a registry list reads back as the list, with every
/// status forgotten.
pub proof fn lemma_registries_read_back(configs: Seq<RegistryConfigView>)
    ensures
        registries_of(registries_json(configs)) == Some(
            Seq::new(configs.len(), |i: int| without_status(configs[i])),
        ),
{
    let items = registries_json(configs)->Array_0;
    assert forall|i: int| 0 <= i < items.len() implies registry_of(#[trigger] items[i]) == Some(
        without_status(configs[i]),
    ) by {
        lemma_registry_reads_back(configs[i]);
    }
    assert(registries_of(registries_json(configs))->0 =~= Seq::new(
        configs.len(),
        |i: int| without_status(configs[i]),
    ));
}

/// The stored forms of the settings read back as the settings.
pub proof fn lemma_settings_read_back(theme: Theme, config: CacheConfig)
    ensures
        theme_of(theme_json(theme)) == Some(theme),
        cache_config_of(cache_config_json(config)) == Some(config),
{
    lemma_member_names();
    reveal_with_fuel(find_member, 3);
}

} // verus!
