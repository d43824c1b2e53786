//! Export and import of registry lists and tag lists.
//!
//! An exported registry carries no secret: of its credentials only their kind
//! and, for Basic authentication, the user name.

use crate::json::{
    array_value, item_models, json_parsed, json_rendered_pretty, member_models, object_value,
    parse_json, push_member, render_json_pretty, text_member, text_value, u64_value, JsonModel,
    JsonValue,
};
use crate::models::manifest::{tag_views, TagInfo, TagInfoView};
use crate::models::registry::{
    registry_views, AuthConfig, AuthConfigView, ConnectionStatus, ConnectionStatusView,
    RegistryConfig, RegistryConfigView,
};
use crate::storage::records::{no_members, number_entry, text_entry};
use crate::text::{
    chars_of, contains_text, decimal, decimal_string, has_infix, lowercase, same_text,
    starts_with_at, string_of, to_lowercase,
};
use vstd::prelude::*;

verus! {

/// The message of the error for a text that is JSON but no exported list.
pub const NOT_AN_EXPORT: &'static str = "data does not have the shape of an exported registry list";

/// A registry configuration as it is exported: without secrets.
#[derive(Clone, Debug, PartialEq)]
pub struct ExportedRegistryConfig {
    pub id: String,
    pub name: String,
    pub url: String,
    /// `anonymous`, `basic:` and the user name, `bearer` or `tls`.
    pub auth_type: String,
}

/// The kind of credentials as an export names it.
pub open spec fn auth_type_text(auth: AuthConfigView) -> Seq<char> {
    match auth {
        AuthConfigView::Anonymous => "anonymous"@,
        AuthConfigView::BasicAuth { username, .. } => "basic:"@ + username,
        AuthConfigView::BearerToken { .. } => "bearer"@,
        AuthConfigView::TlsCert { .. } => "tls"@,
    }
}

/// The credentials that the name of a kind stands for, with every secret
/// left empty; no credentials for a name that is not known.
pub open spec fn auth_of_type(auth_type: Seq<char>) -> AuthConfigView {
    if auth_type == "anonymous"@ {
        AuthConfigView::Anonymous
    } else if "basic:"@.is_prefix_of(auth_type) {
        AuthConfigView::BasicAuth {
            username: auth_type.skip("basic:"@.len() as int),
            password: Seq::empty(),
            encrypted_password: Seq::empty(),
        }
    } else if auth_type == "bearer"@ {
        AuthConfigView::BearerToken { token: Seq::empty(), encrypted_token: Seq::empty() }
    } else if auth_type == "tls"@ {
        AuthConfigView::TlsCert { cert_path: Seq::empty(), key_path: Seq::empty() }
    } else {
        AuthConfigView::Anonymous
    }
}

/// The exported form of a registry configuration.
pub open spec fn exported_json(config: RegistryConfigView) -> JsonModel {
    JsonModel::Object(
        seq![
            text_entry("id"@, config.id),
            text_entry("name"@, config.name),
            text_entry("url"@, config.url),
            text_entry("auth_type"@, auth_type_text(config.auth)),
        ],
    )
}

/// The exported form of a registry list.
pub open spec fn export_json(configs: Seq<RegistryConfigView>) -> JsonModel {
    JsonModel::Array(Seq::new(configs.len(), |i: int| exported_json(configs[i])))
}

/// The text that rendering gives, or the empty text where it fails.
pub open spec fn text_or_empty(rendered: Result<Seq<char>, Seq<char>>) -> Seq<char> {
    match rendered {
        Ok(text) => text,
        Err(_) => Seq::empty(),
    }
}

/// The registry configuration that an exported value stands for: `id`,
/// `name`, `url` and the credentials that `auth_type` names.
pub open spec fn imported_of(value: JsonModel) -> Option<RegistryConfigView> {
    match (
        text_member(value, "id"@),
        text_member(value, "name"@),
        text_member(value, "url"@),
        text_member(value, "auth_type"@),
    ) {
        (Some(id), Some(name), Some(url), Some(auth_type)) => Some(
            RegistryConfigView {
                id,
                name,
                url,
                auth: auth_of_type(auth_type),
                status: ConnectionStatusView::Unknown,
            },
        ),
        _ => None,
    }
}

/// The registry list that an exported value stands for.
pub open spec fn import_of(value: JsonModel) -> Option<Seq<RegistryConfigView>> {
    match value {
        JsonModel::Array(items) => if forall|i: int|
            0 <= i < items.len() ==> imported_of(#[trigger] items[i]) is Some {
            Some(Seq::new(items.len(), |i: int| imported_of(items[i])->0))
        } else {
            None
        },
        _ => None,
    }
}

/// What importing a text gives: the registry list it stands for, or a
/// message that starts with `Invalid JSON: `.
pub open spec fn imported(json: Seq<char>) -> Result<Seq<RegistryConfigView>, Seq<char>> {
    match json_parsed(json) {
        Ok(value) => match import_of(value) {
            Some(configs) => Ok(configs),
            None => Err("Invalid JSON: "@ + NOT_AN_EXPORT@),
        },
        Err(message) => Err("Invalid JSON: "@ + message),
    }
}

/// The exported form of a tag.
pub open spec fn tag_json(tag: TagInfoView) -> JsonModel {
    JsonModel::Object(
        seq![
            text_entry("name"@, tag.name),
            text_entry("digest"@, tag.digest),
            number_entry("size"@, tag.size),
        ],
    )
}

/// The exported form of a tag list.
pub open spec fn tags_json(tags: Seq<TagInfoView>) -> JsonModel {
    JsonModel::Array(Seq::new(tags.len(), |i: int| tag_json(tags[i])))
}

/// The line of a tag in CSV: name, digest and size.
pub open spec fn csv_line(tag: TagInfoView) -> Seq<char> {
    tag.name + ","@ + tag.digest + ","@ + decimal(tag.size as nat) + "\n"@
}

/// The lines of the tags in CSV, in their order.
pub open spec fn csv_lines(tags: Seq<TagInfoView>) -> Seq<char>
    decreases tags.len(),
{
    if tags.len() == 0 {
        Seq::empty()
    } else {
        csv_lines(tags.drop_last()) + csv_line(tags.last())
    }
}

/// Whether a text in lower case holds a sign of credentials.
pub open spec fn shows_credentials(lower: Seq<char>) -> bool {
    has_infix(lower, "\"password\""@) || has_infix(lower, "\"token\""@) || has_infix(
        lower,
        ":\"bearer "@,
    ) || has_infix(lower, ":\"basic "@)
}

/// Whether `export` holds the name and the digest of every tag.
pub open spec fn holds_all_tags(export: Seq<char>, tags: Seq<TagInfoView>) -> bool {
    forall|i: int|
        0 <= i < tags.len() ==> has_infix(export, (#[trigger] tags[i]).name) && has_infix(
            export,
            tags[i].digest,
        )
}

/// The kind of credentials as an export names it.
fn auth_type_of(auth: &AuthConfig) -> (out: String)
    ensures
        out@ == auth_type_text(auth@),
{
    match auth {
        AuthConfig::Anonymous => "anonymous".to_string(),
        AuthConfig::BasicAuth { username, .. } => {
            let mut out = "basic:".to_string();
            out.append(username.as_str());
            out
        },
        AuthConfig::BearerToken { .. } => "bearer".to_string(),
        AuthConfig::TlsCert { .. } => "tls".to_string(),
    }
}

/// The exported form of a configuration.
pub open spec fn exported_form(e: ExportedRegistryConfig) -> JsonModel {
    JsonModel::Object(
        seq![
            text_entry("id"@, e.id@),
            text_entry("name"@, e.name@),
            text_entry("url"@, e.url@),
            text_entry("auth_type"@, e.auth_type@),
        ],
    )
}

/// What is exported of a registry configuration.
pub fn to_exported(config: &RegistryConfig) -> (out: ExportedRegistryConfig)
    ensures
        exported_form(out) == exported_json(config@),
{
    ExportedRegistryConfig {
        id: config.id.clone(),
        name: config.name.clone(),
        url: config.url.clone(),
        auth_type: auth_type_of(&config.auth),
    }
}

/// Writes an exported configuration as JSON.
fn encode_exported(e: &ExportedRegistryConfig) -> (out: JsonValue)
    ensures
        out@ == exported_form(*e),
{
    let mut members = no_members();
    push_member(&mut members, "id", text_value(e.id.as_str()));
    push_member(&mut members, "name", text_value(e.name.as_str()));
    push_member(&mut members, "url", text_value(e.url.as_str()));
    push_member(&mut members, "auth_type", text_value(e.auth_type.as_str()));
    assert(member_models(members@) =~= seq![
        text_entry("id"@, e.id@),
        text_entry("name"@, e.name@),
        text_entry("url"@, e.url@),
        text_entry("auth_type"@, e.auth_type@),
    ]);
    object_value(members)
}

/// The registry list as indented JSON, without any secret; the empty text
/// where rendering fails.
pub fn export_registries(registries: &[RegistryConfig]) -> (out: String)
    ensures
        out@ == text_or_empty(json_rendered_pretty(export_json(registry_views(registries@)))),
{
    let mut items: Vec<JsonValue> = Vec::new();
    let mut i: usize = 0;
    while i < registries.len()
        invariant
            0 <= i <= registries@.len(),
            items@.len() == i,
            forall|j: int| 0 <= j < i ==> (#[trigger] items@[j])@ == exported_json(registries@[j]@),
        decreases registries@.len() - i,
    {
        let exported = to_exported(&registries[i]);
        items.push(encode_exported(&exported));
        i += 1;
    }
    let value = array_value(items);
    assert(item_models(items@) =~= Seq::new(
        registries@.len(),
        |i: int| exported_json(registry_views(registries@)[i]),
    ));
    match render_json_pretty(&value) {
        Ok(text) => text,
        Err(_) => String::new(),
    }
}

/// Whether a text shows a sign of credentials: a `password` or `token`
/// member, or a value that starts like an `Authorization` header.
pub fn contains_credentials(json: &str) -> (r: bool)
    ensures
        r == shows_credentials(lowercase(json@)),
{
    let lower = to_lowercase(json);
    contains_text(lower.as_str(), "\"password\"") || contains_text(lower.as_str(), "\"token\"")
        || contains_text(lower.as_str(), ":\"bearer ") || contains_text(
        lower.as_str(),
        ":\"basic ",
    )
}

/// The tag list as indented JSON; the empty text where rendering fails.
pub fn export_tags_json(tags: &[TagInfo]) -> (out: String)
    ensures
        out@ == text_or_empty(json_rendered_pretty(tags_json(tag_views(tags@)))),
{
    let mut items: Vec<JsonValue> = Vec::new();
    let mut i: usize = 0;
    while i < tags.len()
        invariant
            0 <= i <= tags@.len(),
            items@.len() == i,
            forall|j: int| 0 <= j < i ==> (#[trigger] items@[j])@ == tag_json(tags@[j]@),
        decreases tags@.len() - i,
    {
        let tag = &tags[i];
        let mut members = no_members();
        push_member(&mut members, "name", text_value(tag.name.as_str()));
        push_member(&mut members, "digest", text_value(tag.digest.as_str()));
        push_member(&mut members, "size", u64_value(tag.size));
        assert(member_models(members@) =~= seq![
            text_entry("name"@, tag@.name),
            text_entry("digest"@, tag@.digest),
            number_entry("size"@, tag@.size),
        ]);
        items.push(object_value(members));
        i += 1;
    }
    let value = array_value(items);
    assert(item_models(items@) =~= Seq::new(tags@.len(), |i: int| tag_json(tag_views(tags@)[i])));
    match render_json_pretty(&value) {
        Ok(text) => text,
        Err(_) => String::new(),
    }
}

/// The tag list as CSV: a header line, then a line for each tag.
pub fn export_tags_csv(tags: &[TagInfo]) -> (out: String)
    ensures
        out@ == "name,digest,size\n"@ + csv_lines(tag_views(tags@)),
{
    let ghost all = tag_views(tags@);
    let mut out = "name,digest,size\n".to_string();
    let mut i: usize = 0;
    assert(all.take(0) =~= Seq::<TagInfoView>::empty());
    assert(out@ =~= "name,digest,size\n"@ + csv_lines(all.take(0)));
    while i < tags.len()
        invariant
            0 <= i <= tags@.len(),
            all == tag_views(tags@),
            out@ == "name,digest,size\n"@ + csv_lines(all.take(i as int)),
        decreases tags@.len() - i,
    {
        let ghost before = out@;
        proof {
            assert(all.take(i + 1).drop_last() =~= all.take(i as int));
            assert(all.take(i + 1).last() == tags@[i as int]@);
        }
        out.append(tags[i].name.as_str());
        out.append(",");
        out.append(tags[i].digest.as_str());
        out.append(",");
        out.append(decimal_string(tags[i].size).as_str());
        out.append("\n");
        assert(out@ =~= before + csv_line(tags@[i as int]@));
        assert(out@ =~= "name,digest,size\n"@ + csv_lines(all.take(i + 1)));
        i += 1;
    }
    assert(all.take(tags@.len() as int) =~= all);
    out
}

/// Whether `export` holds the name and the digest of every tag.
pub fn export_contains_all_tags(export: &str, tags: &[TagInfo]) -> (r: bool)
    ensures
        r == holds_all_tags(export@, tag_views(tags@)),
{
    let ghost all = tag_views(tags@);
    let mut i: usize = 0;
    while i < tags.len()
        invariant
            0 <= i <= tags@.len(),
            all == tag_views(tags@),
            forall|j: int|
                0 <= j < i ==> has_infix(export@, (#[trigger] all[j]).name) && has_infix(
                    export@,
                    all[j].digest,
                ),
        decreases tags@.len() - i,
    {
        assert(all[i as int] == tags@[i as int]@);
        if !(contains_text(export, tags[i].name.as_str()) && contains_text(
            export,
            tags[i].digest.as_str(),
        )) {
            assert(!(has_infix(export@, all[i as int].name) && has_infix(
                export@,
                all[i as int].digest,
            )));
            return false;
        }
        i += 1;
    }
    true
}

/// The credentials that the name of a kind stands for, with every secret
/// left for the operator to fill in.
pub fn parse_auth_type(auth_type: &str) -> (out: AuthConfig)
    ensures
        out@ == auth_of_type(auth_type@),
{
    let chars = chars_of(auth_type);
    let prefix = chars_of("basic:");
    assert(chars@.subrange(0, chars@.len() as int) == chars@);
    if same_text(auth_type, "anonymous") {
        AuthConfig::Anonymous
    } else if starts_with_at(&chars, 0, chars.len(), &prefix) {
        let username = string_of(&chars, prefix.len(), chars.len());
        assert(username@ =~= auth_type@.skip("basic:"@.len() as int));
        AuthConfig::BasicAuth {
            username,
            password: String::new(),
            encrypted_password: String::new(),
        }
    } else if same_text(auth_type, "bearer") {
        AuthConfig::BearerToken { token: String::new(), encrypted_token: String::new() }
    } else if same_text(auth_type, "tls") {
        AuthConfig::TlsCert { cert_path: String::new(), key_path: String::new() }
    } else {
        AuthConfig::Anonymous
    }
}

/// The configuration that an exported one stands for, with no known status.
pub open spec fn from_exported_form(e: ExportedRegistryConfig) -> RegistryConfigView {
    RegistryConfigView {
        id: e.id@,
        name: e.name@,
        url: e.url@,
        auth: auth_of_type(e.auth_type@),
        status: ConnectionStatusView::Unknown,
    }
}

/// Reads one exported configuration.
fn decode_exported(value: &JsonValue) -> (r: Option<ExportedRegistryConfig>)
    ensures
        match r {
            Some(e) => imported_of(value@) == Some(from_exported_form(e)),
            None => imported_of(value@) is None,
        },
{
    let id = value.text_member("id");
    let name = value.text_member("name");
    let url = value.text_member("url");
    let auth_type = value.text_member("auth_type");
    match (id, name, url, auth_type) {
        (Some(id), Some(name), Some(url), Some(auth_type)) => Some(
            ExportedRegistryConfig { id, name, url, auth_type },
        ),
        _ => None,
    }
}

/// The configuration that an exported one stands for: its secrets are left
/// for the operator to fill in.
pub fn from_exported(e: ExportedRegistryConfig) -> (out: RegistryConfig)
    ensures
        out@ == from_exported_form(e),
{
    let auth = parse_auth_type(e.auth_type.as_str());
    RegistryConfig { id: e.id, name: e.name, url: e.url, auth, status: ConnectionStatus::Unknown }
}

/// The message of the error for a text that is JSON but no exported list.
fn shape_error() -> (out: String)
    ensures
        out@ == "Invalid JSON: "@ + NOT_AN_EXPORT@,
{
    let mut out = "Invalid JSON: ".to_string();
    out.append(NOT_AN_EXPORT);
    out
}

/// A result that holds a registry list, as mathematics.
pub open spec fn import_result(r: Result<Vec<RegistryConfig>, String>) -> Result<
    Seq<RegistryConfigView>,
    Seq<char>,
> {
    match r {
        Ok(configs) => Ok(registry_views(configs@)),
        Err(message) => Err(message@),
    }
}

/// Reads an exported registry list. The configurations come without
/// secrets.
pub fn import_registries(json: &str) -> (r: Result<Vec<RegistryConfig>, String>)
    ensures
        import_result(r) == imported(json@),
{
    let value = match parse_json(json) {
        Ok(value) => value,
        Err(message) => {
            let mut out = "Invalid JSON: ".to_string();
            out.append(message.as_str());
            return Err(out);
        },
    };
    let items = match value.as_array() {
        Some(items) => items,
        None => {
            return Err(shape_error());
        },
    };
    let ghost models = item_models(items@);
    let mut out: Vec<RegistryConfig> = Vec::new();
    let mut i: usize = 0;
    while i < items.len()
        invariant
            0 <= i <= items@.len(),
            models == item_models(items@),
            value@ == JsonModel::Array(models),
            json_parsed(json@) == Ok::<JsonModel, Seq<char>>(value@),
            out@.len() == i,
            forall|j: int| 0 <= j < i ==> imported_of(#[trigger] models[j]) == Some(out@[j]@),
        decreases items@.len() - i,
    {
        match decode_exported(&items[i]) {
            Some(exported) => {
                out.push(from_exported(exported));
            },
            None => {
                assert(imported_of(models[i as int]) is None);
                return Err(shape_error());
            },
        }
        i += 1;
    }
    assert(import_of(value@)->0 =~= registry_views(out@));
    Ok(out)
}

/// The credentials with every secret left empty.
pub open spec fn skeleton(auth: AuthConfigView) -> AuthConfigView {
    match auth {
        AuthConfigView::Anonymous => AuthConfigView::Anonymous,
        AuthConfigView::BasicAuth { username, .. } => AuthConfigView::BasicAuth {
            username,
            password: Seq::empty(),
            encrypted_password: Seq::empty(),
        },
        AuthConfigView::BearerToken { .. } => AuthConfigView::BearerToken {
            token: Seq::empty(),
            encrypted_token: Seq::empty(),
        },
        AuthConfigView::TlsCert { .. } => AuthConfigView::TlsCert {
            cert_path: Seq::empty(),
            key_path: Seq::empty(),
        },
    }
}

/// The name of a kind of credentials stands for those credentials without
/// their secrets.
pub proof fn lemma_auth_type_reads_back(auth: AuthConfigView)
    ensures
        auth_of_type(auth_type_text(auth)) == skeleton(auth),
{
    reveal_strlit("anonymous");
    reveal_strlit("basic:");
    reveal_strlit("bearer");
    reveal_strlit("tls");
    assert("anonymous"@.len() == 9 && "basic:"@.len() == 6 && "bearer"@.len() == 6 && "tls"@.len()
        == 3);
    match auth {
        AuthConfigView::BasicAuth { username, .. } => {
            let text = "basic:"@ + username;
            assert(text[0] == 'b' && "anonymous"@[0] == 'a');
            assert("basic:"@.is_prefix_of(text));
            assert(text.skip("basic:"@.len() as int) =~= username);
        },
        AuthConfigView::BearerToken { .. } => {
            assert("bearer"@[0] == 'b' && "anonymous"@[0] == 'a');
            assert("bearer"@[1] == 'e' && "basic:"@[1] == 'a');
        },
        AuthConfigView::TlsCert { .. } => {},
        AuthConfigView::Anonymous => {},
    }
}

/// An exported registry list imports as the list, with every status and
/// every secret forgotten.
pub proof fn lemma_export_imports(configs: Seq<RegistryConfigView>)
    ensures
        import_of(export_json(configs)) == Some(
            Seq::new(
                configs.len(),
                |i: int|
                    RegistryConfigView {
                        auth: skeleton(configs[i].auth),
                        status: ConnectionStatusView::Unknown,
                        ..configs[i]
                    },
            ),
        ),
{
    reveal_strlit("id");
    reveal_strlit("name");
    reveal_strlit("url");
    reveal_strlit("auth_type");
    assert("id"@.len() == 2 && "name"@.len() == 4 && "url"@.len() == 3 && "auth_type"@.len() == 9);
    reveal_with_fuel(crate::json::find_member, 6);
    let items = export_json(configs)->Array_0;
    let expected = Seq::new(
        configs.len(),
        |i: int|
            RegistryConfigView {
                auth: skeleton(configs[i].auth),
                status: ConnectionStatusView::Unknown,
                ..configs[i]
            },
    );
    assert forall|i: int| 0 <= i < items.len() implies imported_of(#[trigger] items[i]) == Some(
        expected[i],
    ) by {
        lemma_auth_type_reads_back(configs[i].auth);
    }
    assert(import_of(export_json(configs))->0 =~= expected);
}

} // verus!
