//! The shapes of the documents that a registry answers with.
//!
//! Each document is a JSON object. A member that the shape does not name is
//! passed over; a member that it names must have the type it asks for.

use crate::json::{
    array_member, i32_member, item_models, member, text_member, texts_from, texts_of, u64_member,
    JsonModel, JsonValue,
};
use crate::models::manifest::{
    blob_sums, compatibility_texts, descriptor_views, CatalogResponse, CatalogResponseView,
    Descriptor, DescriptorView, FsLayer, Manifest, ManifestV1, ManifestV1View, ManifestV2,
    ManifestV2View, ManifestView, OciManifest, OciManifestView, TagsResponse, TagsResponseView,
    V1History,
};
use crate::text::{opt_text, texts};
use vstd::prelude::*;

verus! {

/// A member that may be left out or `null`: none where it has another type
/// than text.
pub open spec fn optional_text_member(value: JsonModel, key: Seq<char>) -> Option<
    Option<Seq<char>>,
> {
    match member(value, key) {
        None => Some(None),
        Some(JsonModel::Null) => Some(None),
        Some(JsonModel::Text(s)) => Some(Some(s)),
        Some(_) => None,
    }
}

/// An array member that may be left out, and is then empty: none where it
/// is no array.
pub open spec fn array_member_or_empty(value: JsonModel, key: Seq<char>) -> Option<
    Seq<JsonModel>,
> {
    match member(value, key) {
        None => Some(Seq::empty()),
        Some(JsonModel::Array(items)) => Some(items),
        Some(_) => None,
    }
}

/// The descriptor that a value holds: `mediaType`, `size` and `digest`.
pub open spec fn descriptor_of(value: JsonModel) -> Option<DescriptorView> {
    match (
        text_member(value, "mediaType"@),
        u64_member(value, "size"@),
        text_member(value, "digest"@),
    ) {
        (Some(media_type), Some(size), Some(digest)) => Some(
            DescriptorView { media_type, size, digest },
        ),
        _ => None,
    }
}

/// The descriptors that the items hold, where each holds one.
pub open spec fn descriptors_of(items: Seq<JsonModel>) -> Option<Seq<DescriptorView>> {
    if forall|i: int| 0 <= i < items.len() ==> descriptor_of(#[trigger] items[i]) is Some {
        Some(Seq::new(items.len(), |i: int| descriptor_of(items[i])->0))
    } else {
        None
    }
}

/// The texts that the items hold under `key`, where each holds one.
pub open spec fn member_texts_of(items: Seq<JsonModel>, key: Seq<char>) -> Option<Seq<Seq<char>>> {
    if forall|i: int| 0 <= i < items.len() ==> text_member(#[trigger] items[i], key) is Some {
        Some(Seq::new(items.len(), |i: int| text_member(items[i], key)->0))
    } else {
        None
    }
}

/// The descriptor under `key`.
pub open spec fn descriptor_member(value: JsonModel, key: Seq<char>) -> Option<DescriptorView> {
    match member(value, key) {
        Some(inner) => descriptor_of(inner),
        None => None,
    }
}

/// The descriptors of the array under `key`.
pub open spec fn descriptors_member(value: JsonModel, key: Seq<char>) -> Option<
    Seq<DescriptorView>,
> {
    match array_member(value, key) {
        Some(items) => descriptors_of(items),
        None => None,
    }
}

/// A value in the shape of a Docker manifest of schema version 2:
/// `schemaVersion`, `mediaType`, `config` and `layers`.
pub open spec fn manifest_v2_of(value: JsonModel) -> Option<ManifestV2View> {
    match (
        i32_member(value, "schemaVersion"@),
        text_member(value, "mediaType"@),
        descriptor_member(value, "config"@),
        descriptors_member(value, "layers"@),
    ) {
        (Some(schema_version), Some(media_type), Some(config), Some(layers)) => Some(
            ManifestV2View { schema_version, media_type, config, layers },
        ),
        _ => None,
    }
}

/// A value in the shape of an OCI manifest: `schemaVersion`, `config` and
/// `layers`, and `mediaType` if it is there.
pub open spec fn oci_manifest_of(value: JsonModel) -> Option<OciManifestView> {
    match (
        i32_member(value, "schemaVersion"@),
        optional_text_member(value, "mediaType"@),
        descriptor_member(value, "config"@),
        descriptors_member(value, "layers"@),
    ) {
        (Some(schema_version), Some(media_type), Some(config), Some(layers)) => Some(
            OciManifestView { schema_version, media_type, config, layers },
        ),
        _ => None,
    }
}

/// The texts under `inner` of the items of the array under `key`, which may
/// be left out.
pub open spec fn member_texts_or_empty(value: JsonModel, key: Seq<char>, inner: Seq<char>) -> Option<
    Seq<Seq<char>>,
> {
    match array_member_or_empty(value, key) {
        Some(items) => member_texts_of(items, inner),
        None => None,
    }
}

/// A value in the shape of a Docker manifest of schema version 1:
/// `schemaVersion`, `name`, `tag` and `architecture`, and `fsLayers` and
/// `history` if they are there.
pub open spec fn manifest_v1_of(value: JsonModel) -> Option<ManifestV1View> {
    match (
        i32_member(value, "schemaVersion"@),
        text_member(value, "name"@),
        text_member(value, "tag"@),
        text_member(value, "architecture"@),
        member_texts_or_empty(value, "fsLayers"@, "blobSum"@),
        member_texts_or_empty(value, "history"@, "v1Compatibility"@),
    ) {
        (
            Some(schema_version),
            Some(name),
            Some(tag),
            Some(architecture),
            Some(fs_layers),
            Some(history),
        ) => Some(ManifestV1View { schema_version, name, tag, architecture, fs_layers, history }),
        _ => None,
    }
}

/// What keeps a value from being a manifest of schema version 1, for a value
/// that is none: the first member, in the order of the shape, that is missing
/// or has another type than the shape asks for.
pub open spec fn manifest_v1_fault(value: JsonModel) -> Seq<char> {
    if i32_member(value, "schemaVersion"@) is None {
        "missing or invalid field `schemaVersion`"@
    } else if text_member(value, "name"@) is None {
        "missing or invalid field `name`"@
    } else if text_member(value, "tag"@) is None {
        "missing or invalid field `tag`"@
    } else if text_member(value, "architecture"@) is None {
        "missing or invalid field `architecture`"@
    } else if member_texts_or_empty(value, "fsLayers"@, "blobSum"@) is None {
        "invalid field `fsLayers`"@
    } else {
        "invalid field `history`"@
    }
}

/// The manifest that a value holds: the first of the three shapes that it
/// has, tried in the order schema version 2, OCI, schema version 1.
pub open spec fn manifest_of(value: JsonModel) -> Option<ManifestView> {
    match manifest_v2_of(value) {
        Some(m) => Some(ManifestView::V2(m)),
        None => match oci_manifest_of(value) {
            Some(m) => Some(ManifestView::OCI(m)),
            None => match manifest_v1_of(value) {
                Some(m) => Some(ManifestView::V1(m)),
                None => None,
            },
        },
    }
}

/// The catalog that a value holds: `repositories`, an array of texts. The
/// next page is not part of the document.
pub open spec fn catalog_of(value: JsonModel) -> Option<CatalogResponseView> {
    match array_member(value, "repositories"@) {
        Some(items) => match texts_of(items) {
            Some(repositories) => Some(CatalogResponseView { repositories, next_page: None }),
            None => None,
        },
        None => None,
    }
}

/// The tags under `tags`, which may be left out or `null`.
pub open spec fn optional_tags_of(value: JsonModel) -> Option<Option<Seq<Seq<char>>>> {
    match member(value, "tags"@) {
        None => Some(None),
        Some(JsonModel::Null) => Some(None),
        Some(JsonModel::Array(items)) => match texts_of(items) {
            Some(tags) => Some(Some(tags)),
            None => None,
        },
        Some(_) => None,
    }
}

/// The tag list that a value holds: `name`, and `tags` if it is there.
pub open spec fn tags_of(value: JsonModel) -> Option<TagsResponseView> {
    match (text_member(value, "name"@), optional_tags_of(value)) {
        (Some(name), Some(tags)) => Some(TagsResponseView { name, tags }),
        _ => None,
    }
}

/// The view of a descriptor that may be absent.
pub open spec fn opt_descriptor(o: Option<Descriptor>) -> Option<DescriptorView> {
    match o {
        Some(d) => Some(d@),
        None => None,
    }
}

/// Reads a descriptor.
pub fn decode_descriptor(value: &JsonValue) -> (r: Option<Descriptor>)
    ensures
        opt_descriptor(r) == descriptor_of(value@),
{
    let media_type = value.text_member("mediaType");
    let size = value.u64_member("size");
    let digest = value.text_member("digest");
    match (media_type, size, digest) {
        (Some(media_type), Some(size), Some(digest)) => Some(
            Descriptor { media_type, size, digest },
        ),
        _ => None,
    }
}

/// Reads an array of descriptors.
pub fn decode_descriptors(items: &Vec<JsonValue>) -> (r: Option<Vec<Descriptor>>)
    ensures
        match r {
            Some(out) => descriptors_of(item_models(items@)) == Some(descriptor_views(out@)),
            None => descriptors_of(item_models(items@)) is None,
        },
{
    let ghost models = item_models(items@);
    let mut out: Vec<Descriptor> = Vec::new();
    let mut i: usize = 0;
    while i < items.len()
        invariant
            0 <= i <= items@.len(),
            models == item_models(items@),
            out@.len() == i,
            forall|j: int| 0 <= j < i ==> descriptor_of(#[trigger] models[j]) == Some(out@[j]@),
        decreases items@.len() - i,
    {
        match decode_descriptor(&items[i]) {
            Some(d) => {
                out.push(d);
            },
            None => {
                assert(descriptor_of(models[i as int]) is None);
                return None;
            },
        }
        i += 1;
    }
    assert(descriptors_of(models)->0 =~= descriptor_views(out@));
    Some(out)
}

/// Reads the text under `key` of each item.
pub fn decode_member_texts(items: &Vec<JsonValue>, key: &str) -> (r: Option<Vec<String>>)
    ensures
        match r {
            Some(out) => member_texts_of(item_models(items@), key@) == Some(texts(out@)),
            None => member_texts_of(item_models(items@), key@) is None,
        },
{
    let ghost models = item_models(items@);
    let mut out: Vec<String> = Vec::new();
    let mut i: usize = 0;
    while i < items.len()
        invariant
            0 <= i <= items@.len(),
            models == item_models(items@),
            out@.len() == i,
            forall|j: int| 0 <= j < i ==> text_member(#[trigger] models[j], key@) == Some(out@[j]@),
        decreases items@.len() - i,
    {
        match items[i].text_member(key) {
            Some(s) => {
                out.push(s);
            },
            None => {
                assert(text_member(models[i as int], key@) is None);
                return None;
            },
        }
        i += 1;
    }
    assert(member_texts_of(models, key@)->0 =~= texts(out@));
    Some(out)
}

/// Reads the texts under `inner` of the items of the array under `key`,
/// which may be left out.
fn decode_member_texts_or_empty(value: &JsonValue, key: &str, inner: &str) -> (r: Option<
    Vec<String>,
>)
    ensures
        match r {
            Some(out) => member_texts_or_empty(value@, key@, inner@) == Some(texts(out@)),
            None => member_texts_or_empty(value@, key@, inner@) is None,
        },
{
    match value.get(key) {
        None => {
            let out: Vec<String> = Vec::new();
            assert(member_texts_of(Seq::<JsonModel>::empty(), inner@)->0 =~= texts(out@));
            Some(out)
        },
        Some(found) => match found.as_array() {
            Some(items) => decode_member_texts(items, inner),
            None => None,
        },
    }
}

/// Reads the descriptor under `key`.
fn decode_descriptor_member(value: &JsonValue, key: &str) -> (r: Option<Descriptor>)
    ensures
        opt_descriptor(r) == descriptor_member(value@, key@),
{
    match value.get(key) {
        Some(inner) => decode_descriptor(inner),
        None => None,
    }
}

/// Reads the descriptors of the array under `key`.
fn decode_descriptors_member(value: &JsonValue, key: &str) -> (r: Option<Vec<Descriptor>>)
    ensures
        match r {
            Some(out) => descriptors_member(value@, key@) == Some(descriptor_views(out@)),
            None => descriptors_member(value@, key@) is None,
        },
{
    match value.array_member(key) {
        Some(items) => decode_descriptors(items),
        None => None,
    }
}

/// Reads a text member that may be left out or `null`.
fn decode_optional_text(value: &JsonValue, key: &str) -> (r: Option<Option<String>>)
    ensures
        match r {
            Some(out) => optional_text_member(value@, key@) == Some(opt_text(out)),
            None => optional_text_member(value@, key@) is None,
        },
{
    match value.get(key) {
        None => Some(None),
        Some(JsonValue::Null) => Some(None),
        Some(found) => match found.as_text() {
            Some(s) => Some(Some(s.clone())),
            None => None,
        },
    }
}

/// Reads a manifest of schema version 2.
pub fn decode_manifest_v2(value: &JsonValue) -> (r: Option<ManifestV2>)
    ensures
        match r {
            Some(m) => manifest_v2_of(value@) == Some(m@),
            None => manifest_v2_of(value@) is None,
        },
{
    let schema_version = value.i32_member("schemaVersion");
    let media_type = value.text_member("mediaType");
    let config = decode_descriptor_member(value, "config");
    let layers = decode_descriptors_member(value, "layers");
    match (schema_version, media_type, config, layers) {
        (Some(schema_version), Some(media_type), Some(config), Some(layers)) => Some(
            ManifestV2 { schema_version, media_type, config, layers },
        ),
        _ => None,
    }
}

/// Reads an OCI manifest.
pub fn decode_oci_manifest(value: &JsonValue) -> (r: Option<OciManifest>)
    ensures
        match r {
            Some(m) => oci_manifest_of(value@) == Some(m@),
            None => oci_manifest_of(value@) is None,
        },
{
    let schema_version = value.i32_member("schemaVersion");
    let media_type = decode_optional_text(value, "mediaType");
    let config = decode_descriptor_member(value, "config");
    let layers = decode_descriptors_member(value, "layers");
    match (schema_version, media_type, config, layers) {
        (Some(schema_version), Some(media_type), Some(config), Some(layers)) => Some(
            OciManifest { schema_version, media_type, config, layers },
        ),
        _ => None,
    }
}

/// The layers with the blob sums given.
fn fs_layers_from(sums: Vec<String>) -> (out: Vec<FsLayer>)
    ensures
        blob_sums(out@) == texts(sums@),
{
    let mut out: Vec<FsLayer> = Vec::new();
    let mut i: usize = 0;
    while i < sums.len()
        invariant
            0 <= i <= sums@.len(),
            out@.len() == i,
            forall|j: int| 0 <= j < i ==> (#[trigger] out@[j]).blob_sum@ == sums@[j]@,
        decreases sums@.len() - i,
    {
        out.push(FsLayer { blob_sum: sums[i].clone() });
        i += 1;
    }
    assert(blob_sums(out@) =~= texts(sums@));
    out
}

/// The history entries with the texts given.
fn history_from(entries: Vec<String>) -> (out: Vec<V1History>)
    ensures
        compatibility_texts(out@) == texts(entries@),
{
    let mut out: Vec<V1History> = Vec::new();
    let mut i: usize = 0;
    while i < entries.len()
        invariant
            0 <= i <= entries@.len(),
            out@.len() == i,
            forall|j: int| 0 <= j < i ==> (#[trigger] out@[j]).v1_compatibility@ == entries@[j]@,
        decreases entries@.len() - i,
    {
        out.push(V1History { v1_compatibility: entries[i].clone() });
        i += 1;
    }
    assert(compatibility_texts(out@) =~= texts(entries@));
    out
}

/// Reads a manifest of schema version 1.
pub fn decode_manifest_v1(value: &JsonValue) -> (r: Option<ManifestV1>)
    ensures
        match r {
            Some(m) => manifest_v1_of(value@) == Some(m@),
            None => manifest_v1_of(value@) is None,
        },
{
    let schema_version = value.i32_member("schemaVersion");
    let name = value.text_member("name");
    let tag = value.text_member("tag");
    let architecture = value.text_member("architecture");
    let fs_layers = decode_member_texts_or_empty(value, "fsLayers", "blobSum");
    let history = decode_member_texts_or_empty(value, "history", "v1Compatibility");
    match (schema_version, name, tag, architecture, fs_layers, history) {
        (
            Some(schema_version),
            Some(name),
            Some(tag),
            Some(architecture),
            Some(fs_layers),
            Some(history),
        ) => Some(
            ManifestV1 {
                schema_version,
                name,
                tag,
                architecture,
                fs_layers: fs_layers_from(fs_layers),
                history: history_from(history),
            },
        ),
        _ => None,
    }
}

/// Says what keeps a value from being a manifest of schema version 1.
fn describe_v1_fault(value: &JsonValue) -> (out: String)
    ensures
        out@ == manifest_v1_fault(value@),
{
    if value.i32_member("schemaVersion").is_none() {
        "missing or invalid field `schemaVersion`".to_string()
    } else if value.text_member("name").is_none() {
        "missing or invalid field `name`".to_string()
    } else if value.text_member("tag").is_none() {
        "missing or invalid field `tag`".to_string()
    } else if value.text_member("architecture").is_none() {
        "missing or invalid field `architecture`".to_string()
    } else if decode_member_texts_or_empty(value, "fsLayers", "blobSum").is_none() {
        "invalid field `fsLayers`".to_string()
    } else {
        "invalid field `history`".to_string()
    }
}

/// Reads a manifest in whichever of the three shapes the value has first.
/// For a value of none of them, the error says why it is not of the last.
pub fn decode_manifest(value: &JsonValue) -> (r: Result<Manifest, String>)
    ensures
        match r {
            Ok(m) => manifest_of(value@) == Some(m@),
            Err(message) => manifest_of(value@) is None && message@ == manifest_v1_fault(value@),
        },
{
    match decode_manifest_v2(value) {
        Some(m) => Ok(Manifest::V2(m)),
        None => match decode_oci_manifest(value) {
            Some(m) => Ok(Manifest::OCI(m)),
            None => match decode_manifest_v1(value) {
                Some(m) => Ok(Manifest::V1(m)),
                None => Err(describe_v1_fault(value)),
            },
        },
    }
}

/// Reads a catalog.
pub fn decode_catalog(value: &JsonValue) -> (r: Option<CatalogResponse>)
    ensures
        match r {
            Some(c) => catalog_of(value@) == Some(c@),
            None => catalog_of(value@) is None,
        },
{
    match value.array_member("repositories") {
        Some(items) => match texts_from(items) {
            Some(repositories) => Some(CatalogResponse { repositories, next_page: None }),
            None => None,
        },
        None => None,
    }
}

/// Reads a tag list.
pub fn decode_tags(value: &JsonValue) -> (r: Option<TagsResponse>)
    ensures
        match r {
            Some(t) => tags_of(value@) == Some(t@),
            None => tags_of(value@) is None,
        },
{
    let name = value.text_member("name");
    let tags: Option<Option<Vec<String>>> = match value.get("tags") {
        None => Some(None),
        Some(JsonValue::Null) => Some(None),
        Some(found) => match found.as_array() {
            Some(items) => match texts_from(items) {
                Some(tags) => Some(Some(tags)),
                None => None,
            },
            None => None,
        },
    };
    match (name, tags) {
        (Some(name), Some(tags)) => Some(TagsResponse { name, tags }),
        _ => None,
    }
}

} // verus!
