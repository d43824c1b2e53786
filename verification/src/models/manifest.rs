//! Manifests and the other documents that a registry answers with.

use crate::text::{opt_text, texts};
use vstd::prelude::*;

verus! {

/// The media type of an OCI manifest that names none.
pub const OCI_MANIFEST_TYPE: &'static str = "application/vnd.oci.image.manifest.v1+json";

/// The media type of a schema version 1 manifest.
pub const V1_MANIFEST_TYPE: &'static str = "application/vnd.docker.distribution.manifest.v1+json";

/// The answer to a catalog request.
#[derive(Clone, Debug, PartialEq)]
pub struct CatalogResponse {
    pub repositories: Vec<String>,
    /// The query to ask the next page with, where there is one.
    pub next_page: Option<String>,
}

pub struct CatalogResponseView {
    pub repositories: Seq<Seq<char>>,
    pub next_page: Option<Seq<char>>,
}

impl View for CatalogResponse {
    type V = CatalogResponseView;

    open spec fn view(&self) -> CatalogResponseView {
        CatalogResponseView {
            repositories: texts(self.repositories@),
            next_page: opt_text(self.next_page),
        }
    }
}

/// The answer to a tag list request.
#[derive(Clone, Debug, PartialEq)]
pub struct TagsResponse {
    pub name: String,
    pub tags: Option<Vec<String>>,
}

pub struct TagsResponseView {
    pub name: Seq<char>,
    pub tags: Option<Seq<Seq<char>>>,
}

impl View for TagsResponse {
    type V = TagsResponseView;

    open spec fn view(&self) -> TagsResponseView {
        TagsResponseView {
            name: self.name@,
            tags: match self.tags {
                Some(tags) => Some(texts(tags@)),
                None => None,
            },
        }
    }
}

/// A reference to a blob.
#[derive(Clone, Debug, PartialEq)]
pub struct Descriptor {
    pub media_type: String,
    pub size: u64,
    pub digest: String,
}

pub struct DescriptorView {
    pub media_type: Seq<char>,
    pub size: u64,
    pub digest: Seq<char>,
}

impl View for Descriptor {
    type V = DescriptorView;

    open spec fn view(&self) -> DescriptorView {
        DescriptorView { media_type: self.media_type@, size: self.size, digest: self.digest@ }
    }
}

/// The views of a sequence of descriptors.
pub open spec fn descriptor_views(v: Seq<Descriptor>) -> Seq<DescriptorView> {
    v.map_values(|d: Descriptor| d@)
}

/// A layer of a schema version 1 manifest.
#[derive(Clone, Debug, PartialEq)]
pub struct FsLayer {
    pub blob_sum: String,
}

/// A history entry of a schema version 1 manifest.
#[derive(Clone, Debug, PartialEq)]
pub struct V1History {
    pub v1_compatibility: String,
}

/// The blob sums of a sequence of layers.
pub open spec fn blob_sums(v: Seq<FsLayer>) -> Seq<Seq<char>> {
    v.map_values(|l: FsLayer| l.blob_sum@)
}

/// The texts of a sequence of history entries.
pub open spec fn compatibility_texts(v: Seq<V1History>) -> Seq<Seq<char>> {
    v.map_values(|h: V1History| h.v1_compatibility@)
}

/// A Docker manifest of schema version 2.
#[derive(Clone, Debug, PartialEq)]
pub struct ManifestV2 {
    pub schema_version: i32,
    pub media_type: String,
    pub config: Descriptor,
    pub layers: Vec<Descriptor>,
}

pub struct ManifestV2View {
    pub schema_version: i32,
    pub media_type: Seq<char>,
    pub config: DescriptorView,
    pub layers: Seq<DescriptorView>,
}

impl View for ManifestV2 {
    type V = ManifestV2View;

    open spec fn view(&self) -> ManifestV2View {
        ManifestV2View {
            schema_version: self.schema_version,
            media_type: self.media_type@,
            config: self.config@,
            layers: descriptor_views(self.layers@),
        }
    }
}

/// An OCI image manifest.
#[derive(Clone, Debug, PartialEq)]
pub struct OciManifest {
    pub schema_version: i32,
    pub media_type: Option<String>,
    pub config: Descriptor,
    pub layers: Vec<Descriptor>,
}

pub struct OciManifestView {
    pub schema_version: i32,
    pub media_type: Option<Seq<char>>,
    pub config: DescriptorView,
    pub layers: Seq<DescriptorView>,
}

impl View for OciManifest {
    type V = OciManifestView;

    open spec fn view(&self) -> OciManifestView {
        OciManifestView {
            schema_version: self.schema_version,
            media_type: opt_text(self.media_type),
            config: self.config@,
            layers: descriptor_views(self.layers@),
        }
    }
}

/// A Docker manifest of schema version 1.
#[derive(Clone, Debug, PartialEq)]
pub struct ManifestV1 {
    pub schema_version: i32,
    pub name: String,
    pub tag: String,
    pub architecture: String,
    pub fs_layers: Vec<FsLayer>,
    pub history: Vec<V1History>,
}

pub struct ManifestV1View {
    pub schema_version: i32,
    pub name: Seq<char>,
    pub tag: Seq<char>,
    pub architecture: Seq<char>,
    pub fs_layers: Seq<Seq<char>>,
    pub history: Seq<Seq<char>>,
}

impl View for ManifestV1 {
    type V = ManifestV1View;

    open spec fn view(&self) -> ManifestV1View {
        ManifestV1View {
            schema_version: self.schema_version,
            name: self.name@,
            tag: self.tag@,
            architecture: self.architecture@,
            fs_layers: blob_sums(self.fs_layers@),
            history: compatibility_texts(self.history@),
        }
    }
}

/// A manifest in one of its three shapes.
#[derive(Clone, Debug, PartialEq)]
pub enum Manifest {
    V2(ManifestV2),
    OCI(OciManifest),
    V1(ManifestV1),
}

pub enum ManifestView {
    V2(ManifestV2View),
    OCI(OciManifestView),
    V1(ManifestV1View),
}

impl View for Manifest {
    type V = ManifestView;

    open spec fn view(&self) -> ManifestView {
        match self {
            Manifest::V2(m) => ManifestView::V2(m@),
            Manifest::OCI(m) => ManifestView::OCI(m@),
            Manifest::V1(m) => ManifestView::V1(m@),
        }
    }
}

/// The configuration of an image, as its config blob gives it.
#[derive(Clone, Debug, PartialEq)]
pub struct ImageConfig {
    pub architecture: String,
    pub os: String,
    pub created: Option<String>,
    pub author: Option<String>,
    pub history: Option<Vec<HistoryEntry>>,
}

/// One step of an image's build history.
#[derive(Clone, Debug, PartialEq)]
pub struct HistoryEntry {
    pub created: Option<String>,
    pub created_by: Option<String>,
    pub empty_layer: Option<bool>,
}

/// What a `HEAD` request tells of a blob.
#[derive(Clone, Debug, PartialEq)]
pub struct BlobInfo {
    pub digest: String,
    pub size: u64,
    pub media_type: Option<String>,
}

pub struct BlobInfoView {
    pub digest: Seq<char>,
    pub size: u64,
    pub media_type: Option<Seq<char>>,
}

impl View for BlobInfo {
    type V = BlobInfoView;

    open spec fn view(&self) -> BlobInfoView {
        BlobInfoView { digest: self.digest@, size: self.size, media_type: opt_text(self.media_type) }
    }
}

/// A tag with the digest and size of its manifest.
#[derive(Clone, Debug, PartialEq)]
pub struct TagInfo {
    pub name: String,
    pub digest: String,
    pub size: u64,
}

pub struct TagInfoView {
    pub name: Seq<char>,
    pub digest: Seq<char>,
    pub size: u64,
}

impl View for TagInfo {
    type V = TagInfoView;

    open spec fn view(&self) -> TagInfoView {
        TagInfoView { name: self.name@, digest: self.digest@, size: self.size }
    }
}

/// The views of a sequence of tags.
pub open spec fn tag_views(v: Seq<TagInfo>) -> Seq<TagInfoView> {
    v.map_values(|t: TagInfo| t@)
}

/// The media type of a manifest: the one it names, or the one of its shape.
pub open spec fn manifest_media_type(m: ManifestView) -> Seq<char> {
    match m {
        ManifestView::V2(m) => m.media_type,
        ManifestView::OCI(m) => match m.media_type {
            Some(t) => t,
            None => OCI_MANIFEST_TYPE@,
        },
        ManifestView::V1(_) => V1_MANIFEST_TYPE@,
    }
}

/// The layers of a manifest that carry a size: none for schema version 1.
pub open spec fn manifest_layers(m: ManifestView) -> Seq<DescriptorView> {
    match m {
        ManifestView::V2(m) => m.layers,
        ManifestView::OCI(m) => m.layers,
        ManifestView::V1(_) => Seq::empty(),
    }
}

/// The sum of the sizes of `layers`.
pub open spec fn total_size_of(layers: Seq<DescriptorView>) -> nat
    decreases layers.len(),
{
    if layers.len() == 0 {
        0
    } else {
        total_size_of(layers.drop_last()) + layers.last().size as nat
    }
}

/// The sizes of a prefix of `layers` sum to no more than those of all.
pub proof fn lemma_total_size_prefix(layers: Seq<DescriptorView>, n: int)
    requires
        0 <= n <= layers.len(),
    ensures
        total_size_of(layers.take(n)) <= total_size_of(layers),
    decreases layers.len() - n,
{
    if n < layers.len() {
        lemma_total_size_prefix(layers, n + 1);
        assert(layers.take(n + 1).drop_last() =~= layers.take(n));
    } else {
        assert(layers.take(n) =~= layers);
    }
}

/// The sum of the sizes of `layers`, unless it does not fit in a `u64`.
pub fn checked_total_size(layers: &[Descriptor]) -> (r: Option<u64>)
    ensures
        match r {
            Some(total) => total == total_size_of(descriptor_views(layers@)),
            None => total_size_of(descriptor_views(layers@)) > u64::MAX,
        },
{
    let ghost all = descriptor_views(layers@);
    let mut total: u64 = 0;
    let mut i: usize = 0;
    while i < layers.len()
        invariant
            0 <= i <= layers@.len(),
            all == descriptor_views(layers@),
            total == total_size_of(all.take(i as int)),
        decreases layers@.len() - i,
    {
        proof {
            assert(all.take(i + 1).drop_last() =~= all.take(i as int));
            assert(all.take(i + 1).last() == layers@[i as int]@);
        }
        match total.checked_add(layers[i].size) {
            Some(next) => {
                total = next;
            },
            None => {
                proof {
                    lemma_total_size_prefix(all, i + 1);
                }
                return None;
            },
        }
        i += 1;
    }
    assert(all.take(layers@.len() as int) =~= all);
    Some(total)
}

/// The views of a sequence of borrowed descriptors.
pub open spec fn borrowed_views(v: Seq<&Descriptor>) -> Seq<DescriptorView> {
    v.map_values(|d: &Descriptor| d@)
}

/// References to the descriptors of `layers`, in order.
fn borrow_all(layers: &Vec<Descriptor>) -> (out: Vec<&Descriptor>)
    ensures
        borrowed_views(out@) == descriptor_views(layers@),
{
    let mut out: Vec<&Descriptor> = Vec::new();
    let mut i: usize = 0;
    while i < layers.len()
        invariant
            0 <= i <= layers@.len(),
            out@.len() == i,
            forall|j: int| 0 <= j < i ==> out@[j]@ == layers@[j]@,
        decreases layers@.len() - i,
    {
        out.push(&layers[i]);
        i += 1;
    }
    assert(borrowed_views(out@) =~= descriptor_views(layers@));
    out
}

impl Manifest {
    /// The media type of the manifest.
    pub fn media_type(&self) -> (r: &str)
        ensures
            r@ == manifest_media_type(self@),
    {
        match self {
            Manifest::V2(m) => m.media_type.as_str(),
            Manifest::OCI(m) => match &m.media_type {
                Some(t) => t.as_str(),
                None => OCI_MANIFEST_TYPE,
            },
            Manifest::V1(_) => V1_MANIFEST_TYPE,
        }
    }

    /// The layers of the manifest that carry a size.
    pub fn layers(&self) -> (r: Vec<&Descriptor>)
        ensures
            borrowed_views(r@) == manifest_layers(self@),
    {
        match self {
            Manifest::V2(m) => borrow_all(&m.layers),
            Manifest::OCI(m) => borrow_all(&m.layers),
            Manifest::V1(_) => {
                let out: Vec<&Descriptor> = Vec::new();
                assert(borrowed_views(out@) =~= Seq::<DescriptorView>::empty());
                out
            },
        }
    }

    /// The sum of the sizes of the layers, unless it does not fit in a `u64`.
    pub fn checked_total_size(&self) -> (r: Option<u64>)
        ensures
            match r {
                Some(total) => total == total_size_of(manifest_layers(self@)),
                None => total_size_of(manifest_layers(self@)) > u64::MAX,
            },
    {
        match self {
            Manifest::V2(m) => checked_total_size(m.layers.as_slice()),
            Manifest::OCI(m) => checked_total_size(m.layers.as_slice()),
            Manifest::V1(_) => Some(0),
        }
    }

    /// The sum of the sizes of the layers.
    pub fn total_size(&self) -> (r: u64)
        requires
            total_size_of(manifest_layers(self@)) <= u64::MAX,
        ensures
            r == total_size_of(manifest_layers(self@)),
    {
        match self.checked_total_size() {
            Some(total) => total,
            None => 0,
        }
    }
}

} // verus!
