//! Sizes of layers and manifests.

use crate::models::manifest::{
    checked_total_size, descriptor_views, manifest_layers, total_size_of, Descriptor, Manifest,
};
use vstd::prelude::*;

verus! {

/// The sum of the sizes of `layers`.
pub fn calculate_total_size(layers: &[Descriptor]) -> (r: u64)
    requires
        total_size_of(descriptor_views(layers@)) <= u64::MAX,
    ensures
        r == total_size_of(descriptor_views(layers@)),
{
    match checked_total_size(layers) {
        Some(total) => total,
        None => 0,
    }
}

/// The sum of the sizes of the layers of `manifest`.
pub fn manifest_total_size(manifest: &Manifest) -> (r: u64)
    requires
        total_size_of(manifest_layers(manifest@)) <= u64::MAX,
    ensures
        r == total_size_of(manifest_layers(manifest@)),
{
    manifest.total_size()
}

} // verus!
