//! The registry protocol: requests, responses and errors.

pub mod batch;
pub mod client;
pub mod error;
pub mod wire;

pub use batch::{BatchDeletion, DeletionAction, DeletionResult};
pub use client::{
    find_header_value, parse_link_header, HttpMethod, HttpRequest, HttpResponse, RegistryClient,
};
pub use error::{status_error, ApiError, ApiErrorView};
pub use wire::{decode_catalog, decode_manifest, decode_tags};
