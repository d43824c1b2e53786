//! The data that the registry manager works on.

pub mod cache;
pub mod error;
pub mod manifest;
pub mod registry;

pub use cache::{CacheConfig, CachedData};
pub use error::{ApiRequestInfo, AppError, ErrorCode, ErrorDetails, Theme};
pub use manifest::{
    BlobInfo, CatalogResponse, Descriptor, FsLayer, HistoryEntry, ImageConfig, Manifest,
    ManifestV1, ManifestV2, OciManifest, TagInfo, TagsResponse, V1History,
};
pub use registry::{AuthConfig, ConnectionStatus, RegistryConfig};
