//! Helpers for what the application shows: sizes, filters, orders, commands
//! and exports.

pub mod curl;
pub mod export;
pub mod filter;
pub mod history;
pub mod order;
pub mod size;
pub mod sort;

pub use curl::{create_request_info, generate_curl_command, generate_curl_command_from_info};
pub use export::{
    contains_credentials, export_contains_all_tags, export_registries, export_tags_csv,
    export_tags_json, from_exported, import_registries, parse_auth_type, to_exported,
    ExportedRegistryConfig,
};
pub use filter::{filter_strings, filter_strings_owned};
pub use history::{
    is_history_sorted_chronologically, sort_history_chronologically,
    sorted_history_chronologically,
};
pub use size::{calculate_total_size, manifest_total_size};
pub use sort::{is_sorted_alphabetically, sort_alphabetically, sorted_alphabetically};
