//! Core of a container registry manager: challenge parsing, credential
//! resolution, the registry protocol, and an encrypted credential vault.

pub mod api;
pub mod auth;
pub mod codec;
pub mod json;
pub mod keyed;
pub mod models;
pub mod presentation;
pub mod state;
pub mod storage;
pub mod text;
pub mod utils;
