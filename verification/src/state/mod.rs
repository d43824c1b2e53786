//! The state of the application.

pub mod app_state;

pub use app_state::AppState;
