//! Authentication: challenge parsing and credential resolution.

pub mod challenge;
pub mod handler;
pub mod params;
pub mod rendering;

pub use challenge::{parse_www_authenticate, AuthChallenge};
pub use handler::{can_make_header, decode_basic_auth, get_auth_header, get_auth_type, AuthType};
pub use params::ParamMap;
