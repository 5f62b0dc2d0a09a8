//! Discovers SSO account/role pairs and merges them, as named profile
//! sections, into an ordered configuration document.

pub mod config_map;
pub mod device_flow;
pub mod discovery;
pub mod merge;
pub mod profile;
pub mod text;
