//! Companion library: discovery of a locally running game client's API
//! endpoint, preparation of authenticated requests to it, and the decision
//! steps of an on-disk image cache.

pub mod text;
pub mod image_cache;
pub mod lcu;
pub mod client;
pub mod commands;
