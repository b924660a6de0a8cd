//! The decisions of an HTTP forward proxy with an on-disk response cache.

pub mod backend;
pub mod cache;
pub mod cache_index;
pub mod cache_laws;
pub mod config;
pub mod config_laws;
pub mod connect_tunnel;
pub mod errors;
pub mod header_map;
pub mod headers;
pub mod http_proxy;
pub mod log_filter;
pub mod message_laws;
pub mod numbers;
pub mod obs;
pub mod policy;
pub mod server;
pub mod text;
pub mod text_laws;
