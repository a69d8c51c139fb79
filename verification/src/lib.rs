//! Verified core of an HTTPS proxy that consolidates paginated JSON APIs.
pub mod auth;
pub mod config;
pub mod diagnostics;
pub mod document;
pub mod error;
pub mod falcon;
pub mod headers;
pub mod json;
pub mod query;
pub mod stream;
pub mod stream_laws;
pub mod text;
pub mod view_laws;
