//! Configuration-snapshot client: a bearer-token cache with expiry-aware
//! reuse, and a page-draining protocol for paginated JSON collections.
//! Network I/O is performed by the caller; this crate decides what to send
//! and what each reply means.

pub mod json;
pub mod http;
pub mod pagination;
pub mod auth;
pub mod model;
pub mod snapshot;
