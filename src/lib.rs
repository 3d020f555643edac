//! A book catalogue's core: a cache-aside store with its key and TTL policy,
//! and a search subsystem with a local pattern matcher and a remote ranked
//! engine behind one gateway.
pub mod cache_aside;
pub mod json;
pub mod keys;
pub mod layout;
pub mod local_search;
pub mod models;
pub mod paging;
pub mod pattern;
pub mod reindex;
pub mod response;
pub mod search;
pub mod store;
pub mod text;
