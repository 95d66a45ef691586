//! Fetch-and-cache pipeline for a user's starred repositories.
//!
//! The library holds the verified core of a small command-line tool: the
//! repository record type, a stable descending sort by star count, text
//! encoders for the JSON and TOML export formats, an in-memory model of the
//! on-disk cache, and the decision logic of the cache-or-fetch pipeline.
//! The surrounding binary performs the file, network and terminal work and
//! feeds plain values in and out.

pub mod cache;
pub mod export;
pub mod fetch;
pub mod repo;
pub mod sort;
pub mod text;
