//! Verified core of a lyrics fetcher: URL construction from song metadata,
//! extraction of lyrics fragments from provider responses, normalization of
//! scraped HTML into plain text, and the source-by-source fetch orchestration.
//!
//! Network access, configuration files, tag reading and all other I/O live
//! outside this crate; the functions here are pure transformations with
//! proved contracts.

pub mod config;
pub mod error;
pub mod extract;
pub mod fetcher;
pub mod fetchers;
pub mod laws;
pub mod orchestrator;
pub mod scan;
pub mod text;
pub mod url;
