//! Resolver and fetcher core for a database-server package installer.
//!
//! The crate models version/channel queries, selects the best matching
//! package from a remote index, and drives a resilient fetch (redirects,
//! bounded backoff-retry) together with an integrity-hashing download,
//! all as verified logic over plain values.  Network and file I/O live
//! outside the crate: callers perform each request or read and hand the
//! observed outcome back to the verified state machines here.

pub mod cloud;
pub mod errors;
pub mod fetch;
pub mod hashing;
pub mod num;
pub mod query;
pub mod repository;
pub mod strutil;
pub mod version;
