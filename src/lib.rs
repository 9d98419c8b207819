//! Domain classification and request decisions for a DNS-over-HTTPS
//! forwarding proxy.
//!
//! Each datagram's first question is classified as domestic or not: names
//! under `cn` are domestic, names under neither `com` nor `net` are not, and
//! `com`/`net` names take a cached verdict or need a registration lookup,
//! whose answer is then recorded in the cache. The verdict picks the
//! resolver that the query is forwarded to.

pub mod cache;
pub mod domain;
pub mod error;
pub mod json;
pub mod request;
