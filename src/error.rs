//! What can go wrong while one request is handled or the cache is kept.
use vstd::prelude::*;

verus! {

/// The ways a request, a classification or the cache's upkeep can fail.
#[derive(Clone, Copy, Debug, PartialEq, Eq, Structural)]
pub enum ProxyError {
    /// The datagram is not a DNS message.
    Decode,
    /// The message holds no question.
    NoQuestion,
    /// The domain name has too few labels for the classification rule.
    InvalidDomain,
    /// The registration lookup failed or its answer could not be read.
    RemoteLookupFailed,
    /// No credential for the registration lookup is configured.
    MissingCredential,
    /// The upstream resolver could not be reached or answered badly.
    Forward,
    /// The snapshot file could not be read, parsed or written.
    CacheIo,
}

} // verus!
