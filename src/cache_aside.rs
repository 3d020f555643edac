//! The cache-aside read path as a state machine: look in the cache; on a
//! miss read the source of truth; store what was found with the default
//! time-to-live; answer. A cache that fails or holds an undecodable value
//! counts as a miss, so the cache can only ever make a read faster.
use vstd::prelude::*;
use crate::keys::TTL_SECS;

verus! {

/// What a cache lookup came back with.
#[derive(Debug, Clone, Copy, PartialEq, Eq, Structural)]
pub enum CacheReply {
    /// A stored value that decoded.
    Hit,
    /// Nothing stored, or a stored value that failed to decode.
    Miss,
    /// The store could not be reached.
    Unavailable,
}

/// What the source of truth came back with.
#[derive(Debug, Clone, Copy, PartialEq, Eq, Structural)]
pub enum SourceReply {
    Found,
    NotFound,
    Failed,
}

/// What the read path does next.
#[derive(Debug, Clone, Copy, PartialEq, Eq, Structural)]
pub enum ReadAction {
    /// Answer with the cached value.
    AnswerCached,
    /// Read the source of truth.
    ReadSource,
    /// Store the value found for `ttl_secs` seconds (a failure to store is
    /// ignored), then answer with it.
    StoreAndAnswer { ttl_secs: u64 },
    /// Answer that the entity does not exist.
    AnswerNotFound,
    /// Answer that the read failed.
    AnswerError,
}

/// How a lookup reads: a value that is there and decodes is a hit; a value
/// that is absent or fails to decode is a miss.
pub fn classify_lookup(stored: bool, decoded: bool) -> (r: CacheReply)
    ensures
        r == (if stored && decoded {
            CacheReply::Hit
        } else {
            CacheReply::Miss
        }),
{
    if stored && decoded {
        CacheReply::Hit
    } else {
        CacheReply::Miss
    }
}

/// The step after the cache answered.
pub fn after_cache(reply: CacheReply) -> (r: ReadAction)
    ensures
        reply == CacheReply::Hit ==> r == ReadAction::AnswerCached,
        reply != CacheReply::Hit ==> r == ReadAction::ReadSource,
{
    match reply {
        CacheReply::Hit => ReadAction::AnswerCached,
        CacheReply::Miss => ReadAction::ReadSource,
        CacheReply::Unavailable => ReadAction::ReadSource,
    }
}

/// The step after the source of truth answered.
pub fn after_source(reply: SourceReply) -> (r: ReadAction)
    ensures
        reply == SourceReply::Found ==> r == (ReadAction::StoreAndAnswer { ttl_secs: TTL_SECS }),
        reply == SourceReply::NotFound ==> r == ReadAction::AnswerNotFound,
        reply == SourceReply::Failed ==> r == ReadAction::AnswerError,
{
    match reply {
        SourceReply::Found => ReadAction::StoreAndAnswer { ttl_secs: TTL_SECS },
        SourceReply::NotFound => ReadAction::AnswerNotFound,
        SourceReply::Failed => ReadAction::AnswerError,
    }
}

} // verus!
