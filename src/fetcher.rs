//! The decisions of a cache-first fetch. The caller performs each action
//! (read the cache, fetch over the network, write the cache) and hands back
//! what happened; the next action follows from that alone.
use vstd::prelude::*;
use crate::caches::CacheKey;

verus! {

/// What happened since the last action.
pub enum FetchEvent {
    /// Nothing yet: the fetch begins.
    Start,
    /// The cache held this text.
    CacheHit(String),
    /// The cache held nothing under the key.
    CacheMiss,
    /// The network gave this text (a description of the failure, when it
    /// failed).
    Fetched(String),
    /// This text was written to the cache; `ok` tells whether the write
    /// succeeded.
    Written { text: String, ok: bool },
}

/// What to do next.
pub enum FetchAction {
    ReadCache(CacheKey),
    Fetch,
    Write(CacheKey, String),
    /// The fetch is over: this is the page.
    Return(String),
}

pub open spec fn same_key(a: CacheKey, b: CacheKey) -> bool {
    a.bucket@ == b.bucket@ && a.name@ == b.name@
}

fn copy_key(key: &CacheKey) -> (r: CacheKey)
    ensures
        same_key(r, *key),
{
    CacheKey { bucket: key.bucket.clone(), name: key.name.clone() }
}

/// The next step of fetching the page cached under `key`: read the cache
/// first; return what it holds; on a miss fetch, write what came back through
/// to the cache, and return it whether or not the write succeeded.
pub fn fetch_step(key: &CacheKey, ev: FetchEvent) -> (a: FetchAction)
    ensures
        ev is Start ==> (a matches FetchAction::ReadCache(k) && same_key(k, *key)),
        ev matches FetchEvent::CacheHit(x) ==> (a matches FetchAction::Return(y) && y@ == x@),
        ev is CacheMiss ==> a is Fetch,
        ev matches FetchEvent::Fetched(x) ==> (a matches FetchAction::Write(k, y) && same_key(
            k,
            *key,
        ) && y@ == x@),
        ev matches FetchEvent::Written { text, .. } ==> (a matches FetchAction::Return(y) && y@
            == text@),
{
    match ev {
        FetchEvent::Start => FetchAction::ReadCache(copy_key(key)),
        FetchEvent::CacheHit(text) => FetchAction::Return(text),
        FetchEvent::CacheMiss => FetchAction::Fetch,
        FetchEvent::Fetched(text) => FetchAction::Write(copy_key(key), text),
        FetchEvent::Written { text, .. } => FetchAction::Return(text),
    }
}

} // verus!
