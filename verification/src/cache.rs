use vstd::prelude::*;

use crate::message::MessageId;
use crate::message::RequestMessage;

verus! {

/// The bounded, time-expiring store that correlates a forwarded request's
/// identifier with the original inbound request.
#[verifier::external_type_specification]
#[verifier::external_body]
#[verifier::reject_recursive_types(Key)]
#[verifier::reject_recursive_types(Value)]
pub struct ExLruCache<Key, Value>(lru_time_cache::LruCache<Key, Value>);

/// The cache instantiated as this persona uses it: request identifiers to
/// cached inbound requests.
pub type RequestCache = lru_time_cache::LruCache<MessageId, RequestMessage>;

/// What the cache's backing map holds: one request per identifier. Entries
/// it holds may still be withheld or dropped as expired; the wrappers below
/// say only what is true of every outcome.
pub uninterp spec fn cache_contents(c: RequestCache) -> Map<MessageId, RequestMessage>;

/// The bounds the cache was built with and keeps for life: its time-to-live
/// in seconds and its entry capacity.
pub uninterp spec fn cache_config(c: RequestCache) -> (u64, usize);

/// Relies on lru_time_cache::LruCache::with_expiry_duration_and_capacity:
/// a fresh cache has an empty backing map and carries the given bounds.
#[verifier::external_body]
pub(crate) fn cache_new(ttl_secs: u64, capacity: usize) -> (r: RequestCache)
    ensures
        forall|k: MessageId| !cache_contents(r).contains_key(k),
        cache_config(r) == (ttl_secs, capacity),
{
    lru_time_cache::LruCache::with_expiry_duration_and_capacity(
        std::time::Duration::from_secs(ttl_secs),
        capacity,
    )
}

/// Relies on lru_time_cache::LruCache::insert: after the call the key holds
/// the given value; the returned value, if any, is what the key held before;
/// every other surviving entry is unchanged. Expiry and capacity eviction
/// may drop other entries, so only a containment is claimed for them. The
/// capacity must be positive: on a zero-capacity cache the eviction of the
/// least-recently-used entry inside insert panics.
#[verifier::external_body]
pub(crate) fn cache_insert(c: &mut RequestCache, id: MessageId, request: RequestMessage) -> (r: Option<RequestMessage>)
    requires
        cache_config(*old(c)).1 >= 1,
    ensures
        cache_config(*final(c)) == cache_config(*old(c)),
        cache_contents(*final(c)).contains_key(id),
        cache_contents(*final(c))[id] == request,
        forall|k: MessageId|
            k != id && #[trigger] cache_contents(*final(c)).contains_key(k)
                ==> cache_contents(*old(c)).contains_key(k) && cache_contents(*final(c))[k]
                == cache_contents(*old(c))[k],
        r matches Some(prev) ==> cache_contents(*old(c)).contains_key(id) && prev
            == cache_contents(*old(c))[id],
        !cache_contents(*old(c)).contains_key(id) ==> r is None,
{
    c.insert(id, request)
}

/// Relies on lru_time_cache::LruCache::remove: the entry under the key, if
/// the backing map holds one, is removed and returned; no other entry and
/// neither bound is touched, and expiry plays no part.
#[verifier::external_body]
pub(crate) fn cache_remove(c: &mut RequestCache, id: MessageId) -> (r: Option<RequestMessage>)
    ensures
        cache_config(*final(c)) == cache_config(*old(c)),
        cache_contents(*final(c)) == cache_contents(*old(c)).remove(id),
        r == (if cache_contents(*old(c)).contains_key(id) {
            Some(cache_contents(*old(c))[id])
        } else {
            None::<RequestMessage>
        }),
{
    c.remove(&id)
}

} // verus!
