//! A cache of API answers in a Workers KV namespace, where one is bound.
use vstd::prelude::*;

use worker::kv::KvStore;

verus! {

#[verifier::external_type_specification]
#[verifier::external_body]
pub struct ExKvStore(KvStore);

/// The cache: none, or a KV namespace.
pub enum KvCacheWrapper {
    EmptyWrapper,
    RealWrapper(KvStore),
}

/// The API requests that the cache keeps answers to.
#[derive(Clone, Copy, Debug, PartialEq, Eq, Structural)]
pub enum ApiRequest {
    GetAllEvents,
    GetAnEvent(u32),
    GetEventBorders(u32),
    GetCurrentEventIds(),
    GetAllCards,
    GetACard(u32),
}

impl KvCacheWrapper {
    /// The cache over `kvs`, or none.
    pub fn new(kvs: Option<KvStore>) -> (r: Self)
        ensures
            kvs is None ==> r is EmptyWrapper,
            kvs matches Some(kv) ==> r == KvCacheWrapper::RealWrapper(kv),
    {
        match kvs {
            Some(kv) => KvCacheWrapper::RealWrapper(kv),
            None => KvCacheWrapper::EmptyWrapper,
        }
    }
}

} // verus!
