//! Adapter over the external thread-safe associative container.
//!
//! The container under test is `dashmap::DashMap<u64, u64>`, parameterized at
//! construction time by one of two key-hashing strategies: the
//! cryptographically-oriented default (SipHash via `RandomState`) or the
//! faster non-cryptographic `ahash` hasher. The adapter exposes construction,
//! insertion and a size query; its contents are modelled as a mathematical
//! `Map<u64, u64>`.

use vstd::prelude::*;
use dashmap::DashMap;
use std::collections::hash_map::RandomState;
use std::hash::BuildHasherDefault;
use ahash::AHasher;

verus! {

#[verifier::external_type_specification]
#[verifier::external_body]
#[verifier::reject_recursive_types(K)]
#[verifier::reject_recursive_types(V)]
#[verifier::reject_recursive_types(S)]
pub struct ExDashMap<K, V, S>(DashMap<K, V, S>);

#[verifier::external_type_specification]
#[verifier::external_body]
pub struct ExAHasher(AHasher);

#[verifier::external_type_specification]
#[verifier::external_body]
#[verifier::reject_recursive_types(H)]
pub struct ExBuildHasherDefault<H>(BuildHasherDefault<H>);

/// A container keyed with the default (SipHash-based) hasher.
pub type SipMap = DashMap<u64, u64, RandomState>;

/// A container keyed with the faster non-cryptographic ahash hasher.
pub type FastMap = DashMap<u64, u64, BuildHasherDefault<AHasher>>;

/// The contents of a SipHash-keyed container: inserted keys mapped to their
/// most recently inserted values.
pub uninterp spec fn sip_entries(m: SipMap) -> Map<u64, u64>;

/// The contents of an ahash-keyed container: inserted keys mapped to their
/// most recently inserted values.
pub uninterp spec fn fast_entries(m: FastMap) -> Map<u64, u64>;



/// Relies on dashmap::DashMap::insert: maps the key to the value and returns
/// the value previously associated with the key, if there was one.
#[verifier::external_body]
fn sip_insert(m: &mut SipMap, key: u64, value: u64) -> (prev: Option<u64>)
    ensures
        sip_entries(*final(m)) == sip_entries(*old(m)).insert(key, value),
        prev == (if sip_entries(*old(m)).dom().contains(key) {
            Some(sip_entries(*old(m))[key])
        } else {
            Option::<u64>::None
        }),
{
    m.insert(key, value)
}

/// Relies on dashmap::DashMap::insert: maps the key to the value and returns
/// the value previously associated with the key, if there was one.
#[verifier::external_body]
fn fast_insert(m: &mut FastMap, key: u64, value: u64) -> (prev: Option<u64>)
    ensures
        fast_entries(*final(m)) == fast_entries(*old(m)).insert(key, value),
        prev == (if fast_entries(*old(m)).dom().contains(key) {
            Some(fast_entries(*old(m))[key])
        } else {
            Option::<u64>::None
        }),
{
    m.insert(key, value)
}

/// Relies on dashmap::DashMap::len: the number of key-value entries held.
#[verifier::external_body]
fn sip_len(m: &SipMap) -> (n: usize)
    ensures
        n == sip_entries(*m).dom().len(),
{
    m.len()
}

/// Relies on dashmap::DashMap::len: the number of key-value entries held.
#[verifier::external_body]
fn fast_len(m: &FastMap) -> (n: usize)
    ensures
        n == fast_entries(*m).dom().len(),
{
    m.len()
}

/// Which key-hashing strategy a container is built with.
#[derive(Clone, Copy, PartialEq, Eq, Structural, Debug)]
pub enum HashStrategy {
    /// The container's cryptographically-oriented default hasher.
    SipHash,
    /// The faster non-cryptographic ahash hasher.
    AHash,
}

/// A fresh container instance for one trial, keyed by the hashing strategy
/// under test.
pub enum ContainerHandle {
    Sip(SipMap),
    Fast(FastMap),
}

/// Relies on dashmap::DashMap::new: creates an empty map keyed with the
/// default RandomState (SipHash) hasher.
#[verifier::external_body]
fn new_sip_handle(strategy: HashStrategy) -> (r: ContainerHandle)
    requires
        strategy == HashStrategy::SipHash,
    ensures
        (r.entries() == Map::<u64, u64>::empty() && r.strategy() == strategy),
{
    let _ = strategy;
    ContainerHandle::Sip(DashMap::new())
}

/// Relies on dashmap::DashMap::with_hasher: creates an empty map keyed with
/// the given build-hasher, here ahash's hasher with its default keys.
#[verifier::external_body]
fn new_fast_handle(strategy: HashStrategy) -> (r: ContainerHandle)
    requires
        strategy == HashStrategy::AHash,
    ensures
        (r.entries() == Map::<u64, u64>::empty() && r.strategy() == strategy),
{
    let _ = strategy;
    ContainerHandle::Fast(DashMap::with_hasher(BuildHasherDefault::default()))
}

impl ContainerHandle {
    /// The mathematical contents: inserted keys mapped to their most
    /// recently inserted values.
    pub open spec fn entries(self) -> Map<u64, u64> {
        match self {
            ContainerHandle::Sip(m) => sip_entries(m),
            ContainerHandle::Fast(m) => fast_entries(m),
        }
    }

    /// The strategy the container was built with.
    pub open spec fn strategy(self) -> HashStrategy {
        match self {
            ContainerHandle::Sip(_) => HashStrategy::SipHash,
            ContainerHandle::Fast(_) => HashStrategy::AHash,
        }
    }

    /// Builds one fresh, empty container for the given hashing strategy.
    pub fn new(strategy: HashStrategy) -> (c: ContainerHandle)
        ensures
            c.entries() == Map::<u64, u64>::empty(),
            c.entries().dom().finite(),
            c.strategy() == strategy,
    {
        match strategy {
            HashStrategy::SipHash => new_sip_handle(strategy),
            HashStrategy::AHash => new_fast_handle(strategy),
        }
    }

    /// Inserts one pair, returning the updated handle together with the value
    /// previously associated with the key, if any.
    pub fn insert(self, key: u64, value: u64) -> (r: (ContainerHandle, Option<u64>))
        ensures
            r.0.entries() == self.entries().insert(key, value),
            r.0.strategy() == self.strategy(),
            r.1 == (if self.entries().dom().contains(key) {
                Some(self.entries()[key])
            } else {
                Option::<u64>::None
            }),
    {
        match self {
            ContainerHandle::Sip(mut m) => {
                let prev = sip_insert(&mut m, key, value);
                (ContainerHandle::Sip(m), prev)
            },
            ContainerHandle::Fast(mut m) => {
                let prev = fast_insert(&mut m, key, value);
                (ContainerHandle::Fast(m), prev)
            },
        }
    }

    /// The container's observable size: the number of entries it holds.
    pub fn len(&self) -> (n: usize)
        ensures
            n == self.entries().dom().len(),
    {
        match self {
            ContainerHandle::Sip(m) => sip_len(m),
            ContainerHandle::Fast(m) => fast_len(m),
        }
    }
}

} // verus!
