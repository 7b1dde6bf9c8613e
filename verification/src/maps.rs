//! bevy's hash map (`bevy::utils::HashMap`, a hashbrown map with a fixed
//! ahash hasher), as the registries of the library use it.
//!
//! Verus cannot declare hashbrown's map type itself (its allocator parameter
//! is out of reach), so the map sits in the private field of `BevyMap`, and
//! each instantiation that the library uses gets a name for its contents and
//! a wrapper per method. Everything in this file is trusted: the contracts
//! restate what hashbrown's source and documentation say of `default`, `get`,
//! `get_mut`, `insert`, `remove`, `len` and `keys`.

use bevy::math::Vec2;
use bevy::utils::HashMap;
use vstd::prelude::*;
use crate::clients::ClientData;
use crate::components::InputKeys;

verus! {

/// A `bevy::utils::HashMap<K, V>`, kept whole and out of Verus's sight.
#[verifier::external_body]
#[verifier::reject_recursive_types(K)]
#[verifier::reject_recursive_types(V)]
pub struct BevyMap<K, V> {
    inner: HashMap<K, V>,
}

/// What a map from object ids to client ids holds.
pub uninterp spec fn id_binds(m: BevyMap<u64, u64>) -> Map<u64, u64>;

/// What a map from client ids to client data holds.
pub uninterp spec fn client_entries(m: BevyMap<u64, ClientData>) -> Map<u64, ClientData>;

/// What a map from ordered bot numbers to client ids holds.
pub uninterp spec fn ordered_bots(m: BevyMap<u16, u64>) -> Map<u16, u64>;

/// What a map from client ids to ordered bot numbers holds.
pub uninterp spec fn bot_numbers(m: BevyMap<u64, u16>) -> Map<u64, u16>;

/// What a map from client ids to bot inputs holds.
pub uninterp spec fn bot_inputs(m: BevyMap<u64, InputKeys>) -> Map<u64, InputKeys>;

/// What a map from client ids to flags holds.
pub uninterp spec fn id_flags(m: BevyMap<u64, bool>) -> Map<u64, bool>;

/// What a map from chunks to (object count, has a player, object positions) holds.
pub uninterp spec fn chunk_tallies(m: BevyMap<(u32, u32), (u32, bool, Vec<Vec2>)>) -> Map<
    (u32, u32),
    (u32, bool, Vec<Vec2>),
>;

impl BevyMap<u64, u64> {
    /// `HashMap::default()`: an empty map.
    #[verifier::external_body]
    pub(crate) fn new_binds() -> (r: BevyMap<u64, u64>)
        ensures
            id_binds(r).dom().is_empty(),
    {
        BevyMap { inner: HashMap::default() }
    }

    /// `get`: the value stored under `k`, if any.
    #[verifier::external_body]
    pub(crate) fn get_bind(&self, k: u64) -> (r: Option<u64>)
        ensures
            r == (if id_binds(*self).dom().contains(k) {
                Some(id_binds(*self)[k])
            } else {
                None
            }),
    {
        self.inner.get(&k).copied()
    }

    /// `insert`: `k` now maps to `v`, every other key is untouched.
    #[verifier::external_body]
    pub(crate) fn insert_bind(&mut self, k: u64, v: u64)
        ensures
            id_binds(*final(self)) == id_binds(*old(self)).insert(k, v),
    {
        self.inner.insert(k, v);
    }

    /// `remove`: `k` is gone, every other key is untouched.
    #[verifier::external_body]
    pub(crate) fn remove_bind(&mut self, k: u64)
        ensures
            id_binds(*final(self)) == id_binds(*old(self)).remove(k),
    {
        self.inner.remove(&k);
    }
}

impl BevyMap<u64, ClientData> {
    /// `HashMap::default()`: an empty map.
    #[verifier::external_body]
    pub(crate) fn new_clients() -> (r: BevyMap<u64, ClientData>)
        ensures
            client_entries(r).dom().is_empty(),
    {
        BevyMap { inner: HashMap::default() }
    }

    /// `get`: a reference to the value stored under `k`, if any.
    #[verifier::external_body]
    pub(crate) fn get_client(&self, k: u64) -> (r: Option<&ClientData>)
        ensures
            r == (if client_entries(*self).dom().contains(k) {
                Some(&client_entries(*self)[k])
            } else {
                None
            }),
    {
        self.inner.get(&k)
    }

    /// `get_mut(..).unwrap()` on a present key: a mutable reference to the
    /// value under `k`; what is written through it is what the map then holds.
    #[verifier::external_body]
    pub(crate) fn get_client_mut(&mut self, k: u64) -> (r: &mut ClientData)
        requires
            client_entries(*old(self)).dom().contains(k),
        ensures
            *r == client_entries(*old(self))[k],
            client_entries(*final(self)) == client_entries(*old(self)).insert(k, *final(r)),
    {
        self.inner.get_mut(&k).unwrap()
    }

    /// `insert`: `k` now maps to `v`, every other key is untouched.
    #[verifier::external_body]
    pub(crate) fn insert_client(&mut self, k: u64, v: ClientData)
        ensures
            client_entries(*final(self)) == client_entries(*old(self)).insert(k, v),
    {
        self.inner.insert(k, v);
    }

    /// `remove`: `k` is gone, every other key is untouched; the value that
    /// was stored under `k` comes back.
    #[verifier::external_body]
    pub(crate) fn remove_client(&mut self, k: u64) -> (r: Option<ClientData>)
        ensures
            client_entries(*final(self)) == client_entries(*old(self)).remove(k),
            r == (if client_entries(*old(self)).dom().contains(k) {
                Some(client_entries(*old(self))[k])
            } else {
                None
            }),
    {
        self.inner.remove(&k)
    }
}

impl BevyMap<u16, u64> {
    /// `HashMap::default()`: an empty map.
    #[verifier::external_body]
    pub(crate) fn new_ordered() -> (r: BevyMap<u16, u64>)
        ensures
            ordered_bots(r).dom().is_empty(),
    {
        BevyMap { inner: HashMap::default() }
    }

    /// `get`: a reference to the value stored under `k`, if any.
    #[verifier::external_body]
    pub(crate) fn get_ordered(&self, k: u16) -> (r: Option<&u64>)
        ensures
            r == (if ordered_bots(*self).dom().contains(k) {
                Some(&ordered_bots(*self)[k])
            } else {
                None
            }),
    {
        self.inner.get(&k)
    }

    /// `insert`: `k` now maps to `v`, every other key is untouched.
    #[verifier::external_body]
    pub(crate) fn insert_ordered(&mut self, k: u16, v: u64)
        ensures
            ordered_bots(*final(self)) == ordered_bots(*old(self)).insert(k, v),
    {
        self.inner.insert(k, v);
    }

    /// `remove`: `k` is gone, every other key is untouched.
    #[verifier::external_body]
    pub(crate) fn remove_ordered(&mut self, k: u16)
        ensures
            ordered_bots(*final(self)) == ordered_bots(*old(self)).remove(k),
    {
        self.inner.remove(&k);
    }

    /// `len`: the number of keys.
    #[verifier::external_body]
    pub(crate) fn len_ordered(&self) -> (r: usize)
        ensures
            r == ordered_bots(*self).dom().len(),
    {
        self.inner.len()
    }
}

impl BevyMap<u64, u16> {
    /// `HashMap::default()`: an empty map.
    #[verifier::external_body]
    pub(crate) fn new_numbers() -> (r: BevyMap<u64, u16>)
        ensures
            bot_numbers(r).dom().is_empty(),
    {
        BevyMap { inner: HashMap::default() }
    }

    /// `get`: the value stored under `k`, if any.
    #[verifier::external_body]
    pub(crate) fn get_number(&self, k: u64) -> (r: Option<u16>)
        ensures
            r == (if bot_numbers(*self).dom().contains(k) {
                Some(bot_numbers(*self)[k])
            } else {
                None
            }),
    {
        self.inner.get(&k).copied()
    }

    /// `insert`: `k` now maps to `v`, every other key is untouched.
    #[verifier::external_body]
    pub(crate) fn insert_number(&mut self, k: u64, v: u16)
        ensures
            bot_numbers(*final(self)) == bot_numbers(*old(self)).insert(k, v),
    {
        self.inner.insert(k, v);
    }

    /// `remove`: `k` is gone, every other key is untouched.
    #[verifier::external_body]
    pub(crate) fn remove_number(&mut self, k: u64)
        ensures
            bot_numbers(*final(self)) == bot_numbers(*old(self)).remove(k),
    {
        self.inner.remove(&k);
    }

    /// `keys().copied().collect()`: every key once, in the map's own order,
    /// which nothing here states.
    #[verifier::external_body]
    pub(crate) fn number_keys(&self) -> (r: Vec<u64>)
        ensures
            r@.no_duplicates(),
            r@.to_set() == bot_numbers(*self).dom(),
    {
        self.inner.keys().copied().collect()
    }
}

impl BevyMap<u64, InputKeys> {
    /// `HashMap::default()`: an empty map.
    #[verifier::external_body]
    pub(crate) fn new_inputs() -> (r: BevyMap<u64, InputKeys>)
        ensures
            bot_inputs(r).dom().is_empty(),
    {
        BevyMap { inner: HashMap::default() }
    }

    /// `get`: a reference to the value stored under `k`, if any.
    #[verifier::external_body]
    pub(crate) fn get_input(&self, k: u64) -> (r: Option<&InputKeys>)
        ensures
            r == (if bot_inputs(*self).dom().contains(k) {
                Some(&bot_inputs(*self)[k])
            } else {
                None
            }),
    {
        self.inner.get(&k)
    }

    /// `insert`: `k` now maps to `v`, every other key is untouched.
    #[verifier::external_body]
    pub(crate) fn insert_input(&mut self, k: u64, v: InputKeys)
        ensures
            bot_inputs(*final(self)) == bot_inputs(*old(self)).insert(k, v),
    {
        self.inner.insert(k, v);
    }
}

impl BevyMap<u64, bool> {
    /// `HashMap::default()`: an empty map.
    #[verifier::external_body]
    pub(crate) fn new_flags() -> (r: BevyMap<u64, bool>)
        ensures
            id_flags(r).dom().is_empty(),
    {
        BevyMap { inner: HashMap::default() }
    }

    /// `get`: the value stored under `k`, if any.
    #[verifier::external_body]
    pub(crate) fn get_flag(&self, k: u64) -> (r: Option<bool>)
        ensures
            r == (if id_flags(*self).dom().contains(k) {
                Some(id_flags(*self)[k])
            } else {
                None
            }),
    {
        self.inner.get(&k).copied()
    }

    /// `insert`: `k` now maps to `v`, every other key is untouched.
    #[verifier::external_body]
    pub(crate) fn insert_flag(&mut self, k: u64, v: bool)
        ensures
            id_flags(*final(self)) == id_flags(*old(self)).insert(k, v),
    {
        self.inner.insert(k, v);
    }
}

impl BevyMap<(u32, u32), (u32, bool, Vec<Vec2>)> {
    /// `HashMap::default()`: an empty map.
    #[verifier::external_body]
    pub(crate) fn new_tallies() -> (r: BevyMap<(u32, u32), (u32, bool, Vec<Vec2>)>)
        ensures
            chunk_tallies(r).dom().is_empty(),
    {
        BevyMap { inner: HashMap::default() }
    }

    /// `get`: a reference to the value stored under `k`, if any.
    #[verifier::external_body]
    pub(crate) fn get_tally(&self, k: (u32, u32)) -> (r: Option<&(u32, bool, Vec<Vec2>)>)
        ensures
            r == (if chunk_tallies(*self).dom().contains(k) {
                Some(&chunk_tallies(*self)[k])
            } else {
                None
            }),
    {
        self.inner.get(&k)
    }

    /// `insert`: `k` now maps to `v`, every other key is untouched.
    #[verifier::external_body]
    pub(crate) fn insert_tally(&mut self, k: (u32, u32), v: (u32, bool, Vec<Vec2>))
        ensures
            chunk_tallies(*final(self)) == chunk_tallies(*old(self)).insert(k, v),
    {
        self.inner.insert(k, v);
    }

    /// `remove`: `k` is gone and its value comes back; every other key is
    /// untouched.
    #[verifier::external_body]
    pub(crate) fn remove_tally(&mut self, k: (u32, u32)) -> (r: Option<(u32, bool, Vec<Vec2>)>)
        ensures
            chunk_tallies(*final(self)) == chunk_tallies(*old(self)).remove(k),
            r == (if chunk_tallies(*old(self)).dom().contains(k) {
                Some(chunk_tallies(*old(self))[k])
            } else {
                None
            }),
    {
        self.inner.remove(&k)
    }
}

} // verus!
