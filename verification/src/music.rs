//! Manages all the current players in the app: a concurrent map from
//! caller-assigned string keys to independently lockable players. The map
//! supports insert, remove, lookup and enumeration without a single
//! global lock serializing unrelated players; each entry is shared
//! through a reference-counted reader/writer lock, so removing a key
//! releases only the registry's reference.

use vstd::prelude::*;

use crate::player::Player;
use dashmap::DashMap;
use std::collections::hash_map::RandomState;
use std::sync::Arc;
use std::sync::RwLock;

verus! {

#[verifier::external_type_specification]
#[verifier::external_body]
#[verifier::reject_recursive_types(T)]
pub struct ExRwLock<T: ?Sized>(RwLock<T>);

#[verifier::external_type_specification]
#[verifier::external_body]
#[verifier::reject_recursive_types(K)]
#[verifier::reject_recursive_types(V)]
#[verifier::reject_recursive_types(S)]
pub struct ExDashMap<K, V, S>(DashMap<K, V, S>);

/// The shared, clonable handle to one registered player's lock wrapper.
pub type PlayerHandle = Arc<RwLock<Player>>;

type RegistryMap = DashMap<String, PlayerHandle, RandomState>;

/// What a registry map holds: the key-to-entry mapping.
pub uninterp spec fn registry_contents(
    m: RegistryMap,
) -> Map<Seq<char>, PlayerHandle>;

/// Relies on dashmap::DashMap::new: a freshly created map holds no entry.
#[verifier::external_body]
fn registry_map_new() -> (r: RegistryMap)
    ensures
        registry_contents(r) == (Map::<Seq<char>, PlayerHandle>::empty()),
{
    DashMap::new()
}

/// Relies on dashmap::DashMap::insert: maps the key to the value,
/// replacing whatever entry the key had.
#[verifier::external_body]
fn registry_map_insert(
    m: &mut RegistryMap,
    key: String,
    value: PlayerHandle,
)
    ensures
        registry_contents(*final(m)) == registry_contents(*old(m)).insert(key@, value),
{
    m.insert(key, value);
}

/// Relies on dashmap::DashMap::remove: drops the key's entry; a map
/// without the key is left unchanged.
#[verifier::external_body]
fn registry_map_remove(m: &mut RegistryMap, key: &str)
    ensures
        registry_contents(*final(m)) == registry_contents(*old(m)).remove(key@),
{
    m.remove(key);
}

/// Relies on dashmap::DashMap::get: hands back the entry under the key,
/// if there is one; the shared handle is cloned out of the read guard.
#[verifier::external_body]
fn registry_map_get(
    m: &RegistryMap,
    key: &str,
) -> (r: Option<PlayerHandle>)
    ensures
        match r {
            Some(v) => registry_contents(*m).dom().contains(key@) && registry_contents(*m)[key@]
                == v,
            None => !registry_contents(*m).dom().contains(key@),
        },
{
    m.get(key).map(|entry| Arc::clone(entry.value()))
}

/// Relies on dashmap::DashMap::iter: yields each entry of the map exactly
/// once; keys and handles are cloned out of the guards.
#[verifier::external_body]
fn registry_map_entries(m: &RegistryMap) -> (r: Vec<(String, PlayerHandle)>)
    ensures
        forall|i: int|
            #![trigger r@[i]]
            0 <= i < r@.len() ==> registry_contents(*m).dom().contains(r@[i].0@)
                && registry_contents(*m)[r@[i].0@] == r@[i].1,
        forall|k: Seq<char>| #[trigger]
            registry_contents(*m).dom().contains(k) ==> exists|i: int|
                0 <= i < r@.len() && #[trigger] r@[i].0@ == k,
        forall|i: int, j: int|
            #![trigger r@[i], r@[j]]
            0 <= i < j < r@.len() ==> r@[i].0@ != r@[j].0@,
{
    m.iter().map(|entry| (entry.key().clone(), Arc::clone(entry.value()))).collect()
}

/// Relies on std::sync::RwLock::new: wraps the player for independent
/// shared-or-exclusive locking. Nothing is claimed of what the lock
/// holds.
#[verifier::external_body]
fn player_lock_new(player: Player) -> (l: RwLock<Player>) {
    RwLock::new(player)
}

/// The registry of named players. Its view is the map from key to the
/// shared lock wrapper registered under it.
pub struct Music {
    players: RegistryMap,
}

impl View for Music {
    type V = Map<Seq<char>, PlayerHandle>;

    closed spec fn view(&self) -> Map<Seq<char>, PlayerHandle> {
        registry_contents(self.players)
    }
}

impl Music {
    /// A fresh registry holds no players.
    pub fn new() -> (r: Music)
        ensures
            r@ == (Map::<Seq<char>, PlayerHandle>::empty()),
    {
        Music { players: registry_map_new() }
    }

    /// Adds a player to the app memory under `key`, wrapped for
    /// independent locking. An entry the key already had is overwritten
    /// and released, never merged; every other key keeps its entry.
    pub fn add_player(&mut self, key: String, player: Player)
        ensures
            exists|w: PlayerHandle| final(self)@ == #[trigger] old(self)@.insert(key@, w),
            final(self)@.dom() == old(self)@.dom().insert(key@),
    {
        let lock = Arc::new(player_lock_new(player));
        registry_map_insert(&mut self.players, key, lock);
    }

    /// Removes the key's entry, releasing the registry's reference to it;
    /// a key that is absent is no error. In-flight borrowers of the entry
    /// keep their shared handle until they drop it.
    pub fn remove_player(&mut self, key: &str)
        ensures
            final(self)@ == old(self)@.remove(key@),
    {
        registry_map_remove(&mut self.players, key);
    }

    /// Looks up the shared lock wrapper registered under the key, without
    /// locking the player itself; `None` iff the key has no entry.
    pub fn get_player(&self, key: &str) -> (r: Option<PlayerHandle>)
        ensures
            match r {
                Some(v) => self@.dom().contains(key@) && self@[key@] == v,
                None => !self@.dom().contains(key@),
            },
    {
        registry_map_get(&self.players, key)
    }

    /// A snapshot of all (key, lock wrapper) pairs at the moment of the
    /// call: each registered key exactly once, with its entry; later
    /// mutations of the registry are not reflected in it.
    pub fn list_players(&self) -> (r: Vec<(String, PlayerHandle)>)
        ensures
            forall|i: int|
                #![trigger r@[i]]
                0 <= i < r@.len() ==> self@.dom().contains(r@[i].0@) && self@[r@[i].0@] == r@[i].1,
            forall|k: Seq<char>| #[trigger]
                self@.dom().contains(k) ==> exists|i: int|
                    0 <= i < r@.len() && #[trigger] r@[i].0@ == k,
            forall|i: int, j: int|
                #![trigger r@[i], r@[j]]
                0 <= i < j < r@.len() ==> r@[i].0@ != r@[j].0@,
    {
        registry_map_entries(&self.players)
    }
}

} // verus!
