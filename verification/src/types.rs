//! The canister's data: its metadata, the registered middleware instances and
//! the counter from which instance ids are drawn.

pub mod custom_return_types;
pub mod errors;
pub mod management;
pub mod middleware_instance;

use ic_stable_structures::memory_manager::VirtualMemory;
use ic_stable_structures::{DefaultMemoryImpl, StableBTreeMap, StableCell};
use vstd::prelude::*;

use self::errors::MiddlewareError;
use self::middleware_instance::{MiddlewareInstance, MiddlewareInstanceView};

verus! {

/// The canister's metadata. It has no fields yet.
#[derive(Debug, Clone, Copy, PartialEq, Eq)]
pub struct Metadata {}

/// An update of [`Metadata`]. It has no fields yet.
#[derive(Debug, Clone, Copy, PartialEq, Eq)]
pub struct UpdateMetadata {}

impl Metadata {
    /// Applies an update. With no fields on either side, nothing changes.
    pub fn update(&mut self, _update: UpdateMetadata)
        ensures
            *final(self) == *old(self),
    {
    }
}

/// The cell in the canister's stable memory that holds the metadata in its
/// CBOR encoding: a `StableCell` of ic-stable-structures. It is opened on its
/// memory where the canister's memories are managed.
#[verifier::external_body]
pub struct MetadataCell {
    pub cell: StableCell<Vec<u8>, VirtualMemory<DefaultMemoryImpl>>,
}

/// The bytes that the cell holds.
pub uninterp spec fn cell_contents(c: MetadataCell) -> Seq<u8>;

impl View for MetadataCell {
    type V = Seq<u8>;

    open spec fn view(&self) -> Seq<u8> {
        cell_contents(*self)
    }
}

impl MetadataCell {
    /// Reads the cell with `StableCell::get`.
    /// Trusted: it returns a copy of the bytes that the cell holds.
    #[verifier::external_body]
    pub(crate) fn get(&self) -> (res: Vec<u8>)
        ensures
            res@ == cell_contents(*self),
    {
        self.cell.get().clone()
    }
}

/// The middleware instances kept in the canister's stable memory, by id: a
/// `StableBTreeMap` of ic-stable-structures that holds each instance as its
/// id, the bytes of its canister's principal and its user. It is opened on its
/// memory where the canister's memories are managed.
#[verifier::external_body]
pub struct MiddlewareMap {
    pub map: StableBTreeMap<u64, (u64, Vec<u8>, String), VirtualMemory<DefaultMemoryImpl>>,
}

/// The value of an entry of the map.
pub open spec fn entry_view(e: (u64, Vec<u8>, String)) -> MiddlewareInstanceView {
    (e.0, e.1@, e.2@)
}

/// What the map holds.
pub uninterp spec fn map_contents(m: MiddlewareMap) -> Map<u64, MiddlewareInstanceView>;

impl View for MiddlewareMap {
    type V = Map<u64, MiddlewareInstanceView>;

    open spec fn view(&self) -> Map<u64, MiddlewareInstanceView> {
        map_contents(*self)
    }
}

impl MiddlewareMap {
    /// Inserts an entry with `StableBTreeMap::insert`.
    /// Trusted: the entry replaces what was under the key; the old value is
    /// returned. It panics when the stable memory cannot grow, which is not
    /// stated.
    #[verifier::external_body]
    pub(crate) fn insert(&mut self, key: u64, value: (u64, Vec<u8>, String)) -> (res: Option<
        (u64, Vec<u8>, String),
    >)
        ensures
            map_contents(*final(self)) == map_contents(*old(self)).insert(key, entry_view(value)),
            match res {
                Some(v) => map_contents(*old(self)).contains_key(key) && entry_view(v) == map_contents(
                    *old(self),
                )[key],
                None => !map_contents(*old(self)).contains_key(key),
            },
    {
        self.map.insert(key, value)
    }

    /// Reads the entry under a key with `StableBTreeMap::get`.
    /// Trusted: it returns a copy of the entry, if there is one.
    #[verifier::external_body]
    pub(crate) fn get(&self, key: u64) -> (res: Option<(u64, Vec<u8>, String)>)
        ensures
            match res {
                Some(v) => map_contents(*self).contains_key(key) && entry_view(v) == map_contents(
                    *self,
                )[key],
                None => !map_contents(*self).contains_key(key),
            },
    {
        self.map.get(&key)
    }

    /// Removes the entry under a key with `StableBTreeMap::remove`.
    /// Trusted: the key is gone afterwards; the old value is returned.
    #[verifier::external_body]
    pub(crate) fn remove(&mut self, key: u64) -> (res: Option<(u64, Vec<u8>, String)>)
        ensures
            map_contents(*final(self)) == map_contents(*old(self)).remove(key),
            match res {
                Some(v) => map_contents(*old(self)).contains_key(key) && entry_view(v) == map_contents(
                    *old(self),
                )[key],
                None => !map_contents(*old(self)).contains_key(key),
            },
    {
        self.map.remove(&key)
    }

    /// All entries, from `StableBTreeMap::iter`.
    /// Trusted: every entry once, in increasing order of keys.
    #[verifier::external_body]
    pub(crate) fn entries(&self) -> (res: Vec<(u64, (u64, Vec<u8>, String))>)
        ensures
            res@.len() == map_contents(*self).dom().len(),
            forall|i: int, j: int| 0 <= i < j < res@.len() ==> res@[i].0 < res@[j].0,
            forall|i: int|
                0 <= i < res@.len() ==> map_contents(*self).contains_key(#[trigger] res@[i].0)
                    && entry_view(res@[i].1) == map_contents(*self)[res@[i].0],
            forall|k: u64|
                map_contents(*self).contains_key(k) ==> exists|i: int|
                    0 <= i < res@.len() && #[trigger] res@[i].0 == k,
    {
        self.map.iter().collect()
    }
}

/// The whole state of the canister.
pub struct State {
    /// The metadata, CBOR-encoded, in its cell.
    pub metadata: MetadataCell,
    /// The registered middleware instances, keyed by their id.
    pub middlewares: MiddlewareMap,
    /// The last id handed out (0 before the first one).
    pub id_counter: u64,
}

/// What looking an id up in the registered instances gives: the instance's
/// value, or `MiddlewareNotFound` with the id.
pub open spec fn lookup(m: Map<u64, MiddlewareInstanceView>, id: u64) -> Result<
    MiddlewareInstanceView,
    MiddlewareError,
> {
    if m.contains_key(id) {
        Ok(m[id])
    } else {
        Err(MiddlewareError::MiddlewareNotFound(id))
    }
}

/// The registered instances after inserting each of `s` in turn under its own
/// id (a later one replaces an earlier one with the same id).
pub open spec fn insert_all(m: Map<u64, MiddlewareInstanceView>, s: Seq<MiddlewareInstance>) -> Map<
    u64,
    MiddlewareInstanceView,
>
    decreases s.len(),
{
    if s.len() == 0 {
        m
    } else {
        insert_all(m, s.drop_last()).insert(s.last().id, s.last()@)
    }
}

/// Whether every registered instance is registered under its own id.
pub open spec fn well_keyed(m: Map<u64, MiddlewareInstanceView>) -> bool {
    forall|k: u64| #[trigger] m.contains_key(k) ==> m[k].0 == k
}

impl State {
    /// A fresh state over the metadata and the instances kept in stable
    /// memory, with the counter at 0.
    pub fn new(metadata: MetadataCell, middlewares: MiddlewareMap) -> (res: State)
        ensures
            res.metadata == metadata,
            res.middlewares@ == middlewares@,
            res.id_counter == 0,
    {
        State { metadata, middlewares, id_counter: 0 }
    }

    /// The instance registered under `id`.
    pub fn get_middleware_instance(&self, id: u64) -> (res: Result<MiddlewareInstance, MiddlewareError>)
        ensures
            match res {
                Ok(inst) => lookup(self.middlewares@, id) == Ok::<MiddlewareInstanceView, MiddlewareError>(inst@),
                Err(e) => lookup(self.middlewares@, id) == Err::<MiddlewareInstanceView, MiddlewareError>(e),
            },
    {
        match self.middlewares.get(id) {
            Some(entry) => {
                let (inst_id, canister_id, user) = entry;
                Ok(MiddlewareInstance { id: inst_id, canister_id, user })
            },
            None => Err(MiddlewareError::MiddlewareNotFound(id)),
        }
    }
}

} // verus!

verus! {

/// Once an instance is registered under an id, looking the id up gives it,
/// and every other id looks up as before.
pub proof fn lookup_after_register(
    m: Map<u64, MiddlewareInstanceView>,
    id: u64,
    inst: MiddlewareInstanceView,
)
    ensures
        lookup(m.insert(id, inst), id) == Ok::<MiddlewareInstanceView, MiddlewareError>(inst),
        forall|k: u64| k != id ==> #[trigger] lookup(m.insert(id, inst), k) == lookup(m, k),
{
}

/// Once the instance under an id is removed, looking the id up gives
/// `MiddlewareNotFound`, and every other id looks up as before.
pub proof fn lookup_after_unregister(m: Map<u64, MiddlewareInstanceView>, id: u64)
    ensures
        lookup(m.remove(id), id) == Err::<MiddlewareInstanceView, MiddlewareError>(
            MiddlewareError::MiddlewareNotFound(id),
        ),
        forall|k: u64| k != id ==> #[trigger] lookup(m.remove(id), k) == lookup(m, k),
{
}

/// Registering a list of instances keeps every instance under its own id.
pub proof fn register_all_keeps_keys(m: Map<u64, MiddlewareInstanceView>, s: Seq<MiddlewareInstance>)
    requires
        well_keyed(m),
    ensures
        well_keyed(insert_all(m, s)),
    decreases s.len(),
{
    if s.len() > 0 {
        register_all_keeps_keys(m, s.drop_last());
    }
}

/// After registering a list of instances, each is found under its id unless a
/// later one in the list has the same id; ids that no instance of the list has
/// look up as before.
pub proof fn lookup_after_register_all(m: Map<u64, MiddlewareInstanceView>, s: Seq<MiddlewareInstance>)
    ensures
        forall|i: int|
            0 <= i < s.len() && (forall|j: int| i < j < s.len() ==> s[j].id != s[i].id) ==> lookup(
                #[trigger] insert_all(m, s),
                s[i].id,
            ) == Ok::<MiddlewareInstanceView, MiddlewareError>(s[i]@),
        forall|k: u64|
            (forall|j: int| 0 <= j < s.len() ==> s[j].id != k) ==> #[trigger] lookup(
                insert_all(m, s),
                k,
            ) == lookup(m, k),
    decreases s.len(),
{
    if s.len() > 0 {
        let init = s.drop_last();
        lookup_after_register_all(m, init);
        assert forall|i: int|
            0 <= i < s.len() && (forall|j: int| i < j < s.len() ==> s[j].id != s[i].id) implies lookup(
            #[trigger] insert_all(m, s),
            s[i].id,
        ) == Ok::<MiddlewareInstanceView, MiddlewareError>(s[i]@) by {
            if i < s.len() - 1 {
                assert(s[s.len() - 1].id != s[i].id);
                assert(init[i] == s[i]);
                assert(forall|j: int| i < j < init.len() ==> init[j] == s[j]);
            }
        }
        assert forall|k: u64| (forall|j: int| 0 <= j < s.len() ==> s[j].id != k) implies #[trigger] lookup(
            insert_all(m, s),
            k,
        ) == lookup(m, k) by {
            assert(s[s.len() - 1].id != k);
            assert(forall|j: int| 0 <= j < init.len() ==> init[j] == s[j]);
            assert(lookup(insert_all(m, init), k) == lookup(m, k));
            assert(insert_all(m, s) == insert_all(m, init).insert(s.last().id, s.last()@));
        }
    }
}

} // verus!
