//! Durable regions, counters and tables, kept by `ic-stable-structures`.
//!
//! Each type here holds a value of that crate in a field that Verus does not
//! see. They are made only inside this crate, by `Store::open`, so that no
//! two of them share a region. What the crate does with it is stated over two names: the value that a
//! counter holds and the entries that a table holds.
use ic_stable_structures::memory_manager::{MemoryId, MemoryManager, VirtualMemory};
use ic_stable_structures::{Cell, DefaultMemoryImpl, StableBTreeMap};
use vstd::prelude::*;

verus! {

/// The durable store, split into regions addressed by small integers.
#[verifier::external_body]
pub(crate) struct Regions {
    manager: MemoryManager<DefaultMemoryImpl>,
}

/// One region of the durable store.
#[verifier::external_body]
pub(crate) struct Region {
    memory: VirtualMemory<DefaultMemoryImpl>,
}

/// A durable `u64`.
#[verifier::external_body]
pub struct Counter {
    cell: Cell<u64, VirtualMemory<DefaultMemoryImpl>>,
}

/// A durable ordered map from `u64` keys to byte strings.
#[verifier::external_body]
pub struct Table {
    map: StableBTreeMap<u64, Vec<u8>, VirtualMemory<DefaultMemoryImpl>>,
}

/// The value that a counter holds.
pub uninterp spec fn counter_value(c: Counter) -> u64;

/// The entries that a table holds.
pub uninterp spec fn table_entries(t: Table) -> Map<u64, Seq<u8>>;

/// The identifier at which regions are no longer addressable.
pub const REGION_LIMIT: u8 = 255;

impl Regions {
    /// Relies on `MemoryManager::init` over the default memory: it loads the
    /// regions that the memory holds, or lays out new ones.
    #[verifier::external_body]
    pub(crate) fn open() -> (r: Regions) {
        Regions { manager: MemoryManager::init(DefaultMemoryImpl::default()) }
    }

    /// Relies on `MemoryManager::get`: the region with identifier `id`.
    /// `MemoryId::new` refuses the identifier `REGION_LIMIT`.
    #[verifier::external_body]
    pub(crate) fn region(&self, id: u8) -> (r: Region)
        requires
            id < REGION_LIMIT,
    {
        Region { memory: self.manager.get(MemoryId::new(id)) }
    }
}

impl Counter {
    /// Relies on `Cell::init`: it loads the value that the region holds, or
    /// writes `0` to a region that holds none; `None` where that fails.
    #[verifier::external_body]
    pub(crate) fn init(region: Region) -> (r: Option<Counter>) {
        match Cell::init(region.memory, 0u64) {
            Ok(cell) => Some(Counter { cell }),
            Err(_) => None,
        }
    }

    /// Relies on `Cell::get`: the value held.
    #[verifier::external_body]
    pub(crate) fn get(&self) -> (r: u64)
        ensures
            r == counter_value(*self),
    {
        *self.cell.get()
    }

    /// Relies on `Cell::set`: the cell holds `v` afterwards. It fails only on
    /// a value longer than `u32::MAX` bytes or on a region that must grow; a
    /// `u64` is eight bytes, and `Cell::init` already gave the region a page.
    #[verifier::external_body]
    pub(crate) fn set(&mut self, v: u64) -> (r: bool)
        ensures
            r,
            counter_value(*final(self)) == v,
    {
        self.cell.set(v).is_ok()
    }
}

impl Table {
    /// Relies on `StableBTreeMap::init`: it loads the map that the region
    /// holds, or lays out an empty one.
    #[verifier::external_body]
    pub(crate) fn init(region: Region) -> (r: Table) {
        Table { map: StableBTreeMap::init(region.memory) }
    }

    /// Relies on `StableBTreeMap::insert`: `key` maps to `value` afterwards,
    /// and the previous value at `key` is returned.
    #[verifier::external_body]
    pub(crate) fn insert(&mut self, key: u64, value: Vec<u8>) -> (r: Option<Vec<u8>>)
        ensures
            table_entries(*final(self)) == table_entries(*old(self)).insert(key, value@),
            r is Some <==> table_entries(*old(self)).contains_key(key),
            r matches Some(v) ==> v@ == table_entries(*old(self))[key],
    {
        self.map.insert(key, value)
    }

    /// Relies on `StableBTreeMap::get`: the value at `key`, if any.
    #[verifier::external_body]
    pub(crate) fn get(&self, key: u64) -> (r: Option<Vec<u8>>)
        ensures
            r is Some <==> table_entries(*self).contains_key(key),
            r matches Some(v) ==> v@ == table_entries(*self)[key],
    {
        self.map.get(&key)
    }

    /// Relies on `StableBTreeMap::remove`: `key` is absent afterwards, and
    /// the value it had is returned.
    #[verifier::external_body]
    pub(crate) fn remove(&mut self, key: u64) -> (r: Option<Vec<u8>>)
        ensures
            table_entries(*final(self)) == table_entries(*old(self)).remove(key),
            r is Some <==> table_entries(*old(self)).contains_key(key),
            r matches Some(v) ==> v@ == table_entries(*old(self))[key],
    {
        self.map.remove(&key)
    }

    /// Relies on `StableBTreeMap::iter`: every entry once, in ascending order
    /// of keys.
    #[verifier::external_body]
    pub(crate) fn entries(&self) -> (r: Vec<(u64, Vec<u8>)>)
        ensures
            forall|i: int, j: int| 0 <= i < j < r@.len() ==> r@[i].0 < r@[j].0,
            forall|i: int|
                0 <= i < r@.len() ==> table_entries(*self).contains_key(#[trigger] r@[i].0)
                    && table_entries(*self)[r@[i].0] == r@[i].1@,
            forall|k: u64|
                table_entries(*self).contains_key(k) ==> exists|i: int|
                    0 <= i < r@.len() && #[trigger] r@[i].0 == k,
    {
        self.map.iter().collect()
    }
}

} // verus!
