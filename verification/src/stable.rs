//! Stable memory: what survives a restart.
//!
//! The tables and cells of the store are those of the crate
//! `ic_stable_structures`, held over byte strings. Verus cannot look into them:
//! this module says what each of their operations does, as their source shows
//! it, and the rest of the crate is proved from what it says. What it says of
//! them is not proved.
//!
//! The three types that hold them are opaque to Verus, because the types of
//! `ic_stable_structures` are bounded by traits that Verus does not know.

use std::io::Read;
use vstd::prelude::*;
use ic_stable_structures::memory_manager::{MemoryId, MemoryManager, VirtualMemory};
use ic_stable_structures::reader::Reader;
use ic_stable_structures::writer::Writer;
use ic_stable_structures::{Cell, DefaultMemoryImpl, StableBTreeMap};

verus! {

/// Whether `a` comes before `b` in the order of byte strings: the order of the
/// first byte in which they differ, a proper prefix coming first.
pub open spec fn bytes_lt(a: Seq<u8>, b: Seq<u8>) -> bool
    decreases a.len(),
{
    if b.len() == 0 {
        false
    } else if a.len() == 0 {
        true
    } else if a[0] != b[0] {
        a[0] < b[0]
    } else {
        bytes_lt(a.drop_first(), b.drop_first())
    }
}

/// The keys and values of a list of entries.
pub open spec fn entry_views(entries: Seq<(Vec<u8>, Vec<u8>)>) -> Seq<(Seq<u8>, Seq<u8>)> {
    Seq::new(entries.len(), |i: int| (entries[i].0@, entries[i].1@))
}

/// Whether `entries` lists `contents`: every entry of the map once, in the
/// ascending order of the keys.
pub open spec fn is_listing(
    entries: Seq<(Seq<u8>, Seq<u8>)>,
    contents: Map<Seq<u8>, Seq<u8>>,
) -> bool {
    &&& forall|i: int, j: int|
        0 <= i < j < entries.len() ==> bytes_lt(#[trigger] entries[i].0, #[trigger] entries[j].0)
    &&& forall|i: int|
        0 <= i < entries.len() ==> contents.contains_pair(
            (#[trigger] entries[i]).0,
            entries[i].1,
        )
    &&& forall|k: Seq<u8>|
        contents.contains_key(k) ==> exists|i: int|
            0 <= i < entries.len() && (#[trigger] entries[i]).0 == k
}

/// The contents of an empty table.
pub open spec fn no_entries() -> Map<Seq<u8>, Seq<u8>> {
    Map::empty()
}

/// The stable memory of the store, divided into numbered regions by a
/// `MemoryManager`.
#[verifier::external_body]
pub struct StableMemory {
    memory: DefaultMemoryImpl,
    manager: MemoryManager<DefaultMemoryImpl>,
}

/// A table from byte strings to byte strings in a region of stable memory: a
/// `StableBTreeMap<Vec<u8>, Vec<u8>, _>`.
#[verifier::external_body]
pub struct ByteTable {
    inner: StableBTreeMap<Vec<u8>, Vec<u8>, VirtualMemory<DefaultMemoryImpl>>,
}

/// One byte string in a region of stable memory: a `Cell<Vec<u8>, _>`.
#[verifier::external_body]
pub struct ByteCell {
    inner: Cell<Vec<u8>, VirtualMemory<DefaultMemoryImpl>>,
}

/// What a table holds.
pub uninterp spec fn table_contents(table: ByteTable) -> Map<Seq<u8>, Seq<u8>>;

/// What a cell holds.
pub uninterp spec fn cell_contents(cell: ByteCell) -> Seq<u8>;

impl View for ByteTable {
    type V = Map<Seq<u8>, Seq<u8>>;

    open spec fn view(&self) -> Map<Seq<u8>, Seq<u8>> {
        table_contents(*self)
    }
}

impl View for ByteCell {
    type V = Seq<u8>;

    open spec fn view(&self) -> Seq<u8> {
        cell_contents(*self)
    }
}

impl StableMemory {
    /// Calls `DefaultMemoryImpl::default` and `MemoryManager::init` on the
    /// outcome. In a canister this is the one stable memory; elsewhere a new,
    /// empty one. Nothing is promised of what it holds.
    #[verifier::external_body]
    pub(crate) fn attach() -> (memory: StableMemory) {
        let memory = DefaultMemoryImpl::default();
        StableMemory { manager: MemoryManager::init(memory.clone()), memory }
    }

    /// Reads the whole memory through a `Reader`, writes what was read to
    /// another memory through a `Writer`, and calls `MemoryManager::init` on
    /// that one. Nothing is promised of what it holds.
    #[verifier::external_body]
    pub(crate) fn copy(&self) -> (memory: StableMemory) {
        let mut bytes = Vec::new();
        let _ = Reader::new(&self.memory, 0).read_to_end(&mut bytes);
        let mut memory = DefaultMemoryImpl::default();
        let _ = Writer::new(&mut memory, 0).write(&bytes);
        StableMemory { manager: MemoryManager::init(memory.clone()), memory }
    }
}

impl StableMemory {
    /// The stable memory of this process: in a canister the one stable memory,
    /// with whatever it holds; elsewhere a new, empty one. A process takes it
    /// once: what is built in it owns its regions alone.
    pub fn new() -> (memory: StableMemory) {
        Self::attach()
    }
}

/// The memory that something was built in, kept for taking copies of it.
pub struct Backing {
    memory: StableMemory,
}

impl Backing {
    /// Keeps a memory.
    pub(crate) fn keep(memory: StableMemory) -> (backing: Backing)
        ensures
            backing.kept() == memory,
    {
        Backing { memory }
    }

    /// A copy of the memory as it stands: what a process that started now
    /// would find. The copy is a memory of its own; in a canister, where there
    /// is one stable memory and no other, none can be taken.
    pub fn memory_copy(&self) -> (memory: StableMemory) {
        self.memory.copy()
    }

    /// The memory that is kept.
    pub closed spec fn kept(&self) -> StableMemory {
        self.memory
    }
}

impl ByteTable {
    /// Calls `StableBTreeMap::new` on a region, which writes an empty table
    /// over whatever the region held. `MemoryId::new` panics on 255.
    #[verifier::external_body]
    pub(crate) fn create(memory: &StableMemory, region: u8) -> (table: ByteTable)
        requires
            region != 255,
        ensures
            table_contents(table) == no_entries(),
    {
        ByteTable { inner: StableBTreeMap::new(memory.manager.get(MemoryId::new(region))) }
    }

    /// Calls `StableBTreeMap::init` on a region, which loads the table that the
    /// region holds, or writes an empty one where it holds none. What is
    /// loaded depends on the memory: only that it is finite is promised. On a
    /// region that holds a table of a layout that it does not know, `init`
    /// panics.
    #[verifier::external_body]
    pub(crate) fn load(memory: &StableMemory, region: u8) -> (table: ByteTable)
        requires
            region != 255,
        ensures
            table_contents(table).dom().finite(),
    {
        ByteTable { inner: StableBTreeMap::init(memory.manager.get(MemoryId::new(region))) }
    }

    /// Calls `StableBTreeMap::get`: the value under the key, if there is one.
    #[verifier::external_body]
    pub(crate) fn get(&self, key: &Vec<u8>) -> (value: Option<Vec<u8>>)
        ensures
            value is Some <==> table_contents(*self).contains_key(key@),
            value matches Some(v) ==> v@ == table_contents(*self)[key@],
    {
        self.inner.get(key)
    }

    /// Calls `StableBTreeMap::contains_key`.
    #[verifier::external_body]
    pub(crate) fn contains_key(&self, key: &Vec<u8>) -> (found: bool)
        ensures
            found == table_contents(*self).contains_key(key@),
    {
        self.inner.contains_key(key)
    }

    /// Calls `StableBTreeMap::insert`: the key holds the value afterwards, and
    /// the value that it held before is returned. The table writes the length
    /// of a key and of a value in 32 bits, so longer ones are left out.
    #[verifier::external_body]
    pub(crate) fn insert(&mut self, key: Vec<u8>, value: Vec<u8>) -> (previous: Option<Vec<u8>>)
        requires
            key@.len() <= u32::MAX,
            value@.len() <= u32::MAX,
        ensures
            table_contents(*final(self)) == table_contents(*old(self)).insert(key@, value@),
            previous is Some <==> table_contents(*old(self)).contains_key(key@),
            previous matches Some(v) ==> v@ == table_contents(*old(self))[key@],
    {
        self.inner.insert(key, value)
    }

    /// Calls `StableBTreeMap::remove`: the key holds nothing afterwards, and the
    /// value that it held before is returned.
    #[verifier::external_body]
    pub(crate) fn remove(&mut self, key: &Vec<u8>) -> (previous: Option<Vec<u8>>)
        ensures
            table_contents(*final(self)) == table_contents(*old(self)).remove(key@),
            previous is Some <==> table_contents(*old(self)).contains_key(key@),
            previous matches Some(v) ==> v@ == table_contents(*old(self))[key@],
    {
        self.inner.remove(key)
    }

    /// Calls `StableBTreeMap::len`: the number of keys.
    #[verifier::external_body]
    pub(crate) fn len(&self) -> (count: u64)
        ensures
            count == table_contents(*self).dom().len(),
    {
        self.inner.len()
    }

    /// Calls `StableBTreeMap::iter` and collects what it yields: every entry
    /// once, in the ascending order of the keys, which for `Vec<u8>` is the
    /// order of the first differing byte.
    #[verifier::external_body]
    pub(crate) fn entries(&self) -> (entries: Vec<(Vec<u8>, Vec<u8>)>)
        ensures
            is_listing(entry_views(entries@), table_contents(*self)),
    {
        self.inner.iter().map(|entry| entry.into_pair()).collect()
    }

    /// Calls `StableBTreeMap::clear_new`, which removes every entry.
    #[verifier::external_body]
    pub(crate) fn clear(&mut self)
        ensures
            table_contents(*final(self)) == no_entries(),
    {
        self.inner.clear_new()
    }
}

impl ByteCell {
    /// Calls `Cell::new` on a region, which writes the value over whatever the
    /// region held. `MemoryId::new` panics on 255, and `Cell::new` on a value
    /// of more than `u32::MAX` bytes.
    #[verifier::external_body]
    pub(crate) fn create(memory: &StableMemory, region: u8, value: Vec<u8>) -> (cell: ByteCell)
        requires
            region != 255,
            value@.len() <= u32::MAX,
        ensures
            cell_contents(cell) == value@,
    {
        ByteCell { inner: Cell::new(memory.manager.get(MemoryId::new(region)), value) }
    }

    /// Calls `Cell::init` on a region, which loads the value that the region
    /// holds, or writes `default` where it holds none. What is loaded depends
    /// on the memory: nothing is promised of it. On a region that holds a cell
    /// of a layout that it does not know, `init` panics.
    #[verifier::external_body]
    pub(crate) fn load(memory: &StableMemory, region: u8, default: Vec<u8>) -> (cell: ByteCell)
        requires
            region != 255,
            default@.len() <= u32::MAX,
    {
        ByteCell { inner: Cell::init(memory.manager.get(MemoryId::new(region)), default) }
    }

    /// Calls `Cell::get` and copies the value.
    #[verifier::external_body]
    pub(crate) fn get(&self) -> (value: Vec<u8>)
        ensures
            value@ == cell_contents(*self),
    {
        self.inner.get().clone()
    }

    /// Calls `Cell::set`: the cell holds the value afterwards. `Cell::set`
    /// panics on a value of more than `u32::MAX` bytes.
    #[verifier::external_body]
    pub(crate) fn set(&mut self, value: Vec<u8>)
        requires
            value@.len() <= u32::MAX,
        ensures
            cell_contents(*final(self)) == value@,
    {
        self.inner.set(value);
    }
}

} // verus!
