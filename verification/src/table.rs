//! A table of records of one kind, each under its key.
//!
//! The table keeps the encoded records in a [`ByteTable`]. Its view is a map
//! from keys to the views of the records; its listing is the list of those
//! views in the ascending order of the keys.

use core::marker::PhantomData;
use vstd::prelude::*;
pub use crate::codec::views;
use crate::codec::{
    decode, decoding, encode, encoding, lemma_round_trip, storable, MAX_KEY_BYTES, MAX_RECORD_BYTES,
};
use crate::order::{lemma_listing_exists, lemma_listing_unique};
use crate::records::Keyed;
use crate::stable::{bytes_lt, entry_views, is_listing, ByteTable, StableMemory};

verus! {

/// Whether every entry of `m` is the encoding of a record, stored under the key
/// of that record.
pub open spec fn sound<R: Keyed>(m: Map<Seq<u8>, Seq<u8>>) -> bool {
    &&& m.dom().finite()
    &&& forall|k: Seq<u8>| #[trigger]
        m.contains_key(k) ==> {
            &&& k.len() <= MAX_KEY_BYTES
            &&& m[k].len() <= MAX_RECORD_BYTES
            &&& decoding::<R>(m[k]) is Some
            &&& R::key_of(decoding::<R>(m[k])->0) == k
            &&& encoding::<R>(decoding::<R>(m[k])->0) == m[k]
        }
}

/// The records that the entries of `m` denote.
pub open spec fn decoded<R: Keyed>(m: Map<Seq<u8>, Seq<u8>>) -> Map<Seq<u8>, R::V> {
    Map::new(|k: Seq<u8>| m.contains_key(k), |k: Seq<u8>| decoding::<R>(m[k])->0)
}

/// The entries of `m` in the ascending order of the keys.
pub open spec fn listing_of(m: Map<Seq<u8>, Seq<u8>>) -> Seq<(Seq<u8>, Seq<u8>)> {
    choose|s: Seq<(Seq<u8>, Seq<u8>)>| is_listing(s, m)
}

/// The table that holds the given records, each under its own key, a later
/// record in place of an earlier one with the same key.
pub open spec fn table_of<R: Keyed>(records: Seq<R::V>) -> Map<Seq<u8>, R::V>
    decreases records.len(),
{
    if records.len() == 0 {
        Map::empty()
    } else {
        table_of::<R>(records.drop_last()).insert(R::key_of(records.last()), records.last())
    }
}

/// Whether no two records of a list have the same key.
pub open spec fn distinct_keys<R: Keyed>(records: Seq<R::V>) -> bool {
    forall|i: int, j: int|
        0 <= i < j < records.len() ==> R::key_of(#[trigger] records[i]) != R::key_of(
            #[trigger] records[j],
        )
}

/// The table of a list of records with distinct keys holds exactly the
/// records of the list.
pub proof fn lemma_table_of_distinct<R: Keyed>(records: Seq<R::V>)
    requires
        distinct_keys::<R>(records),
    ensures
        table_of::<R>(records).dom().finite(),
        forall|k: Seq<u8>| #[trigger]
            table_of::<R>(records).contains_key(k) ==> exists|j: int|
                0 <= j < records.len() && R::key_of(#[trigger] records[j]) == k,
        forall|j: int|
            0 <= j < records.len() ==> table_of::<R>(records).contains_pair(
                R::key_of(#[trigger] records[j]),
                records[j],
            ),
    decreases records.len(),
{
    if records.len() > 0 {
        let rest = records.drop_last();
        let last = records.last();
        assert(distinct_keys::<R>(rest)) by {
            assert forall|i: int, j: int| 0 <= i < j < rest.len() implies R::key_of(
                #[trigger] rest[i],
            ) != R::key_of(#[trigger] rest[j]) by {
                assert(rest[i] == records[i] && rest[j] == records[j]);
            }
        }
        lemma_table_of_distinct::<R>(rest);
        let all = table_of::<R>(records);
        assert forall|k: Seq<u8>| #[trigger] all.contains_key(k) implies exists|j: int|
            0 <= j < records.len() && R::key_of(#[trigger] records[j]) == k by {
            if k == R::key_of(last) {
                assert(R::key_of(records[records.len() - 1]) == k);
            } else {
                assert(table_of::<R>(rest).contains_key(k));
                let j = choose|j: int| 0 <= j < rest.len() && R::key_of(#[trigger] rest[j]) == k;
                assert(rest[j] == records[j]);
            }
        }
        assert forall|j: int| 0 <= j < records.len() implies all.contains_pair(
            R::key_of(#[trigger] records[j]),
            records[j],
        ) by {
            if j < records.len() - 1 {
                assert(rest[j] == records[j]);
                assert(table_of::<R>(rest).contains_pair(R::key_of(rest[j]), rest[j]));
                assert(R::key_of(records[j]) != R::key_of(records[records.len() - 1]));
            }
        }
    }
}

/// Whether the store takes the record under its own key: it can be written and
/// its key is not too long.
pub open spec fn admissible<R: Keyed>(v: R::V) -> bool {
    storable::<R>(v) && R::key_of(v).len() <= MAX_KEY_BYTES
}

/// A table of records of the kind `R`.
pub struct Table<R: Keyed> {
    bytes: ByteTable,
    kind: PhantomData<R>,
}

impl<R: Keyed> View for Table<R> {
    type V = Map<Seq<u8>, R::V>;

    closed spec fn view(&self) -> Map<Seq<u8>, R::V> {
        decoded::<R>(self.bytes@)
    }
}

impl<R: Keyed> Table<R> {
    /// Whether the table is well formed: it holds finitely many entries, and
    /// each is a record stored under its own key.
    pub closed spec fn wf(&self) -> bool {
        sound::<R>(self.bytes@)
    }

    /// The records of the table in the ascending order of their keys.
    pub closed spec fn listing(&self) -> Seq<R::V> {
        Seq::new(
            listing_of(self.bytes@).len(),
            |i: int| decoding::<R>(listing_of(self.bytes@)[i].1)->0,
        )
    }

    /// What holds of a well-formed table: it is finite, and every record in it
    /// is admissible and stored under its own key.
    pub proof fn lemma_wf(&self)
        requires
            self.wf(),
        ensures
            self@.dom().finite(),
            forall|k: Seq<u8>| #[trigger]
                self@.contains_key(k) ==> R::key_of(self@[k]) == k && admissible::<R>(self@[k]),
    {
        assert(self@.dom() =~= self.bytes@.dom());
        assert forall|k: Seq<u8>| #[trigger] self@.contains_key(k) implies R::key_of(self@[k])
            == k && admissible::<R>(self@[k]) by {
            assert(self.bytes@.contains_key(k));
            R::lemma_of_fields_valid(
                crate::frames::unframe(self.bytes@[k].skip(1))->0,
            );
        }
    }

    /// What the listing is: every record of the table once, in the strictly
    /// ascending order of the keys.
#[verifier::rlimit(50)]
    pub proof fn lemma_listing(&self)
        requires
            self.wf(),
        ensures
            self.listing().len() == self@.dom().len(),
            forall|i: int, j: int|
                0 <= i < j < self.listing().len() ==> bytes_lt(
                    R::key_of(#[trigger] self.listing()[i]),
                    R::key_of(#[trigger] self.listing()[j]),
                ),
            forall|i: int|
                0 <= i < self.listing().len() ==> self@.contains_pair(
                    R::key_of(#[trigger] self.listing()[i]),
                    self.listing()[i],
                ),
            forall|k: Seq<u8>|
                self@.contains_key(k) ==> exists|i: int|
                    0 <= i < self.listing().len() && #[trigger] self.listing()[i] == self@[k],
    {
        let m = self.bytes@;
        let s = listing_of(m);
        lemma_listing_exists(m);
        assert(is_listing(s, m));
        let l = self.listing();
        assert forall|i: int| 0 <= i < l.len() implies R::key_of(#[trigger] l[i]) == s[i].0
            && self@.contains_pair(s[i].0, l[i]) by {
            assert(m.contains_pair(s[i].0, s[i].1));
        }
        assert forall|i: int, j: int| 0 <= i < j < l.len() implies bytes_lt(
            R::key_of(#[trigger] l[i]),
            R::key_of(#[trigger] l[j]),
        ) by {
            assert(bytes_lt(s[i].0, s[j].0));
        }
        assert forall|k: Seq<u8>| self@.contains_key(k) implies exists|i: int|
            0 <= i < l.len() && #[trigger] l[i] == self@[k] by {
            assert(m.contains_key(k));
            let i = choose|i: int| 0 <= i < s.len() && (#[trigger] s[i]).0 == k;
            assert(m.contains_pair(s[i].0, s[i].1));
            assert(l[i] == self@[k]);
        }
        lemma_listing_len(s, m);
        assert(self@.dom() =~= m.dom());
    }

    /// A table is the table of its listing: storing the records of the listing
    /// one after the other in an empty table gives the table back.
    pub proof fn lemma_table_of_listing(&self)
        requires
            self.wf(),
        ensures
            distinct_keys::<R>(self.listing()),
            table_of::<R>(self.listing()) == self@,
            forall|i: int|
                0 <= i < self.listing().len() ==> admissible::<R>(#[trigger] self.listing()[i]),
    {
        self.lemma_listing();
        self.lemma_wf();
        let l = self.listing();
        assert forall|i: int, j: int| 0 <= i < j < l.len() implies R::key_of(#[trigger] l[i])
            != R::key_of(#[trigger] l[j]) by {
            assert(bytes_lt(R::key_of(l[i]), R::key_of(l[j])));
            crate::order::lemma_lt_irreflexive(R::key_of(l[i]));
        }
        lemma_table_of_distinct::<R>(l);
        let built = table_of::<R>(l);
        assert forall|k: Seq<u8>| built.contains_key(k) <==> self@.contains_key(k) by {
            if built.contains_key(k) {
                let j = choose|j: int| 0 <= j < l.len() && R::key_of(#[trigger] l[j]) == k;
                assert(self@.contains_pair(R::key_of(l[j]), l[j]));
            }
            if self@.contains_key(k) {
                let i = choose|i: int| 0 <= i < l.len() && #[trigger] l[i] == self@[k];
                assert(built.contains_pair(R::key_of(l[i]), l[i]));
            }
        }
        assert forall|k: Seq<u8>| built.contains_key(k) implies built[k] == self@[k] by {
            let i = choose|i: int| 0 <= i < l.len() && #[trigger] l[i] == self@[k];
            assert(built.contains_pair(R::key_of(l[i]), l[i]));
        }
        assert(built =~= self@);
        assert forall|i: int| 0 <= i < l.len() implies admissible::<R>(#[trigger] l[i]) by {
            assert(self@.contains_pair(R::key_of(l[i]), l[i]));
        }
    }

    /// A new, empty table in a region of stable memory, written over whatever
    /// the region held.
    pub(crate) fn create(memory: &StableMemory, region: u8) -> (table: Table<R>)
        requires
            region != 255,
        ensures
            table.wf(),
            table@ == Map::<Seq<u8>, R::V>::empty(),
            table.listing() == Seq::<R::V>::empty(),
    {
        let bytes = ByteTable::create(memory, region);
        let table = Table { bytes, kind: PhantomData };
        proof {
            assert(table@ =~= Map::<Seq<u8>, R::V>::empty());
            let none = Seq::<(Seq<u8>, Seq<u8>)>::empty();
            assert(is_listing(none, table.bytes@));
            lemma_listing_unique(none, listing_of(table.bytes@), table.bytes@);
            assert(table.listing() =~= Seq::<R::V>::empty());
        }
        table
    }

    /// The table that a region of stable memory holds. `None` where an entry
    /// of it is no record of the kind `R` stored under its own key.
#[verifier::rlimit(50)]
    pub(crate) fn open(memory: &StableMemory, region: u8) -> (table: Option<Table<R>>)
        requires
            region != 255,
        ensures
            table matches Some(t) ==> t.wf(),
    {
        Self::adopt(ByteTable::load(memory, region))
    }

    /// Takes a table of byte strings for a table of records. Every entry is
    /// read once: the table is taken where every entry of it is the encoding
    /// of a record of the kind `R`, stored under the key of that record, and
    /// refused otherwise. The table that is taken holds those records.
    #[verifier::rlimit(50)]
    pub fn adopt(bytes: ByteTable) -> (table: Option<Table<R>>)
        ensures
            table is Some <==> sound::<R>(bytes@),
            table matches Some(t) ==> t.wf() && t@ == decoded::<R>(bytes@),
    {
        let entries = bytes.entries();
        let ghost listed = entry_views(entries@);
        proof {
            lemma_listing_len(listed, bytes@);
        }
        let mut i: usize = 0;
        while i < entries.len()
            invariant
                i <= entries.len(),
                listed == entry_views(entries@),
                is_listing(listed, bytes@),
                forall|j: int|
                    0 <= j < i ==> {
                        &&& (#[trigger] listed[j]).0.len() <= MAX_KEY_BYTES
                        &&& listed[j].1.len() <= MAX_RECORD_BYTES
                        &&& decoding::<R>(listed[j].1) is Some
                        &&& R::key_of(decoding::<R>(listed[j].1)->0) == listed[j].0
                        &&& encoding::<R>(decoding::<R>(listed[j].1)->0) == listed[j].1
                    },
            decreases entries.len() - i,
        {
            let key = &entries[i].0;
            let value = &entries[i].1;
            assert(listed[i as int] == (key@, value@));
            assert(bytes@.contains_pair(listed[i as int].0, listed[i as int].1));
            if key.len() > MAX_KEY_BYTES || value.len() > MAX_RECORD_BYTES {
                return None;
            }
            match decode::<R>(value.as_slice()) {
                Some(record) => {
                    let own = record.key();
                    if !crate::principal::bytes_equal(own.as_slice(), key.as_slice()) {
                        return None;
                    }
                    match encode::<R>(&record) {
                        Some(again) => {
                            if !crate::principal::bytes_equal(again.as_slice(), value.as_slice()) {
                                return None;
                            }
                        },
                        None => {
                            return None;
                        },
                    }
                },
                None => {
                    return None;
                },
            }
            i += 1;
        }
        let table = Table { bytes, kind: PhantomData };
        proof {
            let m = table.bytes@;
            assert forall|k: Seq<u8>| #[trigger] m.contains_key(k) implies {
                &&& k.len() <= MAX_KEY_BYTES
                &&& m[k].len() <= MAX_RECORD_BYTES
                &&& decoding::<R>(m[k]) is Some
                &&& R::key_of(decoding::<R>(m[k])->0) == k
                &&& encoding::<R>(decoding::<R>(m[k])->0) == m[k]
            } by {
                let j = choose|j: int| 0 <= j < listed.len() && (#[trigger] listed[j]).0 == k;
                assert(m.contains_pair(listed[j].0, listed[j].1));
            }
        }
        Some(table)
    }

    /// The record under a key, if there is one.
    pub fn get(&self, key: &Vec<u8>) -> (record: Option<R>)
        requires
            self.wf(),
        ensures
            record is Some <==> self@.contains_key(key@),
            record matches Some(r) ==> r@ == self@[key@],
    {
        match self.bytes.get(key) {
            Some(bytes) => decode::<R>(bytes.as_slice()),
            None => None,
        }
    }

    /// Whether there is a record under a key.
    pub fn contains_key(&self, key: &Vec<u8>) -> (found: bool)
        requires
            self.wf(),
        ensures
            found == self@.contains_key(key@),
    {
        self.bytes.contains_key(key)
    }

    /// Stores a record under its own key, in place of the record that was
    /// there if there was one. Nothing is stored, and `false` returned, where
    /// the record is not admissible.
#[verifier::rlimit(50)]
    pub fn put(&mut self, record: &R) -> (stored: bool)
        requires
            old(self).wf(),
        ensures
            final(self).wf(),
            stored <==> admissible::<R>(record@),
            stored ==> final(self)@ == old(self)@.insert(R::key_of(record@), record@),
            !stored ==> final(self)@ == old(self)@,
    {
        let key = record.key();
        if key.len() > MAX_KEY_BYTES {
            return false;
        }
        match encode::<R>(record) {
            Some(bytes) => {
                proof {
                    lemma_round_trip::<R>(record@);
                }
                let ghost before = self.bytes@;
                let _ = self.bytes.insert(key, bytes);
                proof {
                    let after = self.bytes@;
                    assert(after.dom() =~= before.dom().insert(key@));
                    assert(decoded::<R>(after) =~= decoded::<R>(before).insert(
                        R::key_of(record@),
                        record@,
                    ));
                }
                true
            },
            None => false,
        }
    }

    /// Removes the record under a key and returns it, if there was one.
    pub fn remove(&mut self, key: &Vec<u8>) -> (record: Option<R>)
        requires
            old(self).wf(),
        ensures
            final(self).wf(),
            final(self)@ == old(self)@.remove(key@),
            record is Some <==> old(self)@.contains_key(key@),
            record matches Some(r) ==> r@ == old(self)@[key@],
    {
        let ghost before = self.bytes@;
        let previous = self.bytes.remove(key);
        proof {
            let after = self.bytes@;
            assert(after.dom() =~= before.dom().remove(key@));
            assert(decoded::<R>(after) =~= decoded::<R>(before).remove(key@));
        }
        match previous {
            Some(bytes) => decode::<R>(bytes.as_slice()),
            None => None,
        }
    }

    /// The number of records.
    pub fn count(&self) -> (count: u64)
        requires
            self.wf(),
        ensures
            count == self@.dom().len(),
    {
        assert(self@.dom() =~= self.bytes@.dom());
        self.bytes.len()
    }

    /// Every record, in the ascending order of the keys.
#[verifier::rlimit(50)]
    pub fn list(&self) -> (records: Vec<R>)
        requires
            self.wf(),
        ensures
            views(records@) == self.listing(),
    {
        let entries = self.bytes.entries();
        let ghost listed = entry_views(entries@);
        proof {
            lemma_listing_unique(listed, listing_of(self.bytes@), self.bytes@);
        }
        let mut records: Vec<R> = Vec::new();
        let mut i: usize = 0;
        while i < entries.len()
            invariant
                i <= entries.len(),
                self.wf(),
                listed == entry_views(entries@),
                listed == listing_of(self.bytes@),
                is_listing(listed, self.bytes@),
                records@.len() == i,
                forall|j: int| 0 <= j < i ==> (#[trigger] records@[j])@ == self.listing()[j],
            decreases entries.len() - i,
        {
            let value = &entries[i].1;
            assert(listed[i as int] == (entries@[i as int].0@, value@));
            assert(self.bytes@.contains_pair(listed[i as int].0, listed[i as int].1));
            records.push(decode::<R>(value.as_slice()).unwrap());
            i += 1;
        }
        assert(views(records@) =~= self.listing());
        records
    }

    /// Removes every record.
    pub fn clear(&mut self)
        ensures
            final(self).wf(),
            final(self)@ == Map::<Seq<u8>, R::V>::empty(),
    {
        self.bytes.clear();
        assert(self@ =~= Map::<Seq<u8>, R::V>::empty());
    }
}

/// Filtering one more element keeps it or drops it.
pub proof fn lemma_filter_step<A>(s: Seq<A>, pred: spec_fn(A) -> bool, i: int)
    requires
        0 <= i < s.len(),
    ensures
        s.take(i + 1).filter(pred) == if pred(s[i]) {
            s.take(i).filter(pred).push(s[i])
        } else {
            s.take(i).filter(pred)
        },
{
    reveal(Seq::filter);
    assert(s.take(i + 1).drop_last() =~= s.take(i));
    assert(s.take(i + 1).last() == s[i]);
}

/// Filtering nothing gives nothing, and the whole of a list is the list.
pub proof fn lemma_filter_ends<A>(s: Seq<A>, pred: spec_fn(A) -> bool)
    ensures
        s.take(0).filter(pred) == Seq::<A>::empty(),
        s.take(s.len() as int) == s,
{
    reveal(Seq::filter);
    assert(s.take(0) =~= Seq::<A>::empty());
    assert(s.take(s.len() as int) =~= s);
}

/// The views of a list with one more record.
pub proof fn lemma_views_push<R: View>(records: Seq<R>, record: R)
    ensures
        views(records.push(record)) == views(records).push(record@),
{
    assert(views(records.push(record)) =~= views(records).push(record@));
}

/// The views of no records.
pub proof fn lemma_views_empty<R: View>()
    ensures
        views(Seq::<R>::empty()) == Seq::<R::V>::empty(),
{
    assert(views(Seq::<R>::empty()) =~= Seq::<R::V>::empty());
}

/// A table that has a listing is finite, and the listing is as long as the
/// table has keys.
#[verifier::rlimit(50)]
pub proof fn lemma_listing_len(s: Seq<(Seq<u8>, Seq<u8>)>, m: Map<Seq<u8>, Seq<u8>>)
    requires
        is_listing(s, m),
    ensures
        m.dom().finite(),
        s.len() == m.dom().len(),
    decreases s.len(),
{
    if s.len() == 0 {
        assert(m.dom() =~= Set::<Seq<u8>>::empty()) by {
            assert forall|k: Seq<u8>| !m.dom().contains(k) by {
                if m.contains_key(k) {
                    let i = choose|i: int| 0 <= i < s.len() && (#[trigger] s[i]).0 == k;
                }
            }
        }
    } else {
        let last = s.last();
        let rest = s.drop_last();
        let smaller = m.remove(last.0);
        assert(m.contains_pair(s[s.len() - 1].0, s[s.len() - 1].1));
        assert(is_listing(rest, smaller)) by {
            assert forall|i: int| 0 <= i < rest.len() implies smaller.contains_pair(
                (#[trigger] rest[i]).0,
                rest[i].1,
            ) by {
                assert(rest[i] == s[i]);
                assert(m.contains_pair(s[i].0, s[i].1));
                assert(bytes_lt(s[i].0, s[s.len() - 1].0));
                crate::order::lemma_lt_irreflexive(last.0);
            }
            assert forall|k: Seq<u8>| smaller.contains_key(k) implies exists|i: int|
                0 <= i < rest.len() && (#[trigger] rest[i]).0 == k by {
                assert(m.contains_key(k));
                let i = choose|i: int| 0 <= i < s.len() && (#[trigger] s[i]).0 == k;
                assert(i < rest.len());
                assert(rest[i] == s[i]);
            }
            assert forall|i: int, j: int| 0 <= i < j < rest.len() implies bytes_lt(
                #[trigger] rest[i].0,
                #[trigger] rest[j].0,
            ) by {
                assert(rest[i] == s[i] && rest[j] == s[j]);
            }
        }
        lemma_listing_len(rest, smaller);
        assert(m.dom() =~= smaller.dom().insert(last.0));
    }
}

} // verus!
