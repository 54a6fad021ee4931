//! A single record in stable memory.

use core::marker::PhantomData;
use vstd::prelude::*;
use crate::codec::{decode, decoding, encode, lemma_round_trip, storable, Record};
use crate::stable::{ByteCell, StableMemory};

verus! {

/// One record of the kind `R`, kept encoded in a cell of stable memory.
pub struct Slot<R: Record> {
    bytes: ByteCell,
    kind: PhantomData<R>,
}

impl<R: Record> View for Slot<R> {
    type V = R::V;

    closed spec fn view(&self) -> R::V {
        decoding::<R>(self.bytes@)->0
    }
}

impl<R: Record> Slot<R> {
    /// Whether the slot is well formed: what it holds is a record.
    pub closed spec fn wf(&self) -> bool {
        decoding::<R>(self.bytes@) is Some
    }

    /// A slot in a region of stable memory that holds `initial`, written over
    /// whatever the region held. `None` where `initial` cannot be written.
    pub(crate) fn create(memory: &StableMemory, region: u8, initial: &R) -> (slot: Option<Slot<R>>)
        requires
            region != 255,
        ensures
            slot is Some <==> storable::<R>(initial@),
            slot matches Some(s) ==> s.wf() && s@ == initial@,
    {
        match encode::<R>(initial) {
            Some(bytes) => {
                proof {
                    lemma_round_trip::<R>(initial@);
                }
                Some(Slot { bytes: ByteCell::create(memory, region, bytes), kind: PhantomData })
            },
            None => None,
        }
    }

    /// The slot that a region of stable memory holds; where the region holds
    /// none, a slot with `initial`. `None` where what the region holds is no
    /// record of the kind `R`, or where `initial` cannot be written.
    pub(crate) fn open(memory: &StableMemory, region: u8, initial: &R) -> (slot: Option<Slot<R>>)
        requires
            region != 255,
        ensures
            slot matches Some(s) ==> s.wf(),
            !storable::<R>(initial@) ==> slot is None,
    {
        match encode::<R>(initial) {
            Some(bytes) => Self::adopt(ByteCell::load(memory, region, bytes)),
            None => None,
        }
    }

    /// Takes a cell of bytes for a slot. The cell is taken where what it holds
    /// is the encoding of a record of the kind `R`, and refused otherwise. The
    /// slot that is taken holds that record.
    pub fn adopt(cell: ByteCell) -> (slot: Option<Slot<R>>)
        ensures
            slot is Some <==> decoding::<R>(cell@) is Some,
            slot matches Some(s) ==> s.wf() && s@ == decoding::<R>(cell@)->0,
    {
        let held = cell.get();
        match decode::<R>(held.as_slice()) {
            Some(_) => Some(Slot { bytes: cell, kind: PhantomData }),
            None => None,
        }
    }

    /// The record that the slot holds.
    pub fn get(&self) -> (record: R)
        requires
            self.wf(),
        ensures
            record@ == self@,
    {
        let held = self.bytes.get();
        decode::<R>(held.as_slice()).unwrap()
    }

    /// Puts a record in the slot. Nothing changes, and `false` is returned,
    /// where the record cannot be written.
    pub fn set(&mut self, record: &R) -> (stored: bool)
        requires
            old(self).wf(),
        ensures
            final(self).wf(),
            stored <==> storable::<R>(record@),
            stored ==> final(self)@ == record@,
            !stored ==> final(self)@ == old(self)@,
    {
        match encode::<R>(record) {
            Some(bytes) => {
                proof {
                    lemma_round_trip::<R>(record@);
                }
                self.bytes.set(bytes);
                true
            },
            None => false,
        }
    }
}

} // verus!
