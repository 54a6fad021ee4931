//! The framing of a record's fields into one byte string.
//!
//! A field is written as its length, in four bytes with the lowest first,
//! followed by its bytes; a record is its fields one after the other. A field
//! holds at most `u32::MAX` bytes. Reading is the exact inverse of writing.

use vstd::prelude::*;
use vstd::bytes::{
    lemma_auto_spec_u32_to_from_le_bytes, spec_u32_from_le_bytes, spec_u32_to_le_bytes,
    u32_from_le_bytes, u32_to_le_bytes,
};
use vstd::slice::slice_subrange;

verus! {

/// One field as it is written: length, then bytes.
pub open spec fn frame(field: Seq<u8>) -> Seq<u8> {
    spec_u32_to_le_bytes(field.len() as u32) + field
}

/// The fields as they are written, one after the other.
pub open spec fn frames(fields: Seq<Seq<u8>>) -> Seq<u8>
    decreases fields.len(),
{
    if fields.len() == 0 {
        Seq::empty()
    } else {
        frame(fields[0]) + frames(fields.drop_first())
    }
}

/// The fields that a byte string holds, or `None` where it ends inside a
/// field.
pub open spec fn unframe(bytes: Seq<u8>) -> Option<Seq<Seq<u8>>>
    decreases bytes.len(),
{
    if bytes.len() == 0 {
        Some(Seq::empty())
    } else if bytes.len() < 4 {
        None
    } else {
        let n = spec_u32_from_le_bytes(bytes.subrange(0, 4)) as int;
        if bytes.len() < 4 + n {
            None
        } else {
            match unframe(bytes.subrange(4 + n, bytes.len() as int)) {
                Some(rest) => Some(seq![bytes.subrange(4, 4 + n)] + rest),
                None => None,
            }
        }
    }
}

/// Whether every field is short enough to be framed.
pub open spec fn frameable(fields: Seq<Seq<u8>>) -> bool {
    forall|i: int| 0 <= i < fields.len() ==> (#[trigger] fields[i]).len() <= u32::MAX
}

/// The length of the framed fields.
pub open spec fn framed_len(fields: Seq<Seq<u8>>) -> nat
    decreases fields.len(),
{
    if fields.len() == 0 {
        0
    } else {
        4 + fields[0].len() + framed_len(fields.drop_first())
    }
}

/// The framed fields are as long as [`framed_len`] says.
pub proof fn lemma_frames_len(fields: Seq<Seq<u8>>)
    ensures
        frames(fields).len() == framed_len(fields),
    decreases fields.len(),
{
    lemma_auto_spec_u32_to_from_le_bytes();
    if fields.len() > 0 {
        lemma_frames_len(fields.drop_first());
    }
}

/// Writing one more field appends its frame.
pub proof fn lemma_frames_push(fields: Seq<Seq<u8>>, field: Seq<u8>)
    ensures
        frames(fields.push(field)) == frames(fields) + frame(field),
    decreases fields.len(),
{
    if fields.len() == 0 {
        assert(fields.push(field).drop_first() =~= Seq::<Seq<u8>>::empty());
        assert(frames(fields.push(field)) == frame(field) + frames(Seq::<Seq<u8>>::empty()));
        assert(frames(fields.push(field)) =~= frames(fields) + frame(field));
    } else {
        lemma_frames_push(fields.drop_first(), field);
        assert(fields.push(field).drop_first() =~= fields.drop_first().push(field));
        assert(frames(fields.push(field)) =~= frames(fields) + frame(field));
    }
}

/// Reading what was written gives the fields back, followed by whatever the
/// rest of the bytes holds.
#[verifier::rlimit(50)]
pub proof fn lemma_unframe_frames(fields: Seq<Seq<u8>>, tail: Seq<u8>)
    requires
        frameable(fields),
    ensures
        unframe(frames(fields) + tail) == match unframe(tail) {
            Some(rest) => Some(fields + rest),
            None => None,
        },
    decreases fields.len(),
{
    lemma_auto_spec_u32_to_from_le_bytes();
    if fields.len() == 0 {
        assert(frames(fields) + tail =~= tail);
        match unframe(tail) {
            Some(rest) => {
                assert(fields + rest =~= rest);
            },
            None => {},
        }
    } else {
        let first = fields[0];
        let others = fields.drop_first();
        let bytes = frames(fields) + tail;
        let prefix = spec_u32_to_le_bytes(first.len() as u32);
        assert(frameable(others)) by {
            assert forall|i: int| 0 <= i < others.len() implies (#[trigger] others[i]).len()
                <= u32::MAX by {
                assert(others[i] == fields[i + 1]);
            }
        }
        assert(first.len() <= u32::MAX);
        assert(bytes.subrange(0, 4) =~= prefix);
        assert(spec_u32_from_le_bytes(prefix) == first.len() as u32);
        let n = first.len() as int;
        assert(bytes.subrange(4, 4 + n) =~= first);
        assert(bytes.subrange(4 + n, bytes.len() as int) =~= frames(others) + tail);
        lemma_unframe_frames(others, tail);
        match unframe(tail) {
            Some(rest) => {
                assert(seq![first] + (others + rest) =~= fields + rest);
            },
            None => {},
        }
    }
}

/// Reading the framed fields gives exactly the fields.
pub proof fn lemma_frames_round_trip(fields: Seq<Seq<u8>>)
    requires
        frameable(fields),
    ensures
        unframe(frames(fields)) == Some(fields),
{
    lemma_unframe_frames(fields, Seq::empty());
    assert(frames(fields) + Seq::<u8>::empty() =~= frames(fields));
    assert(fields + Seq::<Seq<u8>>::empty() =~= fields);
}

/// The views of the fields.
pub open spec fn field_views(fields: Seq<Vec<u8>>) -> Seq<Seq<u8>> {
    Seq::new(fields.len(), |i: int| fields[i]@)
}

/// Frames the fields, or gives `None` where one of them is longer than
/// `u32::MAX` bytes.
#[verifier::rlimit(50)]
pub fn write_frames(fields: &Vec<Vec<u8>>) -> (bytes: Option<Vec<u8>>)
    ensures
        bytes is Some <==> frameable(field_views(fields@)),
        bytes matches Some(b) ==> b@ == frames(field_views(fields@)),
{
    let ghost all = field_views(fields@);
    let mut out: Vec<u8> = Vec::new();
    let mut i: usize = 0;
    assert(all.take(0) =~= Seq::<Seq<u8>>::empty());
    while i < fields.len()
        invariant
            i <= fields.len(),
            all == field_views(fields@),
            frameable(all.take(i as int)),
            out@ == frames(all.take(i as int)),
        decreases fields.len() - i,
    {
        let field = &fields[i];
        if field.len() > u32::MAX as usize {
            assert(all[i as int].len() > u32::MAX);
            return None;
        }
        let prefix = u32_to_le_bytes(field.len() as u32);
        out.extend_from_slice(prefix.as_slice());
        out.extend_from_slice(field.as_slice());
        proof {
            lemma_frames_push(all.take(i as int), all[i as int]);
            assert(all.take(i as int + 1) =~= all.take(i as int).push(all[i as int]));
            assert forall|j: int| 0
                <= j < i + 1 implies (#[trigger] all.take(i as int + 1)[j]).len()
                <= u32::MAX by {
                if j < i {
                    assert(all.take(i as int)[j] == all.take(i as int + 1)[j]);
                }
            }
        }
        i += 1;
    }
    assert(all.take(i as int) =~= all);
    Some(out)
}

/// Reads the fields back, or gives `None` where the bytes end inside a field.
#[verifier::rlimit(50)]
pub fn read_frames(bytes: &[u8]) -> (fields: Option<Vec<Vec<u8>>>)
    ensures
        fields is Some <==> unframe(bytes@) is Some,
        fields matches Some(f) ==> unframe(bytes@) == Some(field_views(f@)),
{
    let mut out: Vec<Vec<u8>> = Vec::new();
    let mut pos: usize = 0;
    assert(bytes@.skip(0) =~= bytes@);
    assert(field_views(out@) =~= Seq::<Seq<u8>>::empty());
    while pos < bytes.len()
        invariant
            pos <= bytes.len(),
            unframe(bytes@) == match unframe(bytes@.skip(pos as int)) {
                Some(rest) => Some(field_views(out@) + rest),
                None => None,
            },
        decreases bytes.len() - pos,
    {
        let ghost rest = bytes@.skip(pos as int);
        if bytes.len() - pos < 4 {
            return None;
        }
        let n = u32_from_le_bytes(slice_subrange(bytes, pos, pos + 4)) as usize;
        assert(bytes@.subrange(pos as int, pos + 4) =~= rest.subrange(0, 4));
        if bytes.len() - pos - 4 < n {
            return None;
        }
        let mut field: Vec<u8> = Vec::new();
        field.extend_from_slice(slice_subrange(bytes, pos + 4, pos + 4 + n));
        proof {
            assert(field@ =~= rest.subrange(4, 4 + n));
            assert(rest.subrange(4 + n, rest.len() as int) =~= bytes@.skip(pos + 4 + n));
            let before = field_views(out@);
            match unframe(bytes@.skip(pos + 4 + n)) {
                Some(more) => {
                    assert(before + (seq![field@] + more) =~= field_views(out@.push(field))
                        + more);
                },
                None => {},
            }
        }
        out.push(field);
        pos = pos + 4 + n;
    }
    assert(bytes@.skip(pos as int) =~= Seq::<u8>::empty());
    assert(field_views(out@) + Seq::<Seq<u8>>::empty() =~= field_views(out@));
    Some(out)
}

} // verus!
