//! The byte encoding of records.
//!
//! A record is written as one byte that names the version of the format,
//! followed by its fields, framed as the module `frames` says. A number is a
//! field of eight bytes with the lowest first, a text the bytes of its UTF-8
//! form, a choice among named cases one byte. What [`encode`] writes,
//! [`decode`] reads back unchanged: see [`lemma_round_trip`].

use vstd::prelude::*;
use vstd::bytes::{
    lemma_auto_spec_u64_to_from_le_bytes, spec_u64_from_le_bytes, spec_u64_to_le_bytes,
    u64_from_le_bytes, u64_to_le_bytes,
};
use vstd::slice::slice_subrange;
use vstd::string::StrSliceExecFns;
use vstd::utf8::{
    decode_utf8, encode_utf8, encode_utf8_decode_utf8, encode_utf8_valid_utf8, valid_utf8,
};
use crate::frames::{
    field_views, frameable, framed_len, frames, lemma_frames_len, lemma_frames_round_trip,
    read_frames, unframe, write_frames,
};
use crate::principal::{Principal, MAX_LENGTH_IN_BYTES};
use crate::types::{
    HoldingStatus, KYCStatus, TransactionStatus, TransactionType, USTBillStatus, YieldOption,
};

verus! {

/// The version of the format that this crate writes and reads.
pub const FORMAT_VERSION: u8 = 1;

/// The greatest length of a key, in bytes: what the tables of the store can
/// take.
pub const MAX_KEY_BYTES: usize = 0xffff_ffff;

/// The greatest length of an encoded record, in bytes.
pub const MAX_RECORD_BYTES: usize = 0xffff_ffff;

/// A kind of record that the store holds.
///
/// A record is a list of fields. The fields of a valid record read back as the
/// record.
pub trait Record: View + Sized {
    /// What holds of the view of every value of the type.
    spec fn valid(v: Self::V) -> bool;

    /// The fields of the record, in the order in which they are written.
    spec fn fields_of(v: Self::V) -> Seq<Seq<u8>>;

    /// The record that the fields denote, if they denote one.
    spec fn of_fields(fields: Seq<Seq<u8>>) -> Option<Self::V>;

    /// The fields of a valid record denote that record.
    proof fn lemma_fields_round_trip(v: Self::V)
        requires
            Self::valid(v),
        ensures
            Self::of_fields(Self::fields_of(v)) == Some(v),
    ;

    /// Fields denote valid records only.
    proof fn lemma_of_fields_valid(fields: Seq<Seq<u8>>)
        ensures
            Self::of_fields(fields) matches Some(v) ==> Self::valid(v),
    ;

    /// The fields of this record.
    fn to_fields(&self) -> (fields: Vec<Vec<u8>>)
        ensures
            field_views(fields@) == Self::fields_of(self@),
            Self::valid(self@),
    ;

    /// The record that the fields denote.
    fn from_fields(fields: &Vec<Vec<u8>>) -> (record: Option<Self>)
        ensures
            record is Some <==> Self::of_fields(field_views(fields@)) is Some,
            record matches Some(r) ==> Self::of_fields(field_views(fields@)) == Some(r@),
    ;
}

/// The bytes that a record is written as.
pub open spec fn encoding<R: Record>(v: R::V) -> Seq<u8> {
    seq![FORMAT_VERSION] + frames(R::fields_of(v))
}

/// The record that bytes denote, or `None` where they denote none.
pub open spec fn decoding<R: Record>(bytes: Seq<u8>) -> Option<R::V> {
    if bytes.len() == 0 || bytes[0] != FORMAT_VERSION {
        None
    } else {
        match unframe(bytes.skip(1)) {
            Some(fields) => R::of_fields(fields),
            None => None,
        }
    }
}

/// Whether the record can be written: it is valid and its encoding is not
/// too long.
pub open spec fn storable<R: Record>(v: R::V) -> bool {
    &&& R::valid(v)
    &&& encoding::<R>(v).len() <= MAX_RECORD_BYTES
}

/// The length of an encoded record: one byte, and four more than its length
/// for every field.
pub proof fn lemma_encoding_len<R: Record>(v: R::V)
    ensures
        encoding::<R>(v).len() == 1 + framed_len(R::fields_of(v)),
{
    lemma_frames_len(R::fields_of(v));
}

proof fn lemma_framed_len_bounds(fields: Seq<Seq<u8>>, i: int)
    requires
        0 <= i < fields.len(),
    ensures
        fields[i].len() + 4 <= framed_len(fields),
    decreases fields.len(),
{
    if i > 0 {
        lemma_framed_len_bounds(fields.drop_first(), i - 1);
    }
}

/// The fields of a record whose encoding is short enough can be framed.
pub proof fn lemma_short_is_frameable<R: Record>(v: R::V)
    requires
        encoding::<R>(v).len() <= MAX_RECORD_BYTES,
    ensures
        frameable(R::fields_of(v)),
{
    lemma_encoding_len::<R>(v);
    let fields = R::fields_of(v);
    assert forall|i: int| 0 <= i < fields.len() implies (#[trigger] fields[i]).len()
        <= u32::MAX by {
        lemma_framed_len_bounds(fields, i);
    }
}

/// The round trip: what is written for a valid record of admissible length
/// reads back as that record, whatever its fields hold.
pub proof fn lemma_round_trip<R: Record>(v: R::V)
    requires
        storable::<R>(v),
    ensures
        decoding::<R>(encoding::<R>(v)) == Some(v),
{
    lemma_short_is_frameable::<R>(v);
    lemma_frames_round_trip(R::fields_of(v));
    R::lemma_fields_round_trip(v);
    assert(encoding::<R>(v).skip(1) =~= frames(R::fields_of(v)));
}

/// Writes a record. `None` where its encoding would be longer than
/// [`MAX_RECORD_BYTES`].
#[verifier::rlimit(50)]
pub fn encode<R: Record>(record: &R) -> (bytes: Option<Vec<u8>>)
    ensures
        R::valid(record@),
        bytes is Some <==> encoding::<R>(record@).len() <= MAX_RECORD_BYTES,
        bytes matches Some(b) ==> b@ == encoding::<R>(record@),
{
    let fields = record.to_fields();
    proof {
        lemma_encoding_len::<R>(record@);
        if encoding::<R>(record@).len() <= MAX_RECORD_BYTES {
            lemma_short_is_frameable::<R>(record@);
        }
        lemma_frames_len(R::fields_of(record@));
    }
    match write_frames(&fields) {
        Some(body) => {
            if body.len() >= MAX_RECORD_BYTES {
                return None;
            }
            let mut out: Vec<u8> = Vec::new();
            out.push(FORMAT_VERSION);
            out.extend_from_slice(body.as_slice());
            assert(out@ =~= encoding::<R>(record@));
            Some(out)
        },
        None => {
            proof {
                let fs = R::fields_of(record@);
                let i = choose|i: int| 0 <= i < fs.len() && (#[trigger] fs[i]).len() > u32::MAX;
                lemma_framed_len_bounds(fs, i);
            }
            None
        },
    }
}

/// Reads a record. `None` where the bytes denote none.
pub fn decode<R: Record>(bytes: &[u8]) -> (record: Option<R>)
    ensures
        record is Some <==> decoding::<R>(bytes@) is Some,
        record matches Some(r) ==> decoding::<R>(bytes@) == Some(r@),
{
    if bytes.len() == 0 || bytes[0] != FORMAT_VERSION {
        return None;
    }
    let body = slice_subrange(bytes, 1, bytes.len());
    assert(body@ =~= bytes@.skip(1));
    match read_frames(body) {
        Some(fields) => R::from_fields(&fields),
        None => None,
    }
}

// ---------------------------------------------------------------------------
// Lists of records
// ---------------------------------------------------------------------------

/// The views of a list of records.
pub open spec fn views<R: View>(records: Seq<R>) -> Seq<R::V> {
    Seq::new(records.len(), |i: int| records[i]@)
}

/// Whether every record of a list can be written.
pub open spec fn all_storable<R: Record>(records: Seq<R::V>) -> bool {
    forall|i: int| 0 <= i < records.len() ==> storable::<R>(#[trigger] records[i])
}

/// The encodings of the records of a list.
pub open spec fn encodings<R: Record>(records: Seq<R::V>) -> Seq<Seq<u8>> {
    Seq::new(records.len(), |i: int| encoding::<R>(records[i]))
}

/// The records that a list of byte strings denotes, or `None` where one of
/// them denotes none.
pub open spec fn decodings<R: Record>(parts: Seq<Seq<u8>>) -> Option<Seq<R::V>> {
    if forall|i: int| 0 <= i < parts.len() ==> decoding::<R>(#[trigger] parts[i]) is Some {
        Some(Seq::new(parts.len(), |i: int| decoding::<R>(parts[i])->0))
    } else {
        None
    }
}

/// The bytes that a list of records is written as: the framed encodings of
/// the records.
pub open spec fn list_encoding<R: Record>(records: Seq<R::V>) -> Seq<u8> {
    frames(encodings::<R>(records))
}

/// The list of records that bytes denote, or `None` where they denote none.
pub open spec fn list_decoding<R: Record>(bytes: Seq<u8>) -> Option<Seq<R::V>> {
    match unframe(bytes) {
        Some(parts) => decodings::<R>(parts),
        None => None,
    }
}

/// The round trip of a list: what is written for records that can be written
/// reads back as those records.
pub proof fn lemma_list_round_trip<R: Record>(records: Seq<R::V>)
    requires
        all_storable::<R>(records),
    ensures
        frameable(encodings::<R>(records)),
        list_decoding::<R>(list_encoding::<R>(records)) == Some(records),
{
    let parts = encodings::<R>(records);
    assert(frameable(parts)) by {
        assert forall|i: int| 0 <= i < parts.len() implies (#[trigger] parts[i]).len()
            <= u32::MAX by {
            assert(storable::<R>(records[i]));
        }
    }
    lemma_frames_round_trip(parts);
    assert forall|i: int| 0 <= i < parts.len() implies decoding::<R>(#[trigger] parts[i])
        == Some(records[i]) by {
        assert(storable::<R>(records[i]));
        lemma_round_trip::<R>(records[i]);
    }
    assert(decodings::<R>(parts)->0 =~= records);
}

/// Writes a list of records. `None` where one of them cannot be written.
#[verifier::rlimit(50)]
pub fn encode_list<R: Record>(records: &Vec<R>) -> (bytes: Option<Vec<u8>>)
    ensures
        bytes is Some <==> all_storable::<R>(views(records@)),
        bytes matches Some(b) ==> b@ == list_encoding::<R>(views(records@)),
{
    let ghost all = views(records@);
    let mut parts: Vec<Vec<u8>> = Vec::new();
    let mut i: usize = 0;
    while i < records.len()
        invariant
            i <= records@.len(),
            all == views(records@),
            parts@.len() == i,
            forall|j: int| 0 <= j < i ==> storable::<R>(#[trigger] all[j]),
            forall|j: int| 0 <= j < i ==> (#[trigger] parts@[j])@ == encoding::<R>(all[j]),
        decreases records@.len() - i,
    {
        assert(all[i as int] == records@[i as int]@);
        match encode::<R>(&records[i]) {
            Some(part) => {
                parts.push(part);
            },
            None => {
                assert(!storable::<R>(all[i as int]));
                return None;
            },
        }
        i += 1;
    }
    proof {
        assert(field_views(parts@) =~= encodings::<R>(all));
        lemma_list_round_trip::<R>(all);
    }
    write_frames(&parts)
}

/// Reads a list of records. `None` where the bytes denote none.
#[verifier::rlimit(50)]
pub fn decode_list<R: Record>(bytes: &[u8]) -> (records: Option<Vec<R>>)
    ensures
        records is Some <==> list_decoding::<R>(bytes@) is Some,
        records matches Some(r) ==> list_decoding::<R>(bytes@) == Some(views(r@)),
{
    let parts = match read_frames(bytes) {
        Some(parts) => parts,
        None => {
            return None;
        },
    };
    let ghost given = field_views(parts@);
    let mut records: Vec<R> = Vec::new();
    let mut i: usize = 0;
    while i < parts.len()
        invariant
            i <= parts@.len(),
            given == field_views(parts@),
            unframe(bytes@) == Some(given),
            records@.len() == i,
            forall|j: int| 0 <= j < i ==> decoding::<R>(#[trigger] given[j]) == Some(records@[j]@),
        decreases parts@.len() - i,
    {
        assert(given[i as int] == parts@[i as int]@);
        match decode::<R>(parts[i].as_slice()) {
            Some(record) => {
                records.push(record);
            },
            None => {
                return None;
            },
        }
        i += 1;
    }
    assert(decodings::<R>(given)->0 =~= views(records@));
    Some(records)
}

// ---------------------------------------------------------------------------
// Fields
// ---------------------------------------------------------------------------

/// A number as a field.
pub open spec fn u64_field(x: u64) -> Seq<u8> {
    spec_u64_to_le_bytes(x)
}

/// The number that a field holds.
pub open spec fn field_u64(field: Seq<u8>) -> Option<u64> {
    if field.len() == 8 {
        Some(spec_u64_from_le_bytes(field))
    } else {
        None
    }
}

/// A text as a field.
pub open spec fn text_field(text: Seq<char>) -> Seq<u8> {
    encode_utf8(text)
}

/// The text that a field holds.
pub open spec fn field_text(field: Seq<u8>) -> Option<Seq<char>> {
    if valid_utf8(field) {
        Some(decode_utf8(field))
    } else {
        None
    }
}

/// An optional text as a field: the byte 0 alone for none, the byte 1 before
/// the text otherwise.
pub open spec fn option_text_field(text: Option<Seq<char>>) -> Seq<u8> {
    match text {
        Some(t) => seq![1u8] + encode_utf8(t),
        None => seq![0u8],
    }
}

/// The optional text that a field holds.
pub open spec fn field_option_text(field: Seq<u8>) -> Option<Option<Seq<char>>> {
    if field.len() == 1 && field[0] == 0 {
        Some(None)
    } else if field.len() >= 1 && field[0] == 1 && valid_utf8(field.skip(1)) {
        Some(Some(decode_utf8(field.skip(1))))
    } else {
        None
    }
}

/// A truth value as a field.
pub open spec fn bool_field(b: bool) -> Seq<u8> {
    if b {
        seq![1u8]
    } else {
        seq![0u8]
    }
}

/// The truth value that a field holds.
pub open spec fn field_bool(field: Seq<u8>) -> Option<bool> {
    if field.len() == 1 && field[0] == 0 {
        Some(false)
    } else if field.len() == 1 && field[0] == 1 {
        Some(true)
    } else {
        None
    }
}

/// An identity as a field.
pub open spec fn principal_field(p: Seq<u8>) -> Seq<u8> {
    p
}

/// The identity that a field holds.
pub open spec fn field_principal(field: Seq<u8>) -> Option<Seq<u8>> {
    if field.len() <= MAX_LENGTH_IN_BYTES {
        Some(field)
    } else {
        None
    }
}

/// What every field reads back as.
pub proof fn lemma_field_round_trips()
    ensures
        forall|x: u64| #[trigger] field_u64(u64_field(x)) == Some(x),
        forall|x: u64| (#[trigger] u64_field(x)).len() == 8,
        forall|t: Seq<char>| #[trigger] field_text(text_field(t)) == Some(t),
        forall|t: Option<Seq<char>>| #[trigger]
            field_option_text(option_text_field(t)) == Some(t),
        forall|b: bool| #[trigger] field_bool(bool_field(b)) == Some(b),
        forall|p: Seq<u8>|
            p.len() <= MAX_LENGTH_IN_BYTES ==> #[trigger] field_principal(principal_field(p))
                == Some(p),
{
    lemma_auto_spec_u64_to_from_le_bytes();
    assert forall|t: Seq<char>| #[trigger] field_text(text_field(t)) == Some(t) by {
        encode_utf8_valid_utf8(t);
        encode_utf8_decode_utf8(t);
    }
    assert forall|t: Option<Seq<char>>| #[trigger]
        field_option_text(option_text_field(t)) == Some(t) by {
        match t {
            Some(s) => {
                encode_utf8_valid_utf8(s);
                encode_utf8_decode_utf8(s);
                assert(option_text_field(t).skip(1) =~= encode_utf8(s));
            },
            None => {},
        }
    }
}

/// Calls `String::from_utf8`: the text whose UTF-8 form the bytes are, or
/// `None` where they are the UTF-8 form of no text.
#[verifier::external_body]
fn string_from_utf8(bytes: Vec<u8>) -> (text: Option<String>)
    ensures
        text is Some <==> valid_utf8(bytes@),
        text matches Some(t) ==> t@ == decode_utf8(bytes@),
{
    String::from_utf8(bytes).ok()
}

/// Copies a byte string.
pub fn copy_bytes(bytes: &[u8]) -> (copy: Vec<u8>)
    ensures
        copy@ == bytes@,
{
    let mut copy: Vec<u8> = Vec::new();
    copy.extend_from_slice(bytes);
    copy
}

/// Writes a number.
pub fn write_u64(x: u64) -> (field: Vec<u8>)
    ensures
        field@ == u64_field(x),
{
    u64_to_le_bytes(x)
}

/// Reads a number.
pub fn read_u64(field: &[u8]) -> (x: Option<u64>)
    ensures
        x == field_u64(field@),
{
    if field.len() == 8 {
        Some(u64_from_le_bytes(field))
    } else {
        None
    }
}

/// Writes a text.
pub fn write_text(text: &str) -> (field: Vec<u8>)
    ensures
        field@ == text_field(text@),
{
    text.as_bytes_vec()
}

/// Reads a text.
pub fn read_text(field: &[u8]) -> (text: Option<String>)
    ensures
        text is Some <==> field_text(field@) is Some,
        text matches Some(t) ==> field_text(field@) == Some(t@),
{
    string_from_utf8(copy_bytes(field))
}

/// Writes an optional text.
pub fn write_option_text(text: &Option<String>) -> (field: Vec<u8>)
    ensures
        field@ == option_text_field(crate::types::option_text(*text)),
{
    let mut field: Vec<u8> = Vec::new();
    match text {
        Some(t) => {
            field.push(1u8);
            let body = t.as_str().as_bytes_vec();
            field.extend_from_slice(body.as_slice());
            assert(field@ =~= seq![1u8] + encode_utf8(t@));
        },
        None => {
            field.push(0u8);
            assert(field@ =~= seq![0u8]);
        },
    }
    field
}

/// Reads an optional text.
pub fn read_option_text(field: &[u8]) -> (text: Option<Option<String>>)
    ensures
        text is Some <==> field_option_text(field@) is Some,
        text matches Some(t) ==> field_option_text(field@) == Some(
            crate::types::option_text(t),
        ),
{
    if field.len() == 1 && field[0] == 0 {
        Some(None)
    } else if field.len() >= 1 && field[0] == 1 {
        let body = slice_subrange(field, 1, field.len());
        assert(body@ =~= field@.skip(1));
        match string_from_utf8(copy_bytes(body)) {
            Some(t) => Some(Some(t)),
            None => None,
        }
    } else {
        None
    }
}

/// Writes a truth value.
pub fn write_bool(b: bool) -> (field: Vec<u8>)
    ensures
        field@ == bool_field(b),
{
    let mut field: Vec<u8> = Vec::new();
    if b {
        field.push(1u8);
        assert(field@ =~= seq![1u8]);
    } else {
        field.push(0u8);
        assert(field@ =~= seq![0u8]);
    }
    field
}

/// Reads a truth value.
pub fn read_bool(field: &[u8]) -> (b: Option<bool>)
    ensures
        b == field_bool(field@),
{
    if field.len() == 1 && field[0] == 0 {
        Some(false)
    } else if field.len() == 1 && field[0] == 1 {
        Some(true)
    } else {
        None
    }
}

/// Writes an identity.
pub fn write_principal(p: &Principal) -> (field: Vec<u8>)
    ensures
        field@ == principal_field(p@),
        p@.len() <= MAX_LENGTH_IN_BYTES,
{
    copy_bytes(p.as_slice())
}

/// Reads an identity.
pub fn read_principal(field: &[u8]) -> (p: Option<Principal>)
    ensures
        p is Some <==> field_principal(field@) is Some,
        p matches Some(q) ==> field_principal(field@) == Some(q@),
{
    Principal::from_slice(field)
}

/// The byte that stands for a case of [`USTBillStatus`].
pub open spec fn bill_status_tag(s: USTBillStatus) -> u8 {
    match s {
        USTBillStatus::Active => 0,
        USTBillStatus::SoldOut => 1,
        USTBillStatus::Matured => 2,
        USTBillStatus::Cancelled => 3,
    }
}

/// The case of [`USTBillStatus`] that a byte stands for.
pub open spec fn tag_bill_status(tag: u8) -> Option<USTBillStatus> {
    if tag == 0 {
        Some(USTBillStatus::Active)
    } else if tag == 1 {
        Some(USTBillStatus::SoldOut)
    } else if tag == 2 {
        Some(USTBillStatus::Matured)
    } else if tag == 3 {
        Some(USTBillStatus::Cancelled)
    } else {
        None
    }
}

/// A case of [`USTBillStatus`] as a field.
pub open spec fn bill_status_field(s: USTBillStatus) -> Seq<u8> {
    seq![bill_status_tag(s)]
}

/// The case of [`USTBillStatus`] that a field holds.
pub open spec fn field_bill_status(field: Seq<u8>) -> Option<USTBillStatus> {
    if field.len() == 1 {
        tag_bill_status(field[0])
    } else {
        None
    }
}

/// Writes a case of [`USTBillStatus`].
pub fn write_bill_status(s: USTBillStatus) -> (field: Vec<u8>)
    ensures
        field@ == bill_status_field(s),
        field_bill_status(field@) == Some(s),
{
    let tag: u8 = match s {
        USTBillStatus::Active => 0,
        USTBillStatus::SoldOut => 1,
        USTBillStatus::Matured => 2,
        USTBillStatus::Cancelled => 3,
    };
    let mut field: Vec<u8> = Vec::new();
    field.push(tag);
    assert(field@ =~= seq![tag]);
    field
}

/// Reads a case of [`USTBillStatus`].
pub fn read_bill_status(field: &[u8]) -> (s: Option<USTBillStatus>)
    ensures
        s == field_bill_status(field@),
{
    if field.len() != 1 {
        return None;
    }
    let tag = field[0];
    if tag == 0 {
        Some(USTBillStatus::Active)
    } else if tag == 1 {
        Some(USTBillStatus::SoldOut)
    } else if tag == 2 {
        Some(USTBillStatus::Matured)
    } else if tag == 3 {
        Some(USTBillStatus::Cancelled)
    } else {
        None
    }
}

/// The byte that stands for a case of [`KYCStatus`].
pub open spec fn kyc_status_tag(s: KYCStatus) -> u8 {
    match s {
        KYCStatus::Pending => 0,
        KYCStatus::Verified => 1,
        KYCStatus::Rejected => 2,
        KYCStatus::Expired => 3,
    }
}

/// The case of [`KYCStatus`] that a byte stands for.
pub open spec fn tag_kyc_status(tag: u8) -> Option<KYCStatus> {
    if tag == 0 {
        Some(KYCStatus::Pending)
    } else if tag == 1 {
        Some(KYCStatus::Verified)
    } else if tag == 2 {
        Some(KYCStatus::Rejected)
    } else if tag == 3 {
        Some(KYCStatus::Expired)
    } else {
        None
    }
}

/// A case of [`KYCStatus`] as a field.
pub open spec fn kyc_status_field(s: KYCStatus) -> Seq<u8> {
    seq![kyc_status_tag(s)]
}

/// The case of [`KYCStatus`] that a field holds.
pub open spec fn field_kyc_status(field: Seq<u8>) -> Option<KYCStatus> {
    if field.len() == 1 {
        tag_kyc_status(field[0])
    } else {
        None
    }
}

/// Writes a case of [`KYCStatus`].
pub fn write_kyc_status(s: KYCStatus) -> (field: Vec<u8>)
    ensures
        field@ == kyc_status_field(s),
        field_kyc_status(field@) == Some(s),
{
    let tag: u8 = match s {
        KYCStatus::Pending => 0,
        KYCStatus::Verified => 1,
        KYCStatus::Rejected => 2,
        KYCStatus::Expired => 3,
    };
    let mut field: Vec<u8> = Vec::new();
    field.push(tag);
    assert(field@ =~= seq![tag]);
    field
}

/// Reads a case of [`KYCStatus`].
pub fn read_kyc_status(field: &[u8]) -> (s: Option<KYCStatus>)
    ensures
        s == field_kyc_status(field@),
{
    if field.len() != 1 {
        return None;
    }
    let tag = field[0];
    if tag == 0 {
        Some(KYCStatus::Pending)
    } else if tag == 1 {
        Some(KYCStatus::Verified)
    } else if tag == 2 {
        Some(KYCStatus::Rejected)
    } else if tag == 3 {
        Some(KYCStatus::Expired)
    } else {
        None
    }
}

/// The byte that stands for a case of [`YieldOption`].
pub open spec fn yield_option_tag(s: YieldOption) -> u8 {
    match s {
        YieldOption::Maturity => 0,
        YieldOption::Flexible => 1,
    }
}

/// The case of [`YieldOption`] that a byte stands for.
pub open spec fn tag_yield_option(tag: u8) -> Option<YieldOption> {
    if tag == 0 {
        Some(YieldOption::Maturity)
    } else if tag == 1 {
        Some(YieldOption::Flexible)
    } else {
        None
    }
}

/// A case of [`YieldOption`] as a field.
pub open spec fn yield_option_field(s: YieldOption) -> Seq<u8> {
    seq![yield_option_tag(s)]
}

/// The case of [`YieldOption`] that a field holds.
pub open spec fn field_yield_option(field: Seq<u8>) -> Option<YieldOption> {
    if field.len() == 1 {
        tag_yield_option(field[0])
    } else {
        None
    }
}

/// Writes a case of [`YieldOption`].
pub fn write_yield_option(s: YieldOption) -> (field: Vec<u8>)
    ensures
        field@ == yield_option_field(s),
        field_yield_option(field@) == Some(s),
{
    let tag: u8 = match s {
        YieldOption::Maturity => 0,
        YieldOption::Flexible => 1,
    };
    let mut field: Vec<u8> = Vec::new();
    field.push(tag);
    assert(field@ =~= seq![tag]);
    field
}

/// Reads a case of [`YieldOption`].
pub fn read_yield_option(field: &[u8]) -> (s: Option<YieldOption>)
    ensures
        s == field_yield_option(field@),
{
    if field.len() != 1 {
        return None;
    }
    let tag = field[0];
    if tag == 0 {
        Some(YieldOption::Maturity)
    } else if tag == 1 {
        Some(YieldOption::Flexible)
    } else {
        None
    }
}

/// The byte that stands for a case of [`HoldingStatus`].
pub open spec fn holding_status_tag(s: HoldingStatus) -> u8 {
    match s {
        HoldingStatus::Active => 0,
        HoldingStatus::Sold => 1,
        HoldingStatus::Matured => 2,
        HoldingStatus::Cancelled => 3,
    }
}

/// The case of [`HoldingStatus`] that a byte stands for.
pub open spec fn tag_holding_status(tag: u8) -> Option<HoldingStatus> {
    if tag == 0 {
        Some(HoldingStatus::Active)
    } else if tag == 1 {
        Some(HoldingStatus::Sold)
    } else if tag == 2 {
        Some(HoldingStatus::Matured)
    } else if tag == 3 {
        Some(HoldingStatus::Cancelled)
    } else {
        None
    }
}

/// A case of [`HoldingStatus`] as a field.
pub open spec fn holding_status_field(s: HoldingStatus) -> Seq<u8> {
    seq![holding_status_tag(s)]
}

/// The case of [`HoldingStatus`] that a field holds.
pub open spec fn field_holding_status(field: Seq<u8>) -> Option<HoldingStatus> {
    if field.len() == 1 {
        tag_holding_status(field[0])
    } else {
        None
    }
}

/// Writes a case of [`HoldingStatus`].
pub fn write_holding_status(s: HoldingStatus) -> (field: Vec<u8>)
    ensures
        field@ == holding_status_field(s),
        field_holding_status(field@) == Some(s),
{
    let tag: u8 = match s {
        HoldingStatus::Active => 0,
        HoldingStatus::Sold => 1,
        HoldingStatus::Matured => 2,
        HoldingStatus::Cancelled => 3,
    };
    let mut field: Vec<u8> = Vec::new();
    field.push(tag);
    assert(field@ =~= seq![tag]);
    field
}

/// Reads a case of [`HoldingStatus`].
pub fn read_holding_status(field: &[u8]) -> (s: Option<HoldingStatus>)
    ensures
        s == field_holding_status(field@),
{
    if field.len() != 1 {
        return None;
    }
    let tag = field[0];
    if tag == 0 {
        Some(HoldingStatus::Active)
    } else if tag == 1 {
        Some(HoldingStatus::Sold)
    } else if tag == 2 {
        Some(HoldingStatus::Matured)
    } else if tag == 3 {
        Some(HoldingStatus::Cancelled)
    } else {
        None
    }
}

/// The byte that stands for a case of [`TransactionType`].
pub open spec fn transaction_type_tag(s: TransactionType) -> u8 {
    match s {
        TransactionType::Deposit => 0,
        TransactionType::Withdrawal => 1,
        TransactionType::Purchase => 2,
        TransactionType::Sale => 3,
        TransactionType::YieldDistribution => 4,
        TransactionType::Fee => 5,
    }
}

/// The case of [`TransactionType`] that a byte stands for.
pub open spec fn tag_transaction_type(tag: u8) -> Option<TransactionType> {
    if tag == 0 {
        Some(TransactionType::Deposit)
    } else if tag == 1 {
        Some(TransactionType::Withdrawal)
    } else if tag == 2 {
        Some(TransactionType::Purchase)
    } else if tag == 3 {
        Some(TransactionType::Sale)
    } else if tag == 4 {
        Some(TransactionType::YieldDistribution)
    } else if tag == 5 {
        Some(TransactionType::Fee)
    } else {
        None
    }
}

/// A case of [`TransactionType`] as a field.
pub open spec fn transaction_type_field(s: TransactionType) -> Seq<u8> {
    seq![transaction_type_tag(s)]
}

/// The case of [`TransactionType`] that a field holds.
pub open spec fn field_transaction_type(field: Seq<u8>) -> Option<TransactionType> {
    if field.len() == 1 {
        tag_transaction_type(field[0])
    } else {
        None
    }
}

/// Writes a case of [`TransactionType`].
pub fn write_transaction_type(s: TransactionType) -> (field: Vec<u8>)
    ensures
        field@ == transaction_type_field(s),
        field_transaction_type(field@) == Some(s),
{
    let tag: u8 = match s {
        TransactionType::Deposit => 0,
        TransactionType::Withdrawal => 1,
        TransactionType::Purchase => 2,
        TransactionType::Sale => 3,
        TransactionType::YieldDistribution => 4,
        TransactionType::Fee => 5,
    };
    let mut field: Vec<u8> = Vec::new();
    field.push(tag);
    assert(field@ =~= seq![tag]);
    field
}

/// Reads a case of [`TransactionType`].
pub fn read_transaction_type(field: &[u8]) -> (s: Option<TransactionType>)
    ensures
        s == field_transaction_type(field@),
{
    if field.len() != 1 {
        return None;
    }
    let tag = field[0];
    if tag == 0 {
        Some(TransactionType::Deposit)
    } else if tag == 1 {
        Some(TransactionType::Withdrawal)
    } else if tag == 2 {
        Some(TransactionType::Purchase)
    } else if tag == 3 {
        Some(TransactionType::Sale)
    } else if tag == 4 {
        Some(TransactionType::YieldDistribution)
    } else if tag == 5 {
        Some(TransactionType::Fee)
    } else {
        None
    }
}

/// The byte that stands for a case of [`TransactionStatus`].
pub open spec fn transaction_status_tag(s: TransactionStatus) -> u8 {
    match s {
        TransactionStatus::Pending => 0,
        TransactionStatus::Completed => 1,
        TransactionStatus::Failed => 2,
        TransactionStatus::Cancelled => 3,
    }
}

/// The case of [`TransactionStatus`] that a byte stands for.
pub open spec fn tag_transaction_status(tag: u8) -> Option<TransactionStatus> {
    if tag == 0 {
        Some(TransactionStatus::Pending)
    } else if tag == 1 {
        Some(TransactionStatus::Completed)
    } else if tag == 2 {
        Some(TransactionStatus::Failed)
    } else if tag == 3 {
        Some(TransactionStatus::Cancelled)
    } else {
        None
    }
}

/// A case of [`TransactionStatus`] as a field.
pub open spec fn transaction_status_field(s: TransactionStatus) -> Seq<u8> {
    seq![transaction_status_tag(s)]
}

/// The case of [`TransactionStatus`] that a field holds.
pub open spec fn field_transaction_status(field: Seq<u8>) -> Option<TransactionStatus> {
    if field.len() == 1 {
        tag_transaction_status(field[0])
    } else {
        None
    }
}

/// Writes a case of [`TransactionStatus`].
pub fn write_transaction_status(s: TransactionStatus) -> (field: Vec<u8>)
    ensures
        field@ == transaction_status_field(s),
        field_transaction_status(field@) == Some(s),
{
    let tag: u8 = match s {
        TransactionStatus::Pending => 0,
        TransactionStatus::Completed => 1,
        TransactionStatus::Failed => 2,
        TransactionStatus::Cancelled => 3,
    };
    let mut field: Vec<u8> = Vec::new();
    field.push(tag);
    assert(field@ =~= seq![tag]);
    field
}

/// Reads a case of [`TransactionStatus`].
pub fn read_transaction_status(field: &[u8]) -> (s: Option<TransactionStatus>)
    ensures
        s == field_transaction_status(field@),
{
    if field.len() != 1 {
        return None;
    }
    let tag = field[0];
    if tag == 0 {
        Some(TransactionStatus::Pending)
    } else if tag == 1 {
        Some(TransactionStatus::Completed)
    } else if tag == 2 {
        Some(TransactionStatus::Failed)
    } else if tag == 3 {
        Some(TransactionStatus::Cancelled)
    } else {
        None
    }
}

} // verus!
