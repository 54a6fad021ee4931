//! How long the encoding of each kind of record is.
//!
//! The store takes a record only if its encoding is not too long. The lengths
//! stated here show which writes can never fail on that account.

use vstd::prelude::*;
use vstd::bytes::lemma_auto_spec_u64_to_from_le_bytes;
use vstd::utf8::{encode_utf8, is_ascii_chars, is_ascii_chars_encode_utf8};
use crate::codec::{encoding, lemma_encoding_len};
use crate::frames::framed_len;
use crate::text::{decimal_text, lemma_decimal_len};
use crate::types::{
    TokenHolding, TokenHoldingView, Transaction, TransactionView, USTBill, USTBillView, User,
    UserView,
};

verus! {

/// The length of a text in bytes.
pub open spec fn text_len(text: Seq<char>) -> nat {
    encode_utf8(text).len()
}

/// The length of the field of an optional text.
pub open spec fn option_text_len(text: Option<Seq<char>>) -> nat {
    match text {
        Some(t) => 1 + text_len(t),
        None => 1,
    }
}

/// The UTF-8 form of two texts in a row is the two forms in a row.
pub proof fn lemma_utf8_concat(a: Seq<char>, b: Seq<char>)
    ensures
        encode_utf8(a + b) == encode_utf8(a) + encode_utf8(b),
        text_len(a + b) == text_len(a) + text_len(b),
    decreases a.len(),
{
    if a.len() == 0 {
        assert(a + b =~= b);
        assert(encode_utf8(a) + encode_utf8(b) =~= encode_utf8(b));
    } else {
        lemma_utf8_concat(a.drop_first(), b);
        assert((a + b).drop_first() =~= a.drop_first() + b);
        assert((a + b)[0] == a[0]);
        assert(encode_utf8(a + b) =~= encode_utf8(a) + encode_utf8(b));
    }
}

/// A text takes at most four bytes for each of its characters.
pub proof fn lemma_text_len_bound(text: Seq<char>)
    ensures
        text_len(text) <= 4 * text.len(),
    decreases text.len(),
{
    if text.len() > 0 {
        lemma_text_len_bound(text.drop_first());
    }
}

/// A text takes at least one byte for each of its characters.
pub proof fn lemma_text_len_floor(text: Seq<char>)
    ensures
        text_len(text) >= text.len(),
    decreases text.len(),
{
    if text.len() > 0 {
        lemma_text_len_floor(text.drop_first());
    }
}

/// A number in decimal is made of ASCII characters.
pub proof fn lemma_decimal_ascii(n: nat)
    ensures
        is_ascii_chars(decimal_text(n)),
    decreases n,
{
    if n >= 10 {
        lemma_decimal_ascii(n / 10);
    }
}

/// A 64-bit number in decimal takes at most twenty bytes.
pub proof fn lemma_decimal_size(n: u64)
    ensures
        text_len(decimal_text(n as nat)) <= 20,
        text_len(decimal_text(n as nat)) == decimal_text(n as nat).len(),
{
    lemma_decimal_ascii(n as nat);
    is_ascii_chars_encode_utf8(decimal_text(n as nat));
    assert(crate::text::ten_to(20) == 100000000000000000000nat) by {
        reveal_with_fuel(crate::text::ten_to, 21);
    }
    lemma_decimal_len(n as nat, 20);
}

/// The length of an encoded bill.
#[verifier::rlimit(50)]
pub proof fn lemma_bill_size(v: USTBillView)
    ensures
        encoding::<USTBill>(v).len() == 118 + text_len(v.id) + text_len(v.cusip) + text_len(
            v.issuer,
        ) + text_len(v.bill_type),
{
    lemma_auto_spec_u64_to_from_le_bytes();
    lemma_encoding_len::<USTBill>(v);
    reveal_with_fuel(framed_len, 14);
}

/// The length of an encoded account.
#[verifier::rlimit(50)]
pub proof fn lemma_account_size(v: UserView)
    ensures
        encoding::<User>(v).len() == 87 + v.principal.len() + text_len(v.email) + option_text_len(
            v.phone_number,
        ) + text_len(v.country),
{
    lemma_auto_spec_u64_to_from_le_bytes();
    lemma_encoding_len::<User>(v);
    reveal_with_fuel(framed_len, 12);
}

/// The length of an encoded holding.
#[verifier::rlimit(50)]
pub proof fn lemma_holding_size(v: TokenHoldingView)
    ensures
        encoding::<TokenHolding>(v).len() == 83 + text_len(v.id) + v.user_principal.len()
            + text_len(v.ustbill_id),
{
    lemma_auto_spec_u64_to_from_le_bytes();
    lemma_encoding_len::<TokenHolding>(v);
    reveal_with_fuel(framed_len, 11);
}

/// The length of an encoded transaction.
#[verifier::rlimit(50)]
pub proof fn lemma_transaction_size(v: TransactionView)
    ensures
        encoding::<Transaction>(v).len() == 67 + text_len(v.id) + v.user_principal.len()
            + option_text_len(v.ustbill_id) + option_text_len(v.holding_id) + text_len(
            v.description,
        ),
{
    lemma_auto_spec_u64_to_from_le_bytes();
    lemma_encoding_len::<Transaction>(v);
    reveal_with_fuel(framed_len, 11);
}

} // verus!
