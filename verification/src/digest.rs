//! Digests of texts, and the identifiers made of them.
//!
//! The digest is SHA-256, computed by the crate `sha2`; its hexadecimal form
//! is written by the crate `hex`.

use vstd::prelude::*;
use vstd::string::{StrSliceExecFns, StringExecFns};
use vstd::utf8::{encode_utf8, is_ascii_chars};
use sha2::Digest;
use crate::principal::{principal_text, Principal};
use crate::text::{decimal, decimal_text};

verus! {

/// The SHA-256 digest of a byte string, as `sha2::Sha256` computes it.
pub uninterp spec fn sha256(data: Seq<u8>) -> Seq<u8>;

/// The character of a hexadecimal digit, in lower case.
pub open spec fn hex_digit(n: int) -> char {
    if n < 10 {
        (('0' as int) + n) as char
    } else {
        (('a' as int) + n - 10) as char
    }
}

/// A byte string in hexadecimal: two digits in lower case for every byte, the
/// higher half first.
pub open spec fn hex_text(bytes: Seq<u8>) -> Seq<char> {
    Seq::new(
        2 * bytes.len(),
        |i: int|
            if i % 2 == 0 {
                hex_digit(bytes[i / 2] as int / 16)
            } else {
                hex_digit(bytes[i / 2] as int % 16)
            },
    )
}

/// Calls `sha2::Sha256::digest`. The result is the digest named by [`sha256`];
/// a SHA-256 digest is 32 bytes long.
#[verifier::external_body]
fn sha256_digest(data: &[u8]) -> (digest: Vec<u8>)
    ensures
        digest@ == sha256(data@),
        digest@.len() == 32,
{
    sha2::Sha256::digest(data).to_vec()
}

/// Calls `hex::encode`, which writes two hexadecimal digits in lower case for
/// every byte, the higher half first.
#[verifier::external_body]
fn hex_encode(bytes: &[u8]) -> (text: String)
    ensures
        text@ == hex_text(bytes@),
{
    hex::encode(bytes)
}

/// The digest of a text in hexadecimal.
pub open spec fn hash_text(data: Seq<char>) -> Seq<char> {
    hex_text(sha256(encode_utf8(data)))
}

/// The hexadecimal form of a byte string is made of ASCII characters.
pub proof fn lemma_hex_ascii(bytes: Seq<u8>)
    ensures
        is_ascii_chars(hex_text(bytes)),
        hex_text(bytes).len() == 2 * bytes.len(),
{
    assert forall|i: int| 0 <= i < hex_text(bytes).len() implies '\0' <= #[trigger] hex_text(
        bytes,
    )[i] <= '\u{7f}' by {
        let b = bytes[i / 2] as int;
        assert(0 <= b / 16 < 16 && 0 <= b % 16 < 16);
    }
}

/// The SHA-256 digest of a text, in hexadecimal: 64 characters.
pub fn generate_hash(data: &str) -> (hash: String)
    ensures
        hash@ == hash_text(data@),
        hash@.len() == 64,
{
    let digest = sha256_digest(data.as_bytes());
    hex_encode(digest.as_slice())
}

/// What [`generate_unique_id`] makes its identifier of: the prefix, the time
/// and the caller, with underscores between them.
pub open spec fn unique_id_data(prefix: Seq<char>, timestamp: u64, caller: Seq<u8>) -> Seq<char> {
    prefix + "_"@ + decimal_text(timestamp as nat) + "_"@ + principal_text(caller)
}

/// The identifier that [`generate_unique_id`] makes of a digest in
/// hexadecimal: the prefix, an underscore, and the first eight characters of
/// the digest.
pub open spec fn unique_id_of(prefix: Seq<char>, hash: Seq<char>) -> Seq<char> {
    prefix + "_"@ + hash.take(8)
}

/// Makes an identifier of a digest in hexadecimal.
pub fn unique_id_from_hash(prefix: &str, hash: &str) -> (id: String)
    requires
        is_ascii_chars(hash@),
        hash@.len() >= 8,
    ensures
        id@ == unique_id_of(prefix@, hash@),
{
    let head = hash.substring_ascii(0, 8);
    assert(head@ =~= hash@.take(8));
    String::from_str(prefix).concat("_").concat(head)
}

/// An identifier for something that the caller makes at the given time: the
/// prefix, an underscore, and the first eight characters of the digest of
/// prefix, time and caller.
pub fn generate_unique_id(prefix: &str, timestamp: u64, caller: &Principal) -> (id: String)
    ensures
        id@ == unique_id_of(prefix@, hash_text(unique_id_data(prefix@, timestamp, caller@))),
{
    let data = String::from_str(prefix).concat("_").concat(decimal(timestamp).as_str()).concat(
        "_",
    ).concat(caller.to_text().as_str());
    let hash = generate_hash(data.as_str());
    proof {
        lemma_hex_ascii(sha256(encode_utf8(data@)));
    }
    unique_id_from_hash(prefix, hash.as_str())
}

} // verus!
