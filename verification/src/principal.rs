//! Caller identities.
//!
//! An identity is a string of at most 29 bytes. Its textual form, with its
//! check sequence and grouping, is computed by the `candid` crate.

use vstd::prelude::*;

verus! {

/// The greatest number of bytes that an identity holds.
pub const MAX_LENGTH_IN_BYTES: usize = 29;

/// The textual form of the identity with the given bytes, as
/// `candid::Principal::to_text` prints it.
pub uninterp spec fn principal_text(bytes: Seq<u8>) -> Seq<char>;

/// The bytes of the identity that a text denotes, as
/// `candid::Principal::from_text` reads it; `None` where it rejects the text.
pub uninterp spec fn principal_of_text(text: Seq<char>) -> Option<Seq<u8>>;

/// Calls `candid::Principal::from_slice`, then `to_text` on the outcome. The
/// result is the text named by [`principal_text`]. `from_slice` panics on more
/// than 29 bytes, which the precondition leaves out.
#[verifier::external_body]
fn text_of_bytes(bytes: &[u8]) -> (text: String)
    requires
        bytes@.len() <= MAX_LENGTH_IN_BYTES,
    ensures
        text@ == principal_text(bytes@),
{
    candid::Principal::from_slice(bytes).to_text()
}

/// Calls `candid::Principal::from_text` and hands out the bytes of the identity
/// that it read. The result is the one named by [`principal_of_text`]; the
/// source accepts no identity of more than 29 bytes.
#[verifier::external_body]
fn bytes_of_text(text: &str) -> (bytes: Option<Vec<u8>>)
    ensures
        bytes is Some <==> principal_of_text(text@) is Some,
        bytes matches Some(b) ==> principal_of_text(text@) == Some(b@) && b@.len()
            <= MAX_LENGTH_IN_BYTES,
{
    match candid::Principal::from_text(text) {
        Ok(p) => Some(p.as_slice().to_vec()),
        Err(_) => None,
    }
}

/// The identity of a caller: at most 29 bytes.
#[derive(Debug, PartialEq, Eq)]
pub struct Principal {
    bytes: Vec<u8>,
}

impl View for Principal {
    type V = Seq<u8>;

    closed spec fn view(&self) -> Seq<u8> {
        self.bytes@
    }
}

impl Clone for Principal {
    fn clone(&self) -> (copy: Self)
        ensures
            copy@ == self@,
    {
        proof {
            use_type_invariant(self);
        }
        let mut bytes: Vec<u8> = Vec::new();
        bytes.extend_from_slice(self.bytes.as_slice());
        Principal { bytes }
    }
}

impl Principal {
    #[verifier::type_invariant]
    spec fn bounded(self) -> bool {
        self.bytes@.len() <= MAX_LENGTH_IN_BYTES
    }

    /// The bytes of the anonymous identity: the single byte 4.
    pub open spec fn anonymous_bytes() -> Seq<u8> {
        seq![4u8]
    }

    /// The identity with the given bytes, or `None` for more than 29 bytes.
    pub fn from_slice(bytes: &[u8]) -> (p: Option<Principal>)
        ensures
            p is Some <==> bytes@.len() <= MAX_LENGTH_IN_BYTES,
            p matches Some(q) ==> q@ == bytes@,
    {
        if bytes.len() <= MAX_LENGTH_IN_BYTES {
            let mut own: Vec<u8> = Vec::new();
            own.extend_from_slice(bytes);
            Some(Principal { bytes: own })
        } else {
            None
        }
    }

    /// The identity of a caller who did not sign the request.
    pub fn anonymous() -> (p: Principal)
        ensures
            p@ == Self::anonymous_bytes(),
    {
        let mut bytes: Vec<u8> = Vec::new();
        bytes.push(4u8);
        Principal { bytes }
    }

    /// The bytes of the identity, never more than 29.
    pub fn as_slice(&self) -> (bytes: &[u8])
        ensures
            bytes@ == self@,
            bytes@.len() <= MAX_LENGTH_IN_BYTES,
    {
        proof {
            use_type_invariant(self);
        }
        self.bytes.as_slice()
    }

    /// Whether two identities are the same.
    pub fn equals(&self, other: &Principal) -> (same: bool)
        ensures
            same == (self@ == other@),
    {
        bytes_equal(self.bytes.as_slice(), other.bytes.as_slice())
    }

    /// Whether this is the anonymous identity.
    pub fn is_anonymous(&self) -> (anonymous: bool)
        ensures
            anonymous == (self@ == Self::anonymous_bytes()),
    {
        let anonymous = self.bytes.len() == 1 && self.bytes[0] == 4u8;
        assert(anonymous ==> self.bytes@ =~= seq![4u8]);
        anonymous
    }

    /// Reads an identity from its textual form; `None` where the text denotes
    /// none.
    pub fn from_text(text: &str) -> (p: Option<Principal>)
        ensures
            p is Some <==> principal_of_text(text@) is Some,
            p matches Some(q) ==> principal_of_text(text@) == Some(q@),
    {
        match bytes_of_text(text) {
            Some(bytes) => Self::from_slice(bytes.as_slice()),
            None => None,
        }
    }

    /// The textual form of the identity.
    pub fn to_text(&self) -> (text: String)
        ensures
            text@ == principal_text(self@),
    {
        proof {
            use_type_invariant(self);
        }
        text_of_bytes(self.bytes.as_slice())
    }
}

/// Whether two byte strings are equal.
pub fn bytes_equal(a: &[u8], b: &[u8]) -> (same: bool)
    ensures
        same == (a@ == b@),
{
    if a.len() != b.len() {
        return false;
    }
    let mut i: usize = 0;
    while i < a.len()
        invariant
            a@.len() == b@.len(),
            i <= a@.len(),
            forall|j: int| 0 <= j < i ==> a@[j] == b@[j],
        decreases a@.len() - i,
    {
        if a[i] != b[i] {
            return false;
        }
        i += 1;
    }
    assert(a@ =~= b@);
    true
}

} // verus!
