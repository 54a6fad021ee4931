//! The set of identities that may administer the platform.
//!
//! The set is kept as a list in ascending order: shorter identities first,
//! identities of one length in the order of their bytes. Nothing occurs twice.

use vstd::prelude::*;
use vstd::string::StringExecFns;
use crate::errors::{BitcoinUSTBillsError, Result};
use crate::principal::Principal;
use crate::records::account_key;
use crate::stable::bytes_lt;

verus! {

/// The textual form of the identity that is authorized from the start.
pub const INITIAL_AUTHORIZED_PRINCIPAL: &'static str =
    "6lzil-lzkgm-twmv5-rz5xg-a5nnm-togvj-mlu6s-p4xyl-5j3zi-6a6jy-yqe";

/// The bytes of the identity that is authorized from the start.
pub open spec fn initial_principal_bytes() -> Seq<u8> {
    seq![
        42u8, 51, 39, 102, 87, 177, 207, 110, 96, 117, 173, 100, 220, 106, 165, 139, 167, 164, 254,
        95, 11, 234, 119, 148, 120, 30, 78, 49, 2,
    ]
}

/// Whether the identity `a` comes before the identity `b`.
pub open spec fn principal_lt(a: Seq<u8>, b: Seq<u8>) -> bool {
    bytes_lt(account_key(a), account_key(b))
}

/// Whether a list of identities ascends strictly.
pub open spec fn ascending(list: Seq<Seq<u8>>) -> bool {
    forall|i: int, j: int| 0 <= i < j < list.len() ==> principal_lt(list[i], list[j])
}

/// Whether `a` comes before `b` in the order of byte strings.
pub fn bytes_less(a: &[u8], b: &[u8]) -> (less: bool)
    ensures
        less == bytes_lt(a@, b@),
{
    let mut i: usize = 0;
    assert(a@.skip(0) =~= a@ && b@.skip(0) =~= b@);
    while i < a.len() && i < b.len()
        invariant
            i <= a@.len(),
            i <= b@.len(),
            bytes_lt(a@, b@) == bytes_lt(a@.skip(i as int), b@.skip(i as int)),
        decreases a@.len() - i,
    {
        let ghost ra = a@.skip(i as int);
        let ghost rb = b@.skip(i as int);
        assert(ra[0] == a@[i as int] && rb[0] == b@[i as int]);
        if a[i] != b[i] {
            return a[i] < b[i];
        }
        assert(ra.drop_first() =~= a@.skip(i + 1));
        assert(rb.drop_first() =~= b@.skip(i + 1));
        i += 1;
    }
    i < b.len()
}

/// Whether the identity `a` comes before the identity `b`.
pub fn principal_less(a: &Principal, b: &Principal) -> (less: bool)
    ensures
        less == principal_lt(a@, b@),
{
    let x = a.as_slice();
    let y = b.as_slice();
    assert(account_key(a@).drop_first() =~= a@);
    assert(account_key(b@).drop_first() =~= b@);
    if x.len() != y.len() {
        x.len() < y.len()
    } else {
        bytes_less(x, y)
    }
}

/// The views of a list of identities.
pub open spec fn principal_views(list: Seq<Principal>) -> Seq<Seq<u8>> {
    Seq::new(list.len(), |i: int| list[i]@)
}

/// The set of authorized identities.
pub struct Guard {
    principals: Vec<Principal>,
}

impl View for Guard {
    type V = Seq<Seq<u8>>;

    /// The authorized identities in ascending order.
    closed spec fn view(&self) -> Seq<Seq<u8>> {
        principal_views(self.principals@)
    }
}

/// The list `list` with `p` at its place, or `list` itself where it holds `p`.
pub open spec fn with_principal(list: Seq<Seq<u8>>, p: Seq<u8>) -> Seq<Seq<u8>> {
    if list.contains(p) {
        list
    } else {
        list.filter(|q: Seq<u8>| principal_lt(q, p)) + seq![p] + list.filter(
            |q: Seq<u8>| !principal_lt(q, p),
        )
    }
}

/// The list `list` without `p`.
pub open spec fn without_principal(list: Seq<Seq<u8>>, p: Seq<u8>) -> Seq<Seq<u8>> {
    list.filter(|q: Seq<u8>| q != p)
}

#[verifier::rlimit(50)]
proof fn lemma_prefix_filter(list: Seq<Seq<u8>>, p: Seq<u8>, at: int)
    requires
        ascending(list),
        0 <= at <= list.len(),
        forall|i: int| 0 <= i < at ==> principal_lt(list[i], p),
        forall|i: int| at <= i < list.len() ==> !principal_lt(list[i], p),
    ensures
        list.filter(|q: Seq<u8>| principal_lt(q, p)) == list.take(at),
        list.filter(|q: Seq<u8>| !principal_lt(q, p)) == list.skip(at),
    decreases list.len(),
{
    reveal(Seq::filter);
    let lt = |q: Seq<u8>| principal_lt(q, p);
    let ge = |q: Seq<u8>| !principal_lt(q, p);
    if list.len() == 0 {
        assert(list.take(at) =~= list);
        assert(list.skip(at) =~= list);
    } else {
        let rest = list.drop_last();
        let rest_at = if at == list.len() { at - 1 } else { at };
        assert forall|i: int, j: int| 0 <= i < j < rest.len() implies principal_lt(
            rest[i],
            rest[j],
        ) by {
            assert(rest[i] == list[i] && rest[j] == list[j]);
        }
        lemma_prefix_filter(rest, p, rest_at);
        if at == list.len() {
            assert(list.take(at) =~= rest.take(rest_at).push(list.last()));
            assert(list.skip(at) =~= rest.skip(rest_at));
        } else {
            assert(list.take(at) =~= rest.take(rest_at));
            assert(list.skip(at) =~= rest.skip(rest_at).push(list.last()));
        }
    }
}

#[verifier::rlimit(50)]
proof fn lemma_remove_filter(list: Seq<Seq<u8>>, p: Seq<u8>, at: int)
    requires
        0 <= at < list.len(),
        list[at] == p,
        forall|i: int| 0 <= i < list.len() && i != at ==> list[i] != p,
    ensures
        without_principal(list, p) == list.take(at) + list.skip(at + 1),
    decreases list.len(),
{
    reveal(Seq::filter);
    let rest = list.drop_last();
    if at == list.len() - 1 {
        lemma_keep_filter(rest, p);
        assert(list.take(at) + list.skip(at + 1) =~= rest);
    } else {
        lemma_remove_filter(rest, p, at);
        assert(list.take(at) + list.skip(at + 1) =~= (rest.take(at) + rest.skip(at + 1)).push(
            list.last(),
        ));
    }
}

proof fn lemma_keep_filter(list: Seq<Seq<u8>>, p: Seq<u8>)
    requires
        forall|i: int| 0 <= i < list.len() ==> list[i] != p,
    ensures
        without_principal(list, p) == list,
    decreases list.len(),
{
    reveal(Seq::filter);
    if list.len() > 0 {
        lemma_keep_filter(list.drop_last(), p);
        assert(list.drop_last().push(list.last()) =~= list);
    }
}

/// The set that is built up by authorizing the identities of a list one
/// after the other.
pub open spec fn restored_guard(list: Seq<Seq<u8>>) -> Seq<Seq<u8>>
    decreases list.len(),
{
    if list.len() == 0 {
        Seq::empty()
    } else {
        with_principal(restored_guard(list.drop_last()), list.last())
    }
}

proof fn lemma_append_greatest(rest: Seq<Seq<u8>>, last: Seq<u8>)
    requires
        ascending(rest),
        forall|i: int| 0 <= i < rest.len() ==> principal_lt(rest[i], last),
    ensures
        with_principal(rest, last) == rest.push(last),
{
    crate::order::lemma_lt_irreflexive(account_key(last));
    assert(!rest.contains(last)) by {
        if rest.contains(last) {
            let i = choose|i: int| 0 <= i < rest.len() && rest[i] == last;
            assert(principal_lt(rest[i], last));
        }
    }
    lemma_prefix_filter(rest, last, rest.len() as int);
    assert(rest.take(rest.len() as int) =~= rest);
    assert(rest.skip(rest.len() as int) =~= Seq::<Seq<u8>>::empty());
    assert(rest + seq![last] + Seq::<Seq<u8>>::empty() =~= rest.push(last));
}

proof fn lemma_ascending_parts(list: Seq<Seq<u8>>)
    requires
        ascending(list),
        list.len() > 0,
    ensures
        ascending(list.drop_last()),
        forall|i: int| 0 <= i < list.len() - 1 ==> principal_lt(list.drop_last()[i], list.last()),
{
    let rest = list.drop_last();
    assert forall|i: int, j: int| 0 <= i < j < rest.len() implies principal_lt(
        rest[i],
        rest[j],
    ) by {
        assert(rest[i] == list[i] && rest[j] == list[j]);
    }
    assert forall|i: int| 0 <= i < list.len() - 1 implies principal_lt(
        list.drop_last()[i],
        list.last(),
    ) by {
        assert(rest[i] == list[i]);
        assert(principal_lt(list[i], list[list.len() - 1]));
    }
}

/// Authorizing the identities of an ascending list one after the other gives
/// that list.
pub proof fn lemma_restored_guard(list: Seq<Seq<u8>>)
    requires
        ascending(list),
    ensures
        restored_guard(list) == list,
    decreases list.len(),
{
    if list.len() > 0 {
        lemma_ascending_parts(list);
        lemma_restored_guard(list.drop_last());
        lemma_append_greatest(list.drop_last(), list.last());
        assert(list.drop_last().push(list.last()) =~= list);
    }
}

impl Guard {
    /// Whether the set is well formed: its list ascends strictly.
    pub closed spec fn wf(&self) -> bool {
        ascending(self@)
    }

    /// The list of a well-formed set ascends strictly.
    pub proof fn lemma_ascending(&self)
        requires
            self.wf(),
        ensures
            ascending(self@),
    {
    }

    /// Whether the set holds an identity.
    pub open spec fn holds(&self, p: Seq<u8>) -> bool {
        self@.contains(p)
    }

    /// The set that holds the initial identity alone.
    pub fn new() -> (guard: Guard)
        ensures
            guard.wf(),
            guard@ == seq![initial_principal_bytes()],
            guard.holds(initial_principal_bytes()),
    {
        let mut principals: Vec<Principal> = Vec::new();
        principals.push(get_initial_principal());
        let guard = Guard { principals };
        assert(guard@ =~= seq![initial_principal_bytes()]);
        assert(guard@[0] == initial_principal_bytes());
        guard
    }

    /// The set that holds nothing.
    pub fn empty() -> (guard: Guard)
        ensures
            guard.wf(),
            guard@ == Seq::<Seq<u8>>::empty(),
    {
        let guard = Guard { principals: Vec::new() };
        assert(guard@ =~= Seq::<Seq<u8>>::empty());
        guard
    }

    /// The place of an identity in the list: the first place whose identity
    /// does not come before it.
    fn place(&self, p: &Principal) -> (at: usize)
        requires
            self.wf(),
        ensures
            at <= self@.len(),
            forall|i: int| 0 <= i < at ==> principal_lt(self@[i], p@),
            forall|i: int| at <= i < self@.len() ==> !principal_lt(self@[i], p@),
    {
        let mut at: usize = 0;
        while at < self.principals.len() && principal_less(&self.principals[at], p)
            invariant
                at <= self.principals@.len(),
                forall|i: int| 0 <= i < at ==> principal_lt(self@[i], p@),
            decreases self.principals@.len() - at,
        {
            at += 1;
        }
        proof {
            assert forall|i: int| at <= i < self@.len() implies !principal_lt(self@[i], p@) by {
                if i > at && principal_lt(self@[i], p@) {
                    assert(principal_lt(self@[at as int], self@[i]));
                    crate::order::lemma_lt_transitive(
                        account_key(self@[at as int]),
                        account_key(self@[i]),
                        account_key(p@),
                    );
                }
            }
        }
        at
    }

    /// Whether the set holds an identity.
    pub fn contains(&self, p: &Principal) -> (found: bool)
        requires
            self.wf(),
        ensures
            found == self.holds(p@),
    {
        let at = self.place(p);
        if at < self.principals.len() && self.principals[at].equals(p) {
            assert(self@[at as int] == p@);
            true
        } else {
            proof {
                crate::order::lemma_lt_irreflexive(account_key(p@));
                assert forall|i: int| 0 <= i < self@.len() implies self@[i] != p@ by {
                    if i > at && self@[i] == p@ {
                        assert(principal_lt(self@[at as int], self@[i]));
                    }
                }
            }
            false
        }
    }

    /// Puts an identity in the set. Where the set holds it, nothing changes.
#[verifier::rlimit(50)]
    pub fn insert(&mut self, p: Principal)
        requires
            old(self).wf(),
        ensures
            final(self).wf(),
            final(self)@ == with_principal(old(self)@, p@),
            final(self).holds(p@),
            forall|q: Seq<u8>| q != p@ ==> final(self).holds(q) == old(self).holds(q),
    {
        let at = self.place(&p);
        let ghost before = self@;
        let ghost pv = p@;
        if at < self.principals.len() && self.principals[at].equals(&p) {
            assert(before[at as int] == pv);
            return ;
        }
        proof {
            crate::order::lemma_lt_irreflexive(account_key(pv));
            assert forall|i: int| 0 <= i < before.len() implies before[i] != pv by {
                if i > at && before[i] == pv {
                    assert(principal_lt(before[at as int], before[i]));
                }
            }
            lemma_prefix_filter(before, pv, at as int);
        }
        self.principals.insert(at, p);
        proof {
            let after = self@;
            assert(after =~= before.take(at as int) + seq![pv] + before.skip(at as int));
            assert(after[at as int] == pv);
            assert forall|i: int, j: int| 0 <= i < j < after.len() implies principal_lt(
                after[i],
                after[j],
            ) by {
                let a = if i < at { before[i] } else if i == at { pv } else { before[i - 1] };
                let b = if j < at { before[j] } else if j == at { pv } else { before[j - 1] };
                assert(after[i] == a && after[j] == b);
                if j == at {
                } else if i == at {
                    crate::order::lemma_lt_total(account_key(before[j - 1]), account_key(pv));
                    if account_key(before[j - 1]) == account_key(pv) {
                        crate::records::lemma_account_key_injective(before[j - 1], pv);
                    }
                } else if i < at && j > at {
                    assert(principal_lt(before[i], before[j - 1]));
                }
            }
            assert forall|q: Seq<u8>| q != pv implies after.contains(q) == before.contains(q) by {
                if before.contains(q) {
                    let i = choose|i: int| 0 <= i < before.len() && before[i] == q;
                    if i < at {
                        assert(after[i] == q);
                    } else {
                        assert(after[i + 1] == q);
                    }
                }
                if after.contains(q) {
                    let i = choose|i: int| 0 <= i < after.len() && after[i] == q;
                    if i < at {
                        assert(before[i] == q);
                    } else {
                        assert(before[i - 1] == q);
                    }
                }
            }
        }
    }

    /// Takes an identity out of the set and says whether the set held it.
#[verifier::rlimit(50)]
    pub fn remove(&mut self, p: &Principal) -> (removed: bool)
        requires
            old(self).wf(),
        ensures
            final(self).wf(),
            removed == old(self).holds(p@),
            final(self)@ == without_principal(old(self)@, p@),
            !final(self).holds(p@),
            forall|q: Seq<u8>| q != p@ ==> final(self).holds(q) == old(self).holds(q),
    {
        let at = self.place(p);
        let ghost before = self@;
        let ghost pv = p@;
        proof {
            crate::order::lemma_lt_irreflexive(account_key(pv));
            assert forall|i: int| 0 <= i < before.len() && i != at implies before[i] != pv by {
                if i > at && before[i] == pv {
                    assert(principal_lt(before[at as int], before[i]));
                }
            }
        }
        if at < self.principals.len() && self.principals[at].equals(p) {
            proof {
                assert(before[at as int] == pv);
                lemma_remove_filter(before, pv, at as int);
            }
            let _ = self.principals.remove(at);
            proof {
                let after = self@;
                assert(after =~= before.take(at as int) + before.skip(at + 1));
                assert forall|i: int, j: int| 0 <= i < j < after.len() implies principal_lt(
                    after[i],
                    after[j],
                ) by {
                    let a = if i < at { before[i] } else { before[i + 1] };
                    let b = if j < at { before[j] } else { before[j + 1] };
                    assert(after[i] == a && after[j] == b);
                }
                assert forall|q: Seq<u8>| q != pv implies after.contains(q) == before.contains(
                    q,
                ) by {
                    if before.contains(q) {
                        let i = choose|i: int| 0 <= i < before.len() && before[i] == q;
                        if i < at {
                            assert(after[i] == q);
                        } else {
                            assert(after[i - 1] == q);
                        }
                    }
                    if after.contains(q) {
                        let i = choose|i: int| 0 <= i < after.len() && after[i] == q;
                        if i < at {
                            assert(before[i] == q);
                        } else {
                            assert(before[i + 1] == q);
                        }
                    }
                }
                if after.contains(pv) {
                    let i = choose|i: int| 0 <= i < after.len() && after[i] == pv;
                    if i < at {
                        assert(before[i] == pv);
                    } else {
                        assert(before[i + 1] == pv);
                    }
                }
            }
            true
        } else {
            proof {
                assert(!before.contains(pv));
                lemma_keep_filter(before, pv);
            }
            false
        }
    }

    /// The identities of the set in ascending order.
    pub fn list(&self) -> (list: Vec<Principal>)
        ensures
            principal_views(list@) == self@,
    {
        let mut list: Vec<Principal> = Vec::new();
        let mut i: usize = 0;
        while i < self.principals.len()
            invariant
                i <= self.principals@.len(),
                list@.len() == i,
                forall|j: int| 0 <= j < i ==> list@[j]@ == self.principals@[j]@,
            decreases self.principals@.len() - i,
        {
            list.push(self.principals[i].clone());
            i += 1;
        }
        assert(principal_views(list@) =~= self@);
        list
    }

    /// The number of identities in the set.
    pub fn len(&self) -> (count: usize)
        ensures
            count == self@.len(),
    {
        self.principals.len()
    }

    /// Takes every identity out of the set.
    pub fn clear(&mut self)
        ensures
            final(self).wf(),
            final(self)@ == Seq::<Seq<u8>>::empty(),
    {
        self.principals.clear();
        assert(self@ =~= Seq::<Seq<u8>>::empty());
    }
}

/// The identity that is authorized from the start.
pub fn get_initial_principal() -> (p: Principal)
    ensures
        p@ == initial_principal_bytes(),
{
    let bytes: [u8; 29] = [
        42, 51, 39, 102, 87, 177, 207, 110, 96, 117, 173, 100, 220, 106, 165, 139, 167, 164, 254,
        95, 11, 234, 119, 148, 120, 30, 78, 49, 2,
    ];
    assert(bytes@ =~= initial_principal_bytes());
    Principal::from_slice(bytes.as_slice()).unwrap()
}

/// Authorizes an identity. Where it is authorized already, nothing changes.
pub fn add_to_list(guard: &mut Guard, principal: Principal)
    requires
        old(guard).wf(),
    ensures
        final(guard).wf(),
        final(guard)@ == with_principal(old(guard)@, principal@),
        final(guard).holds(principal@),
        forall|q: Seq<u8>| q != principal@ ==> final(guard).holds(q) == old(guard).holds(q),
{
    guard.insert(principal);
}

/// What [`delete_from_list`] answers for an identity that was authorized.
pub open spec fn removed_text() -> Seq<char> {
    "removed"@
}

/// What [`delete_from_list`] answers for an identity that was not authorized.
pub open spec fn not_listed_text() -> Seq<char> {
    "Principal {} is not in the guard list"@
}

/// Withdraws the authorization of an identity and says in words whether it
/// had one.
pub fn delete_from_list(guard: &mut Guard, p: Principal) -> (answer: String)
    requires
        old(guard).wf(),
    ensures
        final(guard).wf(),
        final(guard)@ == without_principal(old(guard)@, p@),
        !final(guard).holds(p@),
        forall|q: Seq<u8>| q != p@ ==> final(guard).holds(q) == old(guard).holds(q),
        answer@ == if old(guard).holds(p@) {
            removed_text()
        } else {
            not_listed_text()
        },
{
    if guard.remove(&p) {
        String::from_str("removed")
    } else {
        String::from_str("Principal {} is not in the guard list")
    }
}

/// Why [`is_dev`] refuses a caller, if it does.
pub open spec fn dev_refusal(guard: Seq<Seq<u8>>, caller: Seq<u8>) -> Option<Seq<char>> {
    if caller == Principal::anonymous_bytes() {
        Some("AnonymousCaller"@)
    } else if !guard.contains(caller) {
        Some("Caller "@ + crate::principal::principal_text(caller) + " is not authorized"@)
    } else {
        None
    }
}

/// Whether the caller is an authorized developer: not anonymous, and in the
/// set. The refusal says why not.
pub fn is_dev(guard: &Guard, caller: &Principal) -> (result: core::result::Result<(), String>)
    requires
        guard.wf(),
    ensures
        dev_refusal(guard@, caller@) is None ==> result is Ok,
        dev_refusal(guard@, caller@) matches Some(why) ==> (result matches Err(said) && said@
            == why),
{
    if caller.is_anonymous() {
        return Err(String::from_str("AnonymousCaller"));
    }
    if !guard.contains(caller) {
        let text = caller.to_text();
        return Err(
            String::from_str("Caller ").concat(text.as_str()).concat(" is not authorized"),
        );
    }
    Ok(())
}

/// Whether the caller is an administrator: the same test as [`is_dev`].
pub fn is_admin(guard: &Guard, caller: &Principal) -> (result: core::result::Result<(), String>)
    requires
        guard.wf(),
    ensures
        dev_refusal(guard@, caller@) is None ==> result is Ok,
        dev_refusal(guard@, caller@) matches Some(why) ==> (result matches Err(said) && said@
            == why),
{
    is_dev(guard, caller)
}

/// Why a caller is no administrator, if it is none: the anonymous identity
/// is refused as such, any other that is not authorized as unauthorized.
pub open spec fn admin_rejection(authorized: Seq<Seq<u8>>, caller: Seq<u8>) -> Option<
    BitcoinUSTBillsError,
> {
    if caller == Principal::anonymous_bytes() {
        Some(BitcoinUSTBillsError::AnonymousCaller)
    } else if !authorized.contains(caller) {
        Some(BitcoinUSTBillsError::Unauthorized)
    } else {
        None
    }
}

/// Succeeds for an administrator; fails with `AnonymousCaller` for the
/// anonymous identity and with `Unauthorized` for any other that is not in
/// the set.
pub fn assert_admin(guard: &Guard, caller: &Principal) -> (result: Result<()>)
    requires
        guard.wf(),
    ensures
        admin_rejection(guard@, caller@) is None ==> result is Ok,
        admin_rejection(guard@, caller@) matches Some(e) ==> result == Err::<
            (),
            BitcoinUSTBillsError,
        >(e),
{
    if caller.is_anonymous() {
        return Err(BitcoinUSTBillsError::AnonymousCaller);
    }
    if !guard.contains(caller) {
        return Err(BitcoinUSTBillsError::Unauthorized);
    }
    Ok(())
}

/// Succeeds for every caller but the anonymous one.
pub fn assert_user(caller: &Principal) -> (result: Result<()>)
    ensures
        caller@ == Principal::anonymous_bytes() ==> result matches Err(
            BitcoinUSTBillsError::AnonymousCaller,
        ),
        caller@ != Principal::anonymous_bytes() ==> result is Ok,
{
    if caller.is_anonymous() {
        return Err(BitcoinUSTBillsError::AnonymousCaller);
    }
    Ok(())
}

/// Whether an identity is in the set.
pub fn is_authorized(guard: &Guard, principal: &Principal) -> (authorized: bool)
    requires
        guard.wf(),
    ensures
        authorized == guard.holds(principal@),
{
    guard.contains(principal)
}

/// The authorized identities in ascending order.
pub fn get_authorized_principals(guard: &Guard) -> (list: Vec<Principal>)
    ensures
        principal_views(list@) == guard@,
{
    guard.list()
}

/// The number of authorized identities.
pub fn get_authorized_count(guard: &Guard) -> (count: usize)
    ensures
        count == guard@.len(),
{
    guard.len()
}

/// Succeeds where the caller is the expected identity, and fails with
/// `Unauthorized` otherwise.
pub fn assert_caller_is(caller: &Principal, expected: &Principal) -> (result: Result<()>)
    ensures
        caller@ == expected@ ==> result is Ok,
        caller@ != expected@ ==> result matches Err(BitcoinUSTBillsError::Unauthorized),
{
    if !caller.equals(expected) {
        return Err(BitcoinUSTBillsError::Unauthorized);
    }
    Ok(())
}

/// Succeeds where the caller is in the set or is the expected identity, and
/// fails with `Unauthorized` otherwise.
pub fn assert_admin_or_caller(guard: &Guard, caller: &Principal, expected: &Principal) -> (result:
    Result<()>)
    requires
        guard.wf(),
    ensures
        guard.holds(caller@) || caller@ == expected@ ==> result is Ok,
        !guard.holds(caller@) && caller@ != expected@ ==> result matches Err(
            BitcoinUSTBillsError::Unauthorized,
        ),
{
    if guard.contains(caller) {
        return Ok(());
    }
    if caller.equals(expected) {
        return Ok(());
    }
    Err(BitcoinUSTBillsError::Unauthorized)
}

/// Authorizes an identity, as [`add_to_list`] does, and succeeds.
pub fn init_guard(guard: &mut Guard, principal: Principal) -> (result: Result<()>)
    requires
        old(guard).wf(),
    ensures
        final(guard).wf(),
        result is Ok,
        final(guard)@ == with_principal(old(guard)@, principal@),
        final(guard).holds(principal@),
{
    guard.insert(principal);
    Ok(())
}

/// Withdraws every authorization, for an administrator. For any other caller
/// it fails as [`assert_admin`] does and changes nothing.
pub fn clear_guard(guard: &mut Guard, caller: &Principal) -> (result: Result<()>)
    requires
        old(guard).wf(),
    ensures
        final(guard).wf(),
        admin_rejection(old(guard)@, caller@) matches Some(e) ==> (result == Err::<
            (),
            BitcoinUSTBillsError,
        >(e) && final(guard)@ == old(guard)@),
        admin_rejection(old(guard)@, caller@) is None ==> result is Ok && final(guard)@ == Seq::<
            Seq<u8>,
        >::empty(),
{
    match assert_admin(guard, caller) {
        Ok(()) => {
            guard.clear();
            Ok(())
        },
        Err(e) => Err(e),
    }
}

/// Succeeds for every identity but the anonymous one.
pub fn validate_principal(principal: &Principal) -> (result: Result<()>)
    ensures
        principal@ == Principal::anonymous_bytes() ==> result matches Err(
            BitcoinUSTBillsError::AnonymousCaller,
        ),
        principal@ != Principal::anonymous_bytes() ==> result is Ok,
{
    if principal.is_anonymous() {
        return Err(BitcoinUSTBillsError::AnonymousCaller);
    }
    Ok(())
}

/// Whether any identity is authorized.
pub fn has_authorized_principals(guard: &Guard) -> (any: bool)
    ensures
        any == (guard@.len() > 0),
{
    guard.len() > 0
}

} // verus!
