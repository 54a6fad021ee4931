//! The order of keys, and why a table has one listing only.

use vstd::prelude::*;
use crate::stable::{bytes_lt, is_listing};

verus! {

/// No byte string comes before itself.
pub proof fn lemma_lt_irreflexive(a: Seq<u8>)
    ensures
        !bytes_lt(a, a),
    decreases a.len(),
{
    if a.len() > 0 {
        lemma_lt_irreflexive(a.drop_first());
    }
}

/// What comes before something that comes before a third comes before the
/// third.
pub proof fn lemma_lt_transitive(a: Seq<u8>, b: Seq<u8>, c: Seq<u8>)
    requires
        bytes_lt(a, b),
        bytes_lt(b, c),
    ensures
        bytes_lt(a, c),
    decreases a.len(),
{
    if a.len() > 0 && b.len() > 0 && c.len() > 0 && a[0] == b[0] && b[0] == c[0] {
        lemma_lt_transitive(a.drop_first(), b.drop_first(), c.drop_first());
    }
}

/// Of two byte strings neither comes before the other only if they are equal.
pub proof fn lemma_lt_total(a: Seq<u8>, b: Seq<u8>)
    ensures
        bytes_lt(a, b) || bytes_lt(b, a) || a == b,
    decreases a.len(),
{
    if a.len() > 0 && b.len() > 0 && a[0] == b[0] {
        lemma_lt_total(a.drop_first(), b.drop_first());
        if a.drop_first() == b.drop_first() {
            assert(a =~= seq![a[0]] + a.drop_first());
            assert(b =~= seq![b[0]] + b.drop_first());
        }
    } else if a.len() == 0 && b.len() == 0 {
        assert(a =~= b);
    }
}

#[verifier::rlimit(50)]
proof fn lemma_listing_agrees(
    s1: Seq<(Seq<u8>, Seq<u8>)>,
    s2: Seq<(Seq<u8>, Seq<u8>)>,
    m: Map<Seq<u8>, Seq<u8>>,
    i: int,
)
    requires
        is_listing(s1, m),
        is_listing(s2, m),
        0 <= i <= s1.len(),
        i <= s2.len(),
    ensures
        forall|j: int| 0 <= j < i ==> s1[j] == s2[j],
    decreases i,
{
    if i > 0 {
        lemma_listing_agrees(s1, s2, m, i - 1);
        let n = i - 1;
        let k1 = s1[n].0;
        let k2 = s2[n].0;
        assert(m.contains_pair(s1[n].0, s1[n].1));
        assert(m.contains_pair(s2[n].0, s2[n].1));
        let p = choose|p: int| 0 <= p < s2.len() && (#[trigger] s2[p]).0 == k1;
        let q = choose|q: int| 0 <= q < s1.len() && (#[trigger] s1[q]).0 == k2;
        lemma_lt_irreflexive(k1);
        lemma_lt_irreflexive(k2);
        if p < n {
            assert(s1[p] == s2[p]);
            assert(bytes_lt(s1[p].0, s1[n].0));
        } else if p > n {
            assert(bytes_lt(s2[n].0, s2[p].0));
            if q < n {
                assert(s1[q] == s2[q]);
                assert(bytes_lt(s2[q].0, s2[n].0));
            } else if q > n {
                assert(bytes_lt(s1[n].0, s1[q].0));
                lemma_lt_transitive(k1, k2, k1);
            }
        }
        assert(s1[n].0 == s2[n].0);
        assert(s1[n].1 == s2[n].1);
    }
}

proof fn lemma_listing_no_longer(
    s1: Seq<(Seq<u8>, Seq<u8>)>,
    s2: Seq<(Seq<u8>, Seq<u8>)>,
    m: Map<Seq<u8>, Seq<u8>>,
)
    requires
        is_listing(s1, m),
        is_listing(s2, m),
    ensures
        s2.len() <= s1.len(),
{
    if s1.len() < s2.len() {
        let n = s1.len() as int;
        lemma_listing_agrees(s1, s2, m, n);
        let k = s2[n].0;
        assert(m.contains_pair(s2[n].0, s2[n].1));
        let q = choose|q: int| 0 <= q < s1.len() && (#[trigger] s1[q]).0 == k;
        assert(s1[q] == s2[q]);
        assert(bytes_lt(s2[q].0, s2[n].0));
        lemma_lt_irreflexive(k);
    }
}

/// A table has one listing only: two lists that hold every entry once in the
/// ascending order of the keys are the same list.
pub proof fn lemma_listing_unique(
    s1: Seq<(Seq<u8>, Seq<u8>)>,
    s2: Seq<(Seq<u8>, Seq<u8>)>,
    m: Map<Seq<u8>, Seq<u8>>,
)
    requires
        is_listing(s1, m),
        is_listing(s2, m),
    ensures
        s1 == s2,
{
    lemma_listing_no_longer(s1, s2, m);
    lemma_listing_no_longer(s2, s1, m);
    lemma_listing_agrees(s1, s2, m, s1.len() as int);
    assert(s1 =~= s2);
}

/// Whether the keys of `s` ascend strictly.
pub open spec fn ascending(s: Seq<(Seq<u8>, Seq<u8>)>) -> bool {
    forall|i: int, j: int|
        0 <= i < j < s.len() ==> bytes_lt(#[trigger] s[i].0, #[trigger] s[j].0)
}

/// Whether `p` is the place of the key `k` in `s`: what stands before `p` comes
/// before `k`, and `k` comes before what stands from `p` on.
pub open spec fn is_place(s: Seq<(Seq<u8>, Seq<u8>)>, k: Seq<u8>, p: int) -> bool {
    &&& 0 <= p <= s.len()
    &&& forall|i: int| 0 <= i < p ==> bytes_lt((#[trigger] s[i]).0, k)
    &&& forall|i: int| p <= i < s.len() ==> bytes_lt(k, (#[trigger] s[i]).0)
}

#[verifier::rlimit(50)]
proof fn lemma_place_exists(s: Seq<(Seq<u8>, Seq<u8>)>, k: Seq<u8>)
    requires
        ascending(s),
        forall|i: int| 0 <= i < s.len() ==> (#[trigger] s[i]).0 != k,
    ensures
        exists|p: int| is_place(s, k, p),
    decreases s.len(),
{
    if s.len() == 0 {
        assert(is_place(s, k, 0));
    } else {
        let n = s.len() - 1;
        let last = s[n].0;
        lemma_lt_total(last, k);
        if bytes_lt(last, k) {
            assert forall|i: int| 0 <= i < s.len() implies bytes_lt((#[trigger] s[i]).0, k) by {
                if i < n {
                    assert(bytes_lt(s[i].0, s[n].0));
                    lemma_lt_transitive(s[i].0, last, k);
                }
            }
            assert(is_place(s, k, s.len() as int));
        } else {
            let rest = s.drop_last();
            assert(ascending(rest)) by {
                assert forall|i: int, j: int| 0 <= i < j < rest.len() implies bytes_lt(
                    #[trigger] rest[i].0,
                    #[trigger] rest[j].0,
                ) by {
                    assert(rest[i] == s[i] && rest[j] == s[j]);
                }
            }
            assert forall|i: int| 0 <= i < rest.len() implies (#[trigger] rest[i]).0 != k by {
                assert(rest[i] == s[i]);
            }
            lemma_place_exists(rest, k);
            let p = choose|p: int| is_place(rest, k, p);
            assert forall|i: int| 0 <= i < p implies bytes_lt((#[trigger] s[i]).0, k) by {
                assert(rest[i] == s[i]);
            }
            assert forall|i: int| p <= i < s.len() implies bytes_lt(k, (#[trigger] s[i]).0) by {
                if i < n {
                    assert(rest[i] == s[i]);
                }
            }
            assert(is_place(s, k, p));
        }
    }
}

/// A finite table has a listing.
#[verifier::rlimit(50)]
pub proof fn lemma_listing_exists(m: Map<Seq<u8>, Seq<u8>>)
    requires
        m.dom().finite(),
    ensures
        exists|s: Seq<(Seq<u8>, Seq<u8>)>| is_listing(s, m),
    decreases m.dom().len(),
{
    if m.dom().len() == 0 {
        let none = Seq::<(Seq<u8>, Seq<u8>)>::empty();
        assert(m.dom() =~= Set::<Seq<u8>>::empty());
        assert(is_listing(none, m));
    } else {
        let k = m.dom().choose();
        let smaller = m.remove(k);
        lemma_listing_exists(smaller);
        let rest = choose|s: Seq<(Seq<u8>, Seq<u8>)>| is_listing(s, smaller);
        assert(ascending(rest));
        assert forall|i: int| 0 <= i < rest.len() implies (#[trigger] rest[i]).0 != k by {
            assert(smaller.contains_pair(rest[i].0, rest[i].1));
        }
        lemma_place_exists(rest, k);
        let p = choose|p: int| is_place(rest, k, p);
        let s = rest.take(p) + seq![(k, m[k])] + rest.skip(p);
        assert forall|i: int| 0 <= i < s.len() implies m.contains_pair(
            (#[trigger] s[i]).0,
            s[i].1,
        ) by {
            if i < p {
                assert(s[i] == rest[i]);
                assert(smaller.contains_pair(rest[i].0, rest[i].1));
            } else if i > p {
                assert(s[i] == rest[i - 1]);
                assert(smaller.contains_pair(rest[i - 1].0, rest[i - 1].1));
            }
        }
        assert forall|i: int, j: int| 0 <= i < j < s.len() implies bytes_lt(
            #[trigger] s[i].0,
            #[trigger] s[j].0,
        ) by {
            let a = if i < p { rest[i] } else if i == p { (k, m[k]) } else { rest[i - 1] };
            let b = if j < p { rest[j] } else if j == p { (k, m[k]) } else { rest[j - 1] };
            assert(s[i] == a && s[j] == b);
            if i < p && j > p {
                lemma_lt_transitive(rest[i].0, k, rest[j - 1].0);
            }
        }
        assert forall|key: Seq<u8>| m.contains_key(key) implies exists|i: int|
            0 <= i < s.len() && (#[trigger] s[i]).0 == key by {
            if key == k {
                assert(s[p].0 == k);
            } else {
                assert(smaller.contains_key(key));
                let i = choose|i: int| 0 <= i < rest.len() && (#[trigger] rest[i]).0 == key;
                if i < p {
                    assert(s[i] == rest[i]);
                } else {
                    assert(s[i + 1] == rest[i]);
                }
            }
        }
        assert(is_listing(s, m));
    }
}

} // verus!
