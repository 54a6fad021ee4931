//! What is carried over a restart of the process: the store of the first
//! version and the set of authorized identities.
//!
//! Before the process stops, both are laid down in a [`StableStore`]; when it
//! has started again, they are built up from it. What is built up is what was
//! laid down.

use vstd::prelude::*;
use crate::guard::{lemma_restored_guard, principal_views, restored_guard, Guard};
use crate::principal::Principal;
use crate::store::{distinct_keys, entry_views, has_key, with_entry, Store};

verus! {

/// The state that is carried over a restart.
#[derive(Debug, PartialEq, Eq)]
pub struct StableStore {
    /// Every identity of the store with its text.
    pub data: Vec<(Principal, String)>,
    /// The authorized identities.
    pub guard: Vec<Principal>,
}

/// The store that is built up by putting in the entries of a list one after
/// the other.
pub open spec fn restored_store(data: Seq<(Seq<u8>, Seq<char>)>) -> Seq<(Seq<u8>, Seq<char>)>
    decreases data.len(),
{
    if data.len() == 0 {
        Seq::empty()
    } else {
        with_entry(restored_store(data.drop_last()), data.last().0, data.last().1)
    }
}

/// Lays down the state that is carried over a restart.
pub fn pre_upgrade_handler(store: &Store, guard: &Guard) -> (stable: StableStore)
    ensures
        entry_views(stable.data@) == store@,
        principal_views(stable.guard@) == guard@,
{
    StableStore { data: store.get_all(), guard: guard.list() }
}

/// Builds up the state that was carried over a restart.
#[verifier::rlimit(50)]
pub fn post_upgrade_handler(stable: StableStore) -> (restored: (Store, Guard))
    ensures
        restored.0.wf(),
        restored.1.wf(),
        restored.0@ == restored_store(entry_views(stable.data@)),
        restored.1@ == restored_guard(principal_views(stable.guard@)),
{
    let mut store = Store::new();
    let ghost data = entry_views(stable.data@);
    let mut i: usize = 0;
    assert(data.take(0) =~= Seq::<(Seq<u8>, Seq<char>)>::empty());
    while i < stable.data.len()
        invariant
            i <= stable.data@.len(),
            data == entry_views(stable.data@),
            store.wf(),
            store@ == restored_store(data.take(i as int)),
        decreases stable.data@.len() - i,
    {
        proof {
            assert(data.take(i + 1).drop_last() =~= data.take(i as int));
            assert(data.take(i + 1).last() == data[i as int]);
        }
        store.insert_for_principal(stable.data[i].0.clone(), stable.data[i].1.clone());
        i += 1;
    }
    assert(data.take(i as int) =~= data);
    let mut guard = Guard::empty();
    let ghost list = principal_views(stable.guard@);
    let mut j: usize = 0;
    assert(list.take(0) =~= Seq::<Seq<u8>>::empty());
    while j < stable.guard.len()
        invariant
            j <= stable.guard@.len(),
            list == principal_views(stable.guard@),
            guard.wf(),
            guard@ == restored_guard(list.take(j as int)),
        decreases stable.guard@.len() - j,
    {
        proof {
            assert(list.take(j + 1).drop_last() =~= list.take(j as int));
            assert(list.take(j + 1).last() == list[j as int]);
        }
        guard.insert(stable.guard[j].clone());
        j += 1;
    }
    assert(list.take(j as int) =~= list);
    (store, guard)
}

/// Putting in the entries of a list without repeated identities one after the
/// other gives that list.
pub proof fn lemma_restored_store(data: Seq<(Seq<u8>, Seq<char>)>)
    requires
        distinct_keys(data),
    ensures
        restored_store(data) == data,
    decreases data.len(),
{
    if data.len() > 0 {
        let rest = data.drop_last();
        assert forall|i: int, j: int| 0 <= i < j < rest.len() implies (#[trigger] rest[i]).0 != (
        #[trigger] rest[j]).0 by {
            assert(rest[i] == data[i] && rest[j] == data[j]);
        }
        lemma_restored_store(rest);
        assert(!has_key(rest, data.last().0)) by {
            if has_key(rest, data.last().0) {
                let i = choose|i: int| 0 <= i < rest.len() && (#[trigger] rest[i]).0
                    == data.last().0;
                assert(rest[i] == data[i]);
                assert(data[i].0 != data[data.len() - 1].0);
            }
        }
        assert(rest.push((data.last().0, data.last().1)) =~= data);
    }
}

/// What is carried over a restart comes back unchanged: the state that is
/// built up from what was laid down for a well-formed store and a well-formed
/// set is that store and that set.
pub proof fn lemma_upgrade_round_trip(store: Store, guard: Guard)
    requires
        store.wf(),
        guard.wf(),
    ensures
        restored_store(store@) == store@,
        restored_guard(guard@) == guard@,
{
    store.lemma_distinct();
    guard.lemma_ascending();
    lemma_restored_store(store@);
    lemma_restored_guard(guard@);
}

} // verus!
