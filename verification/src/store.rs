//! The store of the first version: one text for each identity.
//!
//! The texts are kept in the order in which their identities first came. No
//! identity occurs twice.

use vstd::prelude::*;
use crate::principal::Principal;

verus! {

/// The views of a list of identities with their texts.
pub open spec fn entry_views(entries: Seq<(Principal, String)>) -> Seq<(Seq<u8>, Seq<char>)> {
    Seq::new(entries.len(), |i: int| (entries[i].0@, entries[i].1@))
}

/// Whether no identity occurs twice in a list.
pub open spec fn distinct_keys(entries: Seq<(Seq<u8>, Seq<char>)>) -> bool {
    forall|i: int, j: int|
        0 <= i < j < entries.len() ==> (#[trigger] entries[i]).0 != (#[trigger] entries[j]).0
}

/// Whether a list holds a text for an identity.
pub open spec fn has_key(entries: Seq<(Seq<u8>, Seq<char>)>, key: Seq<u8>) -> bool {
    exists|i: int| 0 <= i < entries.len() && (#[trigger] entries[i]).0 == key
}

/// The place of an identity in a list that holds it.
pub open spec fn place_of(entries: Seq<(Seq<u8>, Seq<char>)>, key: Seq<u8>) -> int {
    choose|i: int| 0 <= i < entries.len() && (#[trigger] entries[i]).0 == key
}

/// The list after a text was put in for an identity: in place of the text that
/// the identity had, or at the end where it had none.
pub open spec fn with_entry(
    entries: Seq<(Seq<u8>, Seq<char>)>,
    key: Seq<u8>,
    text: Seq<char>,
) -> Seq<(Seq<u8>, Seq<char>)> {
    if has_key(entries, key) {
        entries.update(place_of(entries, key), (key, text))
    } else {
        entries.push((key, text))
    }
}

/// The list after the text of an identity was taken out.
pub open spec fn without_entry(entries: Seq<(Seq<u8>, Seq<char>)>, key: Seq<u8>) -> Seq<
    (Seq<u8>, Seq<char>),
> {
    if has_key(entries, key) {
        entries.remove(place_of(entries, key))
    } else {
        entries
    }
}

/// The store of the first version.
pub struct Store {
    entries: Vec<(Principal, String)>,
}

impl View for Store {
    type V = Seq<(Seq<u8>, Seq<char>)>;

    closed spec fn view(&self) -> Seq<(Seq<u8>, Seq<char>)> {
        entry_views(self.entries@)
    }
}

impl Store {
    /// Whether the store is well formed: no identity occurs twice.
    pub closed spec fn wf(&self) -> bool {
        distinct_keys(self@)
    }

    /// In a well-formed store no identity occurs twice.
    pub proof fn lemma_distinct(&self)
        requires
            self.wf(),
        ensures
            distinct_keys(self@),
    {
    }

    /// The text of an identity, if the store holds one.
    pub open spec fn text_of(&self, key: Seq<u8>) -> Option<Seq<char>> {
        if has_key(self@, key) {
            Some(self@[place_of(self@, key)].1)
        } else {
            None
        }
    }

    /// A store that holds nothing.
    pub fn new() -> (store: Store)
        ensures
            store.wf(),
            store@ == Seq::<(Seq<u8>, Seq<char>)>::empty(),
    {
        let store = Store { entries: Vec::new() };
        assert(store@ =~= Seq::<(Seq<u8>, Seq<char>)>::empty());
        store
    }

    /// The place of an identity in the list, or the length of the list where
    /// it holds none for it.
    fn find(&self, principal: &Principal) -> (at: usize)
        requires
            self.wf(),
        ensures
            at <= self@.len(),
            at < self@.len() ==> self@[at as int].0 == principal@ && has_key(self@, principal@)
                && place_of(self@, principal@) == at,
            at == self@.len() ==> !has_key(self@, principal@),
    {
        let mut i: usize = 0;
        while i < self.entries.len()
            invariant
                i <= self.entries@.len(),
                self.wf(),
                forall|j: int| 0 <= j < i ==> (#[trigger] self@[j]).0 != principal@,
            decreases self.entries@.len() - i,
        {
            if self.entries[i].0.equals(principal) {
                proof {
                    assert(self@[i as int].0 == principal@);
                    let p = place_of(self@, principal@);
                    if p < i {
                        assert(self@[p].0 != self@[i as int].0);
                    } else if p > i {
                        assert(self@[i as int].0 != self@[p].0);
                    }
                }
                return i;
            }
            i += 1;
        }
        i
    }

    /// The text of the caller.
    pub fn get(&self, caller: &Principal) -> (text: Option<String>)
        requires
            self.wf(),
        ensures
            crate::types::option_text(text) == self.text_of(caller@),
    {
        self.get_for_principal(caller)
    }

    /// Puts in a text for the caller.
    pub fn insert(&mut self, caller: Principal, s: String)
        requires
            old(self).wf(),
        ensures
            final(self).wf(),
            final(self)@ == with_entry(old(self)@, caller@, s@),
    {
        self.insert_for_principal(caller, s)
    }

    /// The text of an identity.
    pub fn get_for_principal(&self, principal: &Principal) -> (text: Option<String>)
        requires
            self.wf(),
        ensures
            crate::types::option_text(text) == self.text_of(principal@),
    {
        let at = self.find(principal);
        if at < self.entries.len() {
            Some(self.entries[at].1.clone())
        } else {
            None
        }
    }

    /// Puts in a text for an identity.
#[verifier::rlimit(50)]
    pub fn insert_for_principal(&mut self, principal: Principal, s: String)
        requires
            old(self).wf(),
        ensures
            final(self).wf(),
            final(self)@ == with_entry(old(self)@, principal@, s@),
    {
        let at = self.find(&principal);
        let ghost before = self@;
        let ghost key = principal@;
        let ghost text = s@;
        if at < self.entries.len() {
            self.entries.set(at, (principal, s));
            proof {
                assert(self@ =~= before.update(at as int, (key, text)));
                assert forall|i: int, j: int| 0 <= i < j < self@.len() implies (
                #[trigger] self@[i]).0 != (#[trigger] self@[j]).0 by {
                    assert(self@[i].0 == before[i].0 && self@[j].0 == before[j].0);
                }
            }
        } else {
            self.entries.push((principal, s));
            proof {
                assert(self@ =~= before.push((key, text)));
                assert forall|i: int, j: int| 0 <= i < j < self@.len() implies (
                #[trigger] self@[i]).0 != (#[trigger] self@[j]).0 by {
                    if j < before.len() {
                        assert(self@[i] == before[i] && self@[j] == before[j]);
                    } else {
                        assert(self@[i] == before[i]);
                    }
                }
            }
        }
    }

    /// Takes out the text of an identity and returns it.
#[verifier::rlimit(50)]
    pub fn remove_for_principal(&mut self, principal: &Principal) -> (text: Option<String>)
        requires
            old(self).wf(),
        ensures
            final(self).wf(),
            final(self)@ == without_entry(old(self)@, principal@),
            crate::types::option_text(text) == old(self).text_of(principal@),
    {
        let at = self.find(principal);
        let ghost before = self@;
        if at < self.entries.len() {
            let removed = self.entries.remove(at);
            proof {
                assert(self@ =~= before.remove(at as int));
                assert forall|i: int, j: int| 0 <= i < j < self@.len() implies (
                #[trigger] self@[i]).0 != (#[trigger] self@[j]).0 by {
                    let a = if i < at { i } else { i + 1 };
                    let b = if j < at { j } else { j + 1 };
                    assert(self@[i] == before[a] && self@[j] == before[b]);
                }
            }
            Some(removed.1)
        } else {
            None
        }
    }

    /// Every identity with its text, in the order in which the identities
    /// first came.
    pub fn get_all(&self) -> (all: Vec<(Principal, String)>)
        ensures
            entry_views(all@) == self@,
    {
        let mut all: Vec<(Principal, String)> = Vec::new();
        let mut i: usize = 0;
        while i < self.entries.len()
            invariant
                i <= self.entries@.len(),
                all@.len() == i,
                forall|j: int|
                    0 <= j < i ==> (#[trigger] all@[j]).0@ == self.entries@[j].0@ && all@[j].1@
                        == self.entries@[j].1@,
            decreases self.entries@.len() - i,
        {
            all.push((self.entries[i].0.clone(), self.entries[i].1.clone()));
            i += 1;
        }
        assert(entry_views(all@) =~= self@);
        all
    }

    /// Takes out every text.
    pub fn clear(&mut self)
        ensures
            final(self).wf(),
            final(self)@ == Seq::<(Seq<u8>, Seq<char>)>::empty(),
    {
        self.entries.clear();
        assert(self@ =~= Seq::<(Seq<u8>, Seq<char>)>::empty());
    }

    /// The number of identities that have a text.
    pub fn count(&self) -> (count: usize)
        ensures
            count == self@.len(),
    {
        self.entries.len()
    }

    /// Whether an identity has a text.
    pub fn contains_principal(&self, principal: &Principal) -> (found: bool)
        requires
            self.wf(),
        ensures
            found == has_key(self@, principal@),
    {
        self.find(principal) < self.entries.len()
    }
}

} // verus!
