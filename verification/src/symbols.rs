//! The address-symbol table: label texts mapped to addresses, with
//! insertion order kept and keys unique.

use crate::text::chars_eq;
use vstd::prelude::*;

verus! {

/// Whether `key` occurs among the pairs.
pub open spec fn tab_contains(tab: Seq<(Seq<char>, u32)>, key: Seq<char>) -> bool {
    exists|i: int| 0 <= i < tab.len() && tab[i].0 == key
}

/// The value of the first pair carrying `key`, or zero when none
/// does, scanning from index `i`.
pub open spec fn tab_lookup_from(tab: Seq<(Seq<char>, u32)>, key: Seq<char>, i: int) -> u32
    decreases tab.len() - i,
{
    if i < 0 || i >= tab.len() {
        0
    } else if tab[i].0 == key {
        tab[i].1
    } else {
        tab_lookup_from(tab, key, i + 1)
    }
}

/// The value stored under `key`, or zero when the key is absent.
pub open spec fn tab_lookup(tab: Seq<(Seq<char>, u32)>, key: Seq<char>) -> u32 {
    tab_lookup_from(tab, key, 0)
}

/// Keys are pairwise distinct.
pub open spec fn tab_keys_unique(tab: Seq<(Seq<char>, u32)>) -> bool {
    forall|i: int, j: int| 0 <= i < j < tab.len() ==> tab[i].0 != tab[j].0
}

/// Looking up from the start is the same as looking up from `i` when
/// no earlier pair carries the key.
pub proof fn lemma_tab_lookup_skip(tab: Seq<(Seq<char>, u32)>, key: Seq<char>, i: int)
    requires
        0 <= i <= tab.len(),
        forall|j: int| 0 <= j < i ==> tab[j].0 != key,
    ensures
        tab_lookup(tab, key) == tab_lookup_from(tab, key, i),
    decreases i,
{
    if i > 0 {
        lemma_tab_lookup_skip(tab, key, i - 1);
    }
}

/// The table: pairs of a label's characters and its address, in
/// insertion order, each label at most once.
pub struct SymbolTable {
    entries: Vec<(Vec<char>, u32)>,
}

impl View for SymbolTable {
    type V = Seq<(Seq<char>, u32)>;

    closed spec fn view(&self) -> Seq<(Seq<char>, u32)> {
        self.entries.deep_view()
    }
}

impl SymbolTable {
    /// An empty table.
    pub fn new() -> (r: SymbolTable)
        ensures
            r@ =~= Seq::<(Seq<char>, u32)>::empty(),
    {
        let entries: Vec<(Vec<char>, u32)> = Vec::new();
        proof {
            assert(entries.deep_view() =~= Seq::<(Seq<char>, u32)>::empty());
        }
        SymbolTable { entries }
    }

    /// Remove every pair.
    pub fn clear(&mut self)
        ensures
            final(self)@ =~= Seq::<(Seq<char>, u32)>::empty(),
    {
        self.entries.clear();
        proof {
            assert(self.entries.deep_view() =~= Seq::<(Seq<char>, u32)>::empty());
        }
    }

    /// How many pairs the table holds.
    pub fn len(&self) -> (r: usize)
        ensures
            r == self@.len(),
    {
        proof {
            assert(self@.len() == self.entries@.len());
        }
        self.entries.len()
    }

    /// Whether the table holds `key`.
    pub fn contains(&self, key: &Vec<char>) -> (r: bool)
        ensures
            r == tab_contains(self@, key@),
    {
        let mut i: usize = 0;
        proof {
            assert(self@.len() == self.entries@.len());
        }
        while i < self.entries.len()
            invariant
                i <= self.entries@.len(),
                self@.len() == self.entries@.len(),
                forall|j: int| 0 <= j < i ==> self@[j].0 != key@,
                forall|j: int|
                    0 <= j < self.entries@.len() ==> self@[j] == (
                    self.entries@[j].0@,
                    self.entries@[j].1,
                ),
            decreases self.entries@.len() - i,
        {
            if chars_eq(&self.entries[i].0, key) {
                proof {
                    assert(self@[i as int] == (self.entries@[i as int].0@, self.entries@[
                        i as int].1));
                }
                return true;
            }
            i = i + 1;
        }
        false
    }

    /// The address stored under `key`, when the table holds it.
    pub fn get(&self, key: &Vec<char>) -> (r: Option<u32>)
        ensures
            r is Some <==> tab_contains(self@, key@),
            r is Some ==> r->0 == tab_lookup(self@, key@),
    {
        let mut i: usize = 0;
        proof {
            assert(self@.len() == self.entries@.len());
        }
        while i < self.entries.len()
            invariant
                i <= self.entries@.len(),
                self@.len() == self.entries@.len(),
                forall|j: int| 0 <= j < i ==> self@[j].0 != key@,
                forall|j: int|
                    0 <= j < self.entries@.len() ==> self@[j] == (
                    self.entries@[j].0@,
                    self.entries@[j].1,
                ),
            decreases self.entries@.len() - i,
        {
            if chars_eq(&self.entries[i].0, key) {
                proof {
                    lemma_tab_lookup_skip(self@, key@, i as int);
                }
                return Some(self.entries[i].1);
            }
            i = i + 1;
        }
        None
    }

    /// Append a pair for a key the table does not hold yet.
    pub fn insert(&mut self, key: Vec<char>, val: u32)
        requires
            !tab_contains(old(self)@, key@),
        ensures
            final(self)@ =~= old(self)@.push((key@, val)),
    {
        self.entries.push((key, val));
        proof {
            assert(self@ =~~= old(self)@.push((key@, val)));
        }
    }

    /// A table built by fresh inserts has pairwise distinct keys: the
    /// insert contract forbids a key the table already holds.
    pub proof fn lemma_unique_after_insert(tab: Seq<(Seq<char>, u32)>, key: Seq<char>, val: u32)
        requires
            tab_keys_unique(tab),
            !tab_contains(tab, key),
        ensures
            tab_keys_unique(tab.push((key, val))),
    {
        let pushed = tab.push((key, val));
        assert forall|i: int, j: int| 0 <= i < j < pushed.len() implies pushed[i].0 != pushed[j].0 by {
            if j == tab.len() {
                assert(!(exists|k: int| 0 <= k < tab.len() && tab[k].0 == key));
                assert(tab[i].0 != key);
            }
        }
    }
}

} // verus!
