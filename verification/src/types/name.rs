//! Interned names.
//!
//! A name is the identity of a string: two names are equal exactly when their
//! strings are. The intern table holds the canonical copy of every string
//! that has been interned and neither removed nor evicted, and every name
//! shares the canonical copy of its string with the table and with the other
//! names of that string. A string that no name shares any more is evicted
//! when the table is next asked to.

use std::rc::Rc;
use vstd::prelude::*;

verus! {

/// The canonical strings in use, none of them twice.
///
/// A table is not copied: a copy would be a second holder of every string,
/// and nothing would be evicted while it lives.
#[derive(Debug)]
pub struct InternTable {
    table: Vec<Rc<String>>,
}

/// An interned string. Its view is the string.
#[derive(Debug, Clone, PartialEq, Eq, Hash)]
pub struct Name {
    string: Rc<String>,
}

impl View for Name {
    type V = Seq<char>;

    closed spec fn view(&self) -> Seq<char> {
        (*self.string)@
    }
}

/// `Rc::clone` of the standard library: one more holder of the same string.
#[verifier::external_body]
fn share(string: &Rc<String>) -> (out: Rc<String>)
    ensures
        out == *string,
{
    Rc::clone(string)
}

/// `Rc::strong_count` of the standard library: the number of holders of the
/// string at the time of the call. Nothing is claimed of it: it depends on
/// what the rest of the program holds.
#[verifier::external_body]
fn holders(string: &Rc<String>) -> (out: usize) {
    Rc::strong_count(string)
}

impl Name {
    /// The string that the name stands for.
    pub fn as_string(&self) -> (out: &String)
        ensures
            out@ == self@,
    {
        &*self.string
    }

    /// The string that the name stands for, as a value of its own.
    pub fn into_string(self) -> (out: String)
        ensures
            out@ == self@,
    {
        (*self.string).clone()
    }

    /// Another holder of the same name.
    pub fn share(&self) -> (out: Name)
        ensures
            out@ == self@,
    {
        Name { string: share(&self.string) }
    }

    /// Whether two names are the same name.
    pub fn same(&self, other: &Name) -> (out: bool)
        ensures
            out == (self@ == other@),
    {
        *self.string == *other.string
    }

    /// Whether the name stands for `string`.
    pub fn denotes(&self, string: &String) -> (out: bool)
        ensures
            out == (self@ == string@),
    {
        *self.string == *string
    }
}

/// Names are equal exactly when their strings are: the names of `s` and of
/// `t`, whenever and wherever they were interned, are the same name if `s`
/// and `t` are the same string, and different names if they are not.
pub proof fn lemma_names_agree(a: Name, b: Name, s: Seq<char>, t: Seq<char>)
    requires
        a@ == s,
        b@ == t,
    ensures
        (a@ == b@) <==> (s == t),
{
}

/// Interning a string again changes nothing: the table holds it once.
pub proof fn lemma_intern_again(table: Set<Seq<char>>, s: Seq<char>)
    ensures
        table.insert(s).insert(s) == table.insert(s),
        table.insert(s).contains(s),
{
    assert(table.insert(s).insert(s) =~= table.insert(s));
}

/// Entry `i` holds the string `s`, and more than the table hold it.
pub open spec fn is_shared(entries: Seq<Seq<char>>, holders: Seq<usize>, i: int, s: Seq<char>) -> bool {
    0 <= i < entries.len() && i < holders.len() && entries[i] == s && holders[i] > 1
}

/// The strings that stay when the unshared entries are evicted: those of
/// the entries whose string has more holders than the table alone.
pub open spec fn shared(entries: Seq<Seq<char>>, holders: Seq<usize>) -> Set<Seq<char>> {
    Set::new(|s: Seq<char>| exists|i: int| is_shared(entries, holders, i, s))
}

/// What stays was there: a string that stays is the string of an entry.
pub proof fn lemma_shared_is_held(entries: Seq<Seq<char>>, holders: Seq<usize>)
    ensures
        forall|s: Seq<char>| shared(entries, holders).contains(s) ==> entries.contains(s),
{
    assert forall|s: Seq<char>| shared(entries, holders).contains(s) implies entries.contains(
        s,
    ) by {
        let i = choose|i: int| is_shared(entries, holders, i, s);
        assert(entries[i] == s);
    }
}

impl View for InternTable {
    type V = Set<Seq<char>>;

    /// The set of the strings that the table holds.
    closed spec fn view(&self) -> Set<Seq<char>> {
        Set::new(|s: Seq<char>| exists|i: int| 0 <= i < self.table.len() && self.table[i]@ == s)
    }
}

impl InternTable {
    /// No string is held twice.
    pub closed spec fn wf(&self) -> bool {
        forall|i: int, j: int|
            0 <= i < self.table.len() && 0 <= j < self.table.len() && i != j
                ==> self.table[i]@ != self.table[j]@
    }

    pub fn new() -> (out: Self)
        ensures
            out.wf(),
            out@ == Set::<Seq<char>>::empty(),
    {
        let out = InternTable { table: Vec::new() };
        assert(out@ =~= Set::<Seq<char>>::empty());
        out
    }

    /// Where the table holds `string`, if it does.
    fn position(&self, string: &String) -> (out: Option<usize>)
        ensures
            match out {
                Some(i) => i < self.table.len() && self.table[i as int]@ == string@,
                None => !self@.contains(string@),
            },
    {
        let mut i: usize = 0;
        while i < self.table.len()
            invariant
                i <= self.table.len(),
                forall|j: int| 0 <= j < i ==> self.table[j]@ != string@,
            decreases self.table.len() - i,
        {
            if *self.table[i] == *string {
                return Some(i);
            }
            i += 1;
        }
        None
    }

    /// Whether the table holds `string`.
    pub fn holds(&self, string: &String) -> (out: bool)
        ensures
            out == self@.contains(string@),
    {
        match self.position(string) {
            Some(i) => {
                assert(self@.contains(self.table[i as int]@));
                true
            },
            None => false,
        }
    }

    /// Evicts the entry of `string`, if there is one. Names that were made
    /// from it stay what they are.
    pub fn remove(&mut self, string: &String)
        requires
            old(self).wf(),
        ensures
            final(self).wf(),
            final(self)@ == old(self)@.remove(string@),
    {
        match self.position(string) {
            Some(i) => {
                self.remove_at(i);
            },
            None => {
                assert(self@ =~= old(self)@.remove(string@));
            },
        }
    }

    /// The strings that the table holds, in the order of its entries.
    pub closed spec fn entries(&self) -> Seq<Seq<char>> {
        Seq::new(self.table.len() as nat, |i: int| self.table[i]@)
    }

    /// The table holds the strings of its entries, and no others.
    pub proof fn lemma_entries(&self)
        ensures
            forall|s: Seq<char>| self@.contains(s) <==> self.entries().contains(s),
    {
        assert forall|s: Seq<char>| self@.contains(s) <==> self.entries().contains(s) by {
            if self@.contains(s) {
                let i = choose|i: int| 0 <= i < self.table.len() && self.table[i]@ == s;
                assert(self.entries()[i] == s);
            }
            if self.entries().contains(s) {
                let i = choose|i: int| 0 <= i < self.entries().len() && self.entries()[i] == s;
                assert(self.table[i]@ == s);
            }
        }
    }

    /// The number of entries.
    pub fn len(&self) -> (out: usize)
        ensures
            out == self.entries().len(),
    {
        self.table.len()
    }

    /// Evicts the entries that no name shares any more: those whose string
    /// has no holder but the table. Which those are depends on what the
    /// program holds at the time. Whatever it holds, the table is left as
    /// `evict_unshared` leaves it for some numbers of holders, one for each
    /// entry; nothing is added, and the names that exist stay what they
    /// are.
    pub fn evict(&mut self)
        requires
            old(self).wf(),
        ensures
            final(self).wf(),
            final(self)@.subset_of(old(self)@),
            exists|holders: Seq<usize>|
                holders.len() == old(self).entries().len() && final(self)@ == #[trigger] shared(
                    old(self).entries(),
                    holders,
                ),
    {
        let mut counts: Vec<usize> = Vec::new();
        let mut i: usize = 0;
        while i < self.table.len()
            invariant
                i <= self.table.len(),
                counts.len() == i,
                *self == *old(self),
            decreases self.table.len() - i,
        {
            counts.push(holders(&self.table[i]));
            i += 1;
        }
        self.evict_unshared(&counts);
        proof {
            lemma_shared_is_held(old(self).entries(), counts@);
            old(self).lemma_entries();
        }
    }

    /// Evicts the entries whose string has no holder but the table, where
    /// `holders[i]` is the number of holders of the string of entry `i`, the
    /// table among them: an entry stays exactly if that number is above one.
    pub fn evict_unshared(&mut self, holders: &Vec<usize>)
        requires
            old(self).wf(),
            holders.len() == old(self).entries().len(),
        ensures
            final(self).wf(),
            final(self)@ == shared(old(self).entries(), holders@),
    {
        let mut kept: Vec<Rc<String>> = Vec::new();
        let ghost mut places: Seq<int> = Seq::empty();
        let mut i: usize = 0;
        while i < self.table.len()
            invariant
                i <= self.table.len(),
                *self == *old(self),
                self.wf(),
                holders.len() == self.table.len(),
                places.len() == kept.len(),
                forall|k: int|
                    0 <= k < kept.len() ==> 0 <= #[trigger] places[k] < i && holders[places[k]] > 1
                        && kept[k]@ == self.table[places[k]]@,
                forall|k: int, l: int| 0 <= k < l < kept.len() ==> places[k] < places[l],
                forall|j: int|
                    0 <= j < i && holders[j] > 1 ==> exists|k: int|
                        0 <= k < kept.len() && #[trigger] places[k] == j,
            decreases self.table.len() - i,
        {
            if holders[i] > 1 {
                let ghost before = places;
                kept.push(share(&self.table[i]));
                proof {
                    places = places.push(i as int);
                    assert forall|j: int| 0 <= j < i + 1 && holders[j] > 1 implies exists|k: int|
                        0 <= k < kept.len() && #[trigger] places[k] == j by {
                        if j < i {
                            let k = choose|k: int| 0 <= k < before.len() && #[trigger] before[k] == j;
                            assert(places[k] == j);
                        } else {
                            assert(places[before.len() as int] == j);
                        }
                    }
                }
            }
            i += 1;
        }
        let ghost entries = self.entries();
        self.table = kept;
        proof {
            assert forall|a: int, b: int|
                0 <= a < self.table.len() && 0 <= b < self.table.len() && a != b implies self.table[a]@
                != self.table[b]@ by {
                assert(places[a] != places[b]);
            }
            assert forall|s: Seq<char>| self@.contains(s) <==> shared(entries, holders@).contains(
                s,
            ) by {
                if self@.contains(s) {
                    let k = choose|k: int| 0 <= k < self.table.len() && self.table[k]@ == s;
                    assert(is_shared(entries, holders@, places[k], s));
                }
                if shared(entries, holders@).contains(s) {
                    let j = choose|j: int| is_shared(entries, holders@, j, s);
                    let k = choose|k: int| 0 <= k < kept.len() && #[trigger] places[k] == j;
                    assert(self.table[k]@ == s);
                }
            }
            assert(self@ =~= shared(entries, holders@));
        }
    }

    /// Removes the entry at a place.
    fn remove_at(&mut self, i: usize)
        requires
            old(self).wf(),
            i < old(self).table.len(),
        ensures
            final(self).wf(),
            final(self).table.len() == old(self).table.len() - 1,
            final(self)@ == old(self)@.remove(old(self).table[i as int]@),
    {
        let ghost before = self.table@;
        let ghost gone = self.table[i as int]@;
        self.table.remove(i);
        proof {
            let after = self.table@;
            assert forall|s: Seq<char>| self@.contains(s) == old(self)@.remove(gone).contains(
                s,
            ) by {
                if old(self)@.remove(gone).contains(s) {
                    let k = choose|k: int| 0 <= k < before.len() && before[k]@ == s;
                    assert(k != i);
                    if k < i {
                        assert(after[k]@ == s);
                    } else {
                        assert(after[k - 1]@ == s);
                    }
                }
                if self@.contains(s) {
                    let k = choose|k: int| 0 <= k < after.len() && after[k]@ == s;
                    if k < i {
                        assert(before[k]@ == s);
                    } else {
                        assert(before[k + 1]@ == s);
                    }
                }
            }
            assert(self@ =~= old(self)@.remove(gone));
        }
    }

    /// The name of `string`. The table holds the string afterwards, and holds
    /// it once however often it is interned.
    pub fn intern(&mut self, string: String) -> (name: Name)
        requires
            old(self).wf(),
        ensures
            final(self).wf(),
            name@ == string@,
            final(self)@ == old(self)@.insert(string@),
    {
        match self.position(&string) {
            Some(i) => {
                assert(old(self)@.contains(self.table[i as int]@));
                assert(final(self)@ =~= old(self)@.insert(string@));
                Name { string: share(&self.table[i]) }
            },
            None => {
                let name = Name { string: Rc::new(string) };
                self.insert(&name.string);
                name
            },
        }
    }

    /// Adds the entry of a string that the table does not hold.
    fn insert(&mut self, string: &Rc<String>)
        requires
            old(self).wf(),
            !old(self)@.contains(string@),
        ensures
            final(self).wf(),
            final(self)@ == old(self)@.insert(string@),
    {
        let ghost before = self.table@;
        self.table.push(share(string));
        proof {
            let after = self.table@;
            assert forall|s: Seq<char>|
                final(self)@.contains(s) == old(self)@.insert(string@).contains(s) by {
                if old(self)@.contains(s) {
                    let k = choose|k: int| 0 <= k < before.len() && before[k]@ == s;
                    assert(after[k]@ == s);
                }
                if s == string@ {
                    assert(after[before.len() as int]@ == s);
                }
            }
            assert(final(self)@ =~= old(self)@.insert(string@));
            assert forall|i: int, j: int|
                0 <= i < after.len() && 0 <= j < after.len() && i != j implies after[i]@
                != after[j]@ by {
                if i < before.len() {
                    assert(old(self)@.contains(before[i]@));
                }
                if j < before.len() {
                    assert(old(self)@.contains(before[j]@));
                }
            }
        }
    }
}

} // verus!
