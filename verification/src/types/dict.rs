//! Dictionaries: views of a map from names to frames that a savebox owns.

use vstd::prelude::*;

use crate::error::{Error, ErrorView};
use crate::types::name::Name;
use crate::types::savable::{HasNew, Saved, SavedView};
use crate::types::save::{live, SlotView, Store};
use crate::vm::frame::{Frame, FrameView};

verus! {

/// The names in the order of their first binding, after `name` has been
/// bound.
pub open spec fn ordered(order: Seq<Seq<char>>, name: Seq<char>) -> Seq<Seq<char>> {
    if order.contains(name) {
        order
    } else {
        order.push(name)
    }
}

/// A map from names to frames, kept as the entries in the order in which
/// their names were first bound. No name has two entries.
#[derive(Debug, Clone)]
pub struct DictMap {
    entries: Vec<(Name, Frame)>,
}

impl View for DictMap {
    type V = Map<Seq<char>, FrameView>;

    closed spec fn view(&self) -> Map<Seq<char>, FrameView> {
        Map::new(
            |k: Seq<char>| exists|i: int| self.at(i, k),
            |k: Seq<char>| self.entries[choose|i: int| self.at(i, k)].1@,
        )
    }
}

impl DictMap {
    /// Entry `i` binds the name `k`.
    closed spec fn at(&self, i: int, k: Seq<char>) -> bool {
        0 <= i < self.entries.len() && self.entries[i].0@ == k
    }

    /// No name has two entries.
    pub closed spec fn wf(&self) -> bool {
        forall|i: int, j: int|
            0 <= i < self.entries.len() && 0 <= j < self.entries.len() && i != j
                ==> self.entries[i].0@ != self.entries[j].0@
    }

    /// The names in the order in which they were first bound.
    pub closed spec fn names(&self) -> Seq<Seq<char>> {
        Seq::new(self.entries.len() as nat, |i: int| self.entries[i].0@)
    }

    /// The names are the names that are bound, each once.
    pub proof fn lemma_names(&self)
        requires
            self.wf(),
        ensures
            forall|k: Seq<char>| self.names().contains(k) <==> self@.contains_key(k),
            forall|i: int, j: int|
                0 <= i < self.names().len() && 0 <= j < self.names().len() && i != j
                    ==> self.names()[i] != self.names()[j],
    {
        assert forall|k: Seq<char>| self.names().contains(k) <==> self@.contains_key(k) by {
            if self.names().contains(k) {
                let i = choose|i: int| 0 <= i < self.names().len() && self.names()[i] == k;
                assert(self.at(i, k));
            }
            if self@.contains_key(k) {
                let i = choose|i: int| self.at(i, k);
                assert(self.names()[i] == k);
            }
        }
    }

    pub fn new() -> (out: Self)
        ensures
            out.wf(),
            out@ == Map::<Seq<char>, FrameView>::empty(),
            out.names() == Seq::<Seq<char>>::empty(),
    {
        let out = DictMap { entries: Vec::new() };
        assert(out@ =~= Map::<Seq<char>, FrameView>::empty());
        assert(out.names() =~= Seq::<Seq<char>>::empty());
        out
    }

    /// The number of names that are bound.
    pub fn len(&self) -> (out: usize)
        ensures
            out == self.names().len(),
    {
        self.entries.len()
    }

    /// The name and the frame of the entry at a position.
    pub fn entry(&self, i: usize) -> (out: (&Name, &Frame))
        requires
            self.wf(),
            i < self.names().len(),
        ensures
            out.0@ == self.names()[i as int],
            self@.contains_key(out.0@),
            out.1@ == self@[out.0@],
    {
        proof {
            self.lemma_entry(i as int);
        }
        (&self.entries[i].0, &self.entries[i].1)
    }

    /// Entry `i` is what the map holds for its name.
    proof fn lemma_entry(&self, i: int)
        requires
            self.wf(),
            0 <= i < self.entries.len(),
        ensures
            self@.contains_key(self.entries[i].0@),
            self@[self.entries[i].0@] == self.entries[i].1@,
    {
        let k = self.entries[i].0@;
        assert(self.at(i, k));
        let j = choose|j: int| self.at(j, k);
        assert(j == i);
    }

    /// Where the entry of `name` is, if it has one.
    fn position(&self, name: &Name) -> (out: Option<usize>)
        requires
            self.wf(),
        ensures
            match out {
                Some(i) => self.at(i as int, name@),
                None => !self@.contains_key(name@),
            },
    {
        let mut i: usize = 0;
        while i < self.entries.len()
            invariant
                i <= self.entries.len(),
                forall|j: int| 0 <= j < i ==> !self.at(j, name@),
            decreases self.entries.len() - i,
        {
            if self.entries[i].0.same(name) {
                return Some(i);
            }
            i += 1;
        }
        None
    }

    /// The frame that `name` is bound to, if it is bound.
    pub fn find(&self, name: &Name) -> (out: Option<Frame>)
        requires
            self.wf(),
        ensures
            match out {
                Some(frame) => self@.contains_key(name@) && frame@ == self@[name@],
                None => !self@.contains_key(name@),
            },
    {
        match self.position(name) {
            Some(i) => {
                proof {
                    self.lemma_entry(i as int);
                }
                Some(self.entries[i].1.copy())
            },
            None => None,
        }
    }

    /// Binds `name` to `frame`, in place of what it was bound to.
    pub fn insert(&mut self, name: Name, frame: Frame)
        requires
            old(self).wf(),
        ensures
            final(self).wf(),
            final(self)@ == old(self)@.insert(name@, frame@),
            final(self).names() == ordered(old(self).names(), name@),
    {
        let ghost k = name@;
        let ghost v = frame@;
        match self.position(&name) {
            Some(i) => {
                self.entries.set(i, (name, frame));
                proof {
                    let now = *self;
                    assert forall|key: Seq<char>|
                        now@.contains_key(key) == old(self)@.insert(k, v).contains_key(
                            key,
                        ) by {
                        if old(self)@.contains_key(key) {
                            let j = choose|j: int| old(self).at(j, key);
                            assert(now.at(j, key));
                        }
                        if now@.contains_key(key) {
                            let j = choose|j: int| now.at(j, key);
                            assert(old(self).at(j, key));
                        }
                        if key == k {
                            assert(now.at(i as int, key));
                        }
                    }
                    assert forall|key: Seq<char>| now@.contains_key(key) implies now@[key] == old(self)@.insert(k, v)[key] by {
                        let j = choose|j: int| now.at(j, key);
                        now.lemma_entry(j);
                        if key != k {
                            assert(old(self).at(j, key));
                            old(self).lemma_entry(j);
                        } else {
                            assert(j == i);
                        }
                    }
                    assert(now@ =~= old(self)@.insert(k, v));
                    assert(old(self).names()[i as int] == k);
                    assert(now.names() =~= old(self).names());
                }
            },
            None => {
                self.entries.push((name, frame));
                proof {
                    let now = *self;
                    let n = old(self).entries.len() as int;
                    assert forall|i: int, j: int|
                        0 <= i < now.entries.len() && 0 <= j < now.entries.len()
                            && i != j implies now.entries[i].0@ != now.entries[j].0@ by {
                        if i < n {
                            assert(old(self).at(i, old(self).entries[i].0@));
                        }
                        if j < n {
                            assert(old(self).at(j, old(self).entries[j].0@));
                        }
                    }
                    assert forall|key: Seq<char>|
                        now@.contains_key(key) == old(self)@.insert(k, v).contains_key(
                            key,
                        ) by {
                        if old(self)@.contains_key(key) {
                            let j = choose|j: int| old(self).at(j, key);
                            assert(now.at(j, key));
                        }
                        if now@.contains_key(key) {
                            let j = choose|j: int| now.at(j, key);
                            if j < n {
                                assert(old(self).at(j, key));
                            }
                        }
                        if key == k {
                            assert(now.at(n, key));
                        }
                    }
                    assert forall|key: Seq<char>| now@.contains_key(key) implies now@[key] == old(self)@.insert(k, v)[key] by {
                        let j = choose|j: int| now.at(j, key);
                        now.lemma_entry(j);
                        if key != k {
                            assert(old(self).at(j, key));
                            old(self).lemma_entry(j);
                        } else {
                            assert(now.at(n, key));
                            assert(j == n);
                        }
                    }
                    assert(now@ =~= old(self)@.insert(k, v));
                    if old(self).names().contains(k) {
                        let j = choose|j: int|
                            0 <= j < old(self).names().len() && old(self).names()[j] == k;
                        assert(old(self).at(j, k));
                    }
                    assert(now.names() =~= old(self).names().push(k));
                }
            },
        }
    }
}

/// A view of the map in the slot `parent`. Two dictionaries are equal when
/// they are views of the same slot.
#[derive(Debug, Clone, Copy, PartialEq, Eq, Structural)]
pub struct Dict {
    pub parent: usize,
}

impl HasNew for Dict {
    open spec fn accepts(saved: SavedView) -> bool {
        saved is Dict
    }

    open spec fn made(parent: usize, saved: SavedView) -> Self {
        Dict { parent }
    }

    open spec fn slot(&self) -> usize {
        self.parent
    }

    fn new(parent: usize, saved: &Saved) -> (out: Self) {
        Dict { parent }
    }

    fn weak_parent(&self) -> (out: usize) {
        self.parent
    }
}

impl Dict {
    /// The map that the dictionary is a view of; `None` once its slot has
    /// been released.
    pub open spec fn map(self, store: Seq<SlotView>) -> Option<Map<Seq<char>, FrameView>> {
        if live(store, self.parent) && store[self.parent as int].saved->Some_0 is Dict {
            Some(store[self.parent as int].saved->Some_0->Dict_0)
        } else {
            None
        }
    }

    /// The names that the dictionary binds, in the order of their first
    /// binding; `None` once its slot has been released.
    pub open spec fn order(self, store: Seq<SlotView>) -> Option<Seq<Seq<char>>> {
        if live(store, self.parent) && store[self.parent as int].saved->Some_0 is Dict {
            Some(store[self.parent as int].saved->Some_0->Dict_1)
        } else {
            None
        }
    }

    /// What `find` answers.
    pub open spec fn find_spec(self, store: Seq<SlotView>, name: Seq<char>) -> Result<
        Option<FrameView>,
        ErrorView,
    > {
        match self.map(store) {
            Some(map) => Ok(
                if map.contains_key(name) {
                    Some(map[name])
                } else {
                    None
                },
            ),
            None => Err(ErrorView::Dropped),
        }
    }

    /// What `get` answers.
    pub open spec fn get_spec(self, store: Seq<SlotView>, name: Seq<char>) -> Result<
        FrameView,
        ErrorView,
    > {
        match self.find_spec(store, name) {
            Ok(Some(frame)) => Ok(frame),
            Ok(None) => Err(ErrorView::MissingKey(name)),
            Err(error) => Err(error),
        }
    }

    /// What `put` answers, and the store that it leaves on success.
    pub open spec fn put_spec(
        self,
        store: Seq<SlotView>,
        name: Seq<char>,
        frame: FrameView,
    ) -> Result<Seq<SlotView>, ErrorView> {
        match self.map(store) {
            Some(map) => Ok(
                store.update(
                    self.parent as int,
                    SlotView {
                        owner: store[self.parent as int].owner,
                        saved: Some(
                            SavedView::Dict(
                                map.insert(name, frame),
                                ordered(self.order(store)->Some_0, name),
                            ),
                        ),
                    },
                ),
            ),
            None => Err(ErrorView::Dropped),
        }
    }

    /// The map in the slot that the dictionary is a view of.
    pub fn parent_map<'a>(&self, store: &'a Store) -> (out: Option<&'a DictMap>)
        requires
            store.wf(),
        ensures
            match out {
                Some(map) => self.map(store@) == Some(map@) && self.order(store@) == Some(
                    map.names(),
                ) && map.wf(),
                None => self.map(store@) is None,
            },
    {
        match store.get(self.parent) {
            Some(Saved::Dict(map)) => Some(map),
            _ => None,
        }
    }

    /// The number of names that are bound; `Dropped` once the slot has been
    /// released.
    pub fn len(&self, store: &Store) -> (out: Result<usize, Error>)
        requires
            store.wf(),
        ensures
            match self.order(store@) {
                Some(order) => out == Ok::<usize, Error>(order.len() as usize),
                None => out == Err::<usize, Error>(Error::Dropped),
            },
    {
        match self.parent_map(store) {
            Some(map) => Ok(map.len()),
            None => Err(Error::Dropped),
        }
    }

    /// The frame that `name` is bound to, `None` if it is not bound;
    /// `Dropped` once the slot has been released.
    pub fn find(&self, store: &Store, name: &Name) -> (out: Result<Option<Frame>, Error>)
        requires
            store.wf(),
        ensures
            match out {
                Ok(Some(frame)) => self.find_spec(store@, name@) == Ok::<
                    Option<FrameView>,
                    ErrorView,
                >(Some(frame@)),
                Ok(None) => self.find_spec(store@, name@) == Ok::<Option<FrameView>, ErrorView>(
                    None,
                ),
                Err(error) => self.find_spec(store@, name@) == Err::<Option<FrameView>, ErrorView>(
                    error@,
                ),
            },
    {
        match self.parent_map(store) {
            Some(map) => Ok(map.find(name)),
            None => Err(Error::Dropped),
        }
    }

    /// The frame that `name` is bound to; `MissingKey` with the name if it
    /// is not bound, `Dropped` once the slot has been released.
    pub fn get(&self, store: &Store, name: Name) -> (out: Result<Frame, Error>)
        requires
            store.wf(),
        ensures
            match out {
                Ok(frame) => self.get_spec(store@, name@) == Ok::<FrameView, ErrorView>(frame@),
                Err(error) => self.get_spec(store@, name@) == Err::<FrameView, ErrorView>(error@),
            },
    {
        match self.find(store, &name) {
            Ok(Some(frame)) => Ok(frame),
            Ok(None) => Err(Error::MissingKey(name.into_string())),
            Err(error) => Err(error),
        }
    }

    /// Binds `name` to `frame`, in place of what it was bound to; `Dropped`,
    /// and the store as it was, once the slot has been released.
    pub fn put(&mut self, store: &mut Store, name: Name, frame: Frame) -> (out: Option<Error>)
        requires
            old(store).wf(),
        ensures
            final(store).wf(),
            *final(self) == *old(self),
            match out {
                None => old(self).put_spec(old(store)@, name@, frame@) == Ok::<
                    Seq<SlotView>,
                    ErrorView,
                >(final(store)@),
                Some(error) => old(self).put_spec(old(store)@, name@, frame@) == Err::<
                    Seq<SlotView>,
                    ErrorView,
                >(error@) && final(store)@ == old(store)@,
            },
    {
        if self.parent_map(store).is_none() {
            return Some(Error::Dropped);
        }
        proof {
            store.lemma_wf();
        }
        let saved = store.take(self.parent);
        let mut map = match saved {
            Saved::Dict(map) => map,
            _ => vstd::pervasive::unreached(),
        };
        map.insert(name, frame);
        store.set(self.parent, Saved::Dict(map));
        assert(store@ =~= old(self).put_spec(old(store)@, name@, frame@)->Ok_0);
        None
    }
}

/// A dictionary whose slot has been released answers `Dropped` to every
/// operation.
pub proof fn lemma_dropped_dict(dict: Dict, store: Seq<SlotView>, name: Seq<char>, frame: FrameView)
    requires
        !live(store, dict.parent),
    ensures
        dict.find_spec(store, name) == Err::<Option<FrameView>, ErrorView>(ErrorView::Dropped),
        dict.get_spec(store, name) == Err::<FrameView, ErrorView>(ErrorView::Dropped),
        dict.put_spec(store, name, frame) == Err::<Seq<SlotView>, ErrorView>(ErrorView::Dropped),
{
}

/// After a name has been bound in a dictionary, the dictionary gives the
/// frame for that name and, for every other name, what it gave before.
pub proof fn lemma_put_then_find(
    dict: Dict,
    store: Seq<SlotView>,
    name: Seq<char>,
    frame: FrameView,
    other: Seq<char>,
)
    requires
        dict.map(store) is Some,
    ensures
        dict.put_spec(store, name, frame) is Ok,
        dict.get_spec(dict.put_spec(store, name, frame)->Ok_0, name) == Ok::<
            FrameView,
            ErrorView,
        >(frame),
        other != name ==> dict.find_spec(dict.put_spec(store, name, frame)->Ok_0, other)
            == dict.find_spec(store, other),
{
}

/// The identity of a dictionary while it is being printed: its slot.
#[derive(Debug, Clone, Copy, PartialEq, Eq, Hash, Structural)]
pub struct DictFmt {
    pub parent: usize,
}

impl DictFmt {
    pub fn new(parent: usize) -> (out: Self)
        ensures
            out == (DictFmt { parent }),
    {
        DictFmt { parent }
    }
}

} // verus!
