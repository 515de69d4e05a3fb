//! Saveboxes and the store of slots behind them.
//!
//! Every list and every dictionary lives in a slot of the store, and every
//! slot but the first is owned by a savebox. Lists and dictionaries are views:
//! they name a slot and own nothing. Releasing a savebox empties every slot
//! that it owns, directly or through a savebox that it owns, and every view of
//! such a slot answers `Dropped` from then on.

use vstd::prelude::*;

use crate::error::Error;
use crate::text::{decimal, push_str, push_unsigned, string_of};
use crate::types::savable::{HasNew, Intern, Saved, SavedView};

verus! {

/// The slots that a savebox owns, oldest first.
#[derive(Debug, Clone)]
pub struct Save {
    savebox: Vec<usize>,
}

impl View for Save {
    type V = Seq<usize>;

    closed spec fn view(&self) -> Seq<usize> {
        self.savebox@
    }
}

impl Save {
    pub fn new() -> (out: Self)
        ensures
            out@ == Seq::<usize>::empty(),
    {
        Save { savebox: Vec::new() }
    }

    /// Records one more slot as owned.
    pub fn insert(&mut self, saved: usize)
        ensures
            final(self)@ == old(self)@.push(saved),
    {
        self.savebox.push(saved);
    }

    /// The number of slots that are owned.
    pub fn len(&self) -> (out: usize)
        ensures
            out == self@.len(),
    {
        self.savebox.len()
    }
}

/// A view of a slot that holds a savebox.
#[derive(Debug, Clone, Copy, PartialEq, Eq, Structural)]
pub struct SaveBox {
    pub parent: usize,
}

/// One slot: the savebox slot that owns it, and what it holds while it lives.
#[derive(Debug, Clone)]
pub struct Slot {
    owner: Option<usize>,
    saved: Option<Saved>,
}

/// The mathematical content of a slot.
pub ghost struct SlotView {
    pub owner: Option<usize>,
    pub saved: Option<SavedView>,
}

/// All slots that were ever made, in the order of their making. A slot keeps
/// its place for good; releasing it empties it.
#[derive(Debug, Clone)]
pub struct Store {
    slots: Vec<Slot>,
}

impl View for Store {
    type V = Seq<SlotView>;

    closed spec fn view(&self) -> Seq<SlotView> {
        Seq::new(
            self.slots.len() as nat,
            |i: int|
                SlotView {
                    owner: self.slots[i].owner,
                    saved: match self.slots[i].saved {
                        Some(saved) => Some(saved@),
                        None => None,
                    },
                },
        )
    }
}

/// The slot `id` exists and has not been released.
pub open spec fn live(store: Seq<SlotView>, id: usize) -> bool {
    id < store.len() && store[id as int].saved is Some
}

/// The slot `id` is the slot `root`, or is owned by it, directly or through
/// saveboxes that it owns.
pub open spec fn descends(store: Seq<SlotView>, id: int, root: int) -> bool
    decreases id,
{
    id == root || (0 < id < store.len() && match store[id].owner {
        Some(owner) => owner < id && descends(store, owner as int, root),
        None => false,
    })
}

/// The store after the savebox in the live slot `parent` has taken an object:
/// a new last slot holds the object, and the savebox lists it.
pub open spec fn stored(store: Seq<SlotView>, parent: usize, saved: SavedView) -> Seq<SlotView> {
    store.update(
        parent as int,
        SlotView {
            owner: store[parent as int].owner,
            saved: Some(
                SavedView::Save(store[parent as int].saved->Some_0->Save_0.push(store.len() as usize)),
            ),
        },
    ).push(SlotView { owner: Some(parent), saved: Some(saved) })
}

/// The store after the slot `root` and all that descends from it has been
/// released.
pub open spec fn released(store: Seq<SlotView>, root: usize) -> Seq<SlotView> {
    Seq::new(
        store.len(),
        |i: int|
            SlotView {
                owner: store[i].owner,
                saved: if descends(store, i, root as int) {
                    None
                } else {
                    store[i].saved
                },
            },
    )
}

/// Releasing a savebox drops what was put through it: a slot that the
/// savebox in the slot `parent` owns is not live once that savebox has been
/// released, whatever happened to the store in between.
pub proof fn lemma_release_drops(store: Seq<SlotView>, parent: usize, id: usize)
    requires
        id < store.len(),
        store[id as int].owner == Some(parent),
        parent < id,
    ensures
        !live(released(store, parent), id),
{
    assert(descends(store, parent as int, parent as int));
    assert(descends(store, id as int, parent as int));
}

/// Releasing a savebox also drops what was put through the saveboxes that
/// it owns: every slot that descends from the released one is not live.
pub proof fn lemma_release_drops_descendants(store: Seq<SlotView>, root: usize, id: usize)
    requires
        id < store.len(),
        descends(store, id as int, root as int),
    ensures
        !live(released(store, root), id),
{
}

/// Releasing a savebox leaves every slot that does not descend from it as
/// it was.
pub proof fn lemma_release_keeps_others(store: Seq<SlotView>, root: usize, id: usize)
    requires
        id < store.len(),
        !descends(store, id as int, root as int),
    ensures
        released(store, root)[id as int] == store[id as int],
{
}

/// What a savebox takes is owned by it: in the store that `put` leaves, the
/// new slot is live, holds the object, and descends from the savebox.
pub proof fn lemma_stored_is_owned(store: Seq<SlotView>, parent: usize, saved: SavedView)
    requires
        live(store, parent),
        store.len() < usize::MAX,
    ensures
        live(stored(store, parent, saved), store.len() as usize),
        stored(store, parent, saved)[store.len() as int].saved == Some(saved),
        stored(store, parent, saved)[store.len() as int].owner == Some(parent),
        descends(stored(store, parent, saved), store.len() as int, parent as int),
{
    let after = stored(store, parent, saved);
    assert(descends(after, parent as int, parent as int));
}

impl HasNew for SaveBox {
    open spec fn accepts(saved: SavedView) -> bool {
        saved is Save
    }

    open spec fn made(parent: usize, saved: SavedView) -> Self {
        SaveBox { parent }
    }

    open spec fn slot(&self) -> usize {
        self.parent
    }

    fn new(parent: usize, saved: &Saved) -> (out: Self) {
        SaveBox { parent }
    }

    fn weak_parent(&self) -> (out: usize) {
        self.parent
    }
}

impl SaveBox {
    /// The base savebox of every store: the one savebox that is never
    /// released, and through which every other slot is owned.
    pub fn base() -> (out: Self)
        ensures
            out == (SaveBox { parent: 0 }),
    {
        SaveBox { parent: 0 }
    }

    /// The savebox as the store holds it, if the view refers to a live
    /// savebox.
    pub open spec fn save(self, store: Seq<SlotView>) -> Option<Seq<usize>> {
        if live(store, self.parent) && store[self.parent as int].saved->Some_0 is Save {
            Some(store[self.parent as int].saved->Some_0->Save_0)
        } else {
            None
        }
    }

    /// The number of slots that the savebox owns; `Dropped` once it has been
    /// released.
    pub fn len(&self, store: &Store) -> (out: Result<usize, Error>)
        requires
            store.wf(),
        ensures
            match self.save(store@) {
                Some(save) => out == Ok::<usize, Error>(save.len() as usize),
                None => out == Err::<usize, Error>(Error::Dropped),
            },
    {
        match store.get(self.parent) {
            Some(Saved::Save(save)) => Ok(save.len()),
            _ => Err(Error::Dropped),
        }
    }

    /// What prints the savebox.
    pub open spec fn text(self, store: Seq<SlotView>) -> Seq<char> {
        match self.save(store) {
            Some(save) => "len="@ + decimal((save.len() as usize) as int),
            None => "-- Dropped --"@,
        }
    }

    /// The text that prints the savebox: the number of slots that it owns,
    /// or that it has been released.
    pub fn show(&self, store: &Store) -> (out: String)
        requires
            store.wf(),
        ensures
            out@ == self.text(store@),
    {
        let mut out: Vec<char> = Vec::new();
        match self.len(store) {
            Ok(len) => {
                push_str(&mut out, "len=");
                push_unsigned(&mut out, len);
            },
            Err(_) => push_str(&mut out, "-- Dropped --"),
        }
        assert(out@ =~= self.text(store@));
        string_of(&out)
    }

    /// Moves `obj` into a new slot that this savebox owns, and hands out the
    /// view of it; `Dropped`, and nothing stored, once the savebox has been
    /// released.
    pub fn put<T: Intern>(&mut self, store: &mut Store, obj: T) -> (out: Result<T::Interned, Error>)
        requires
            old(store).wf(),
            obj.storable(),
        ensures
            final(store).wf(),
            *final(self) == *old(self),
            match out {
                Ok(view) => {
                    &&& old(self).save(old(store)@) is Some
                    &&& final(store)@ == stored(old(store)@, old(self).parent, obj.wrapped())
                    &&& view == T::Interned::made(old(store)@.len() as usize, obj.wrapped())
                    &&& view.slot() == old(store)@.len()
                },
                Err(error) => {
                    &&& error == Error::Dropped
                    &&& old(self).save(old(store)@) is None
                    &&& final(store)@ == old(store)@
                },
            },
    {
        let parent = self.parent;
        let id = store.len();
        let is_save = match store.get(parent) {
            Some(Saved::Save(_)) => true,
            _ => false,
        };
        if !is_save {
            return Err(Error::Dropped);
        }
        let saved = obj.wrap();
        let view = T::Interned::new(id, &saved);
        store.adopt(parent, saved);
        Ok(view)
    }
}

impl Store {
    /// The first slot is the base savebox, which nothing owns and nothing
    /// releases; every other slot is owned by an older one; no dictionary
    /// binds a name twice.
    pub closed spec fn wf(&self) -> bool {
        &&& self.slots.len() >= 1
        &&& self.slots[0].owner is None
        &&& self.slots[0].saved matches Some(Saved::Save(_))
        &&& forall|i: int|
            0 < i < self.slots.len() ==> ((#[trigger] self.slots[i]).owner matches Some(owner)
                && owner < i)
        &&& forall|i: int|
            0 <= i < self.slots.len() ==> ((#[trigger] self.slots[i]).saved matches Some(saved)
                ==> saved.wf())
    }

    /// What the well-formedness of the store says of its content.
    pub proof fn lemma_wf(&self)
        requires
            self.wf(),
        ensures
            self@.len() >= 1,
            self@[0].owner is None,
            self@[0].saved matches Some(SavedView::Save(_)),
            forall|i: int|
                0 < i < self@.len() ==> ((#[trigger] self@[i]).owner matches Some(owner) && owner
                    < i),
    {
    }

    /// A store with the base savebox in its first slot.
    pub fn new() -> (out: Self)
        ensures
            out.wf(),
            out@ == seq![SlotView { owner: None, saved: Some(SavedView::Save(Seq::empty())) }],
    {
        let mut slots: Vec<Slot> = Vec::new();
        slots.push(Slot { owner: None, saved: Some(Saved::Save(Save::new())) });
        let out = Store { slots };
        assert(out@ =~= seq![SlotView { owner: None, saved: Some(SavedView::Save(Seq::empty())) }]);
        out
    }

    /// The number of slots that were ever made.
    pub fn len(&self) -> (out: usize)
        ensures
            out == self@.len(),
    {
        self.slots.len()
    }

    /// What the slot `id` holds, if it exists and has not been released.
    pub fn get(&self, id: usize) -> (out: Option<&Saved>)
        requires
            self.wf(),
        ensures
            match out {
                Some(saved) => live(self@, id) && self@[id as int].saved == Some(saved@)
                    && saved.wf(),
                None => !live(self@, id),
            },
    {
        if id < self.slots.len() {
            match &self.slots[id].saved {
                Some(saved) => Some(saved),
                None => None,
            }
        } else {
            None
        }
    }

    /// Puts new content into a slot.
    pub fn set(&mut self, id: usize, saved: Saved)
        requires
            old(self).wf(),
            id < old(self)@.len(),
            saved.wf(),
            id == 0 ==> saved is Save,
        ensures
            final(self).wf(),
            final(self)@ == old(self)@.update(
                id as int,
                SlotView { owner: old(self)@[id as int].owner, saved: Some(saved@) },
            ),
    {
        let owner = self.slots[id].owner;
        self.slots.set(id, Slot { owner, saved: Some(saved) });
        assert(self@ =~= old(self)@.update(
            id as int,
            SlotView { owner: old(self)@[id as int].owner, saved: Some(saved@) },
        ));
    }

    /// Releases a savebox: empties its slot and every slot that descends from
    /// it. Nothing happens, and the answer is `false`, for the base savebox
    /// and for a view that refers to no slot of this store.
    pub fn release(&mut self, savebox: &SaveBox) -> (out: bool)
        requires
            old(self).wf(),
        ensures
            final(self).wf(),
            out == (0 < savebox.parent < old(self)@.len()),
            final(self)@ == if out {
                released(old(self)@, savebox.parent)
            } else {
                old(self)@
            },
    {
        let n = self.slots.len();
        let root = savebox.parent;
        if root == 0 || root >= n {
            return false;
        }
        let ghost before = self@;
        let mut doomed: Vec<bool> = Vec::new();
        let mut i: usize = 0;
        while i < n
            invariant
                i <= n,
                n == self.slots.len(),
                n == before.len(),
                0 < root < n,
                before == old(self)@,
                old(self).wf(),
                doomed.len() == i,
                forall|j: int| 0 <= j < i ==> doomed[j] == descends(before, j, root as int),
                forall|j: int| i <= j < n ==> self.slots[j] == old(self).slots[j],
                forall|j: int| 0 <= j < n ==> self.slots[j].owner == old(self).slots[j].owner,
                forall|j: int|
                    0 <= j < i ==> self.slots[j].saved == if doomed[j] {
                        None
                    } else {
                        old(self).slots[j].saved
                    },
            decreases n - i,
        {
            let owner = self.slots[i].owner;
            let is_doomed = i == root || match owner {
                Some(owner) => owner < i && doomed[owner],
                None => false,
            };
            assert(before[i as int].owner == owner);
            assert(is_doomed == descends(before, i as int, root as int));
            if is_doomed {
                self.slots.set(i, Slot { owner, saved: None });
            }
            doomed.push(is_doomed);
            i += 1;
        }
        assert(!descends(before, 0, root as int));
        assert(!doomed[0]);
        assert(self.slots[0].saved == old(self).slots[0].saved);
        assert forall|j: int| 0 < j < self.slots.len() implies ((#[trigger] self.slots[j]).owner
            matches Some(owner) && owner < j) by {
            assert(self.slots[j].owner == old(self).slots[j].owner);
        }
        assert forall|j: int| 0 <= j < self.slots.len() implies ((#[trigger] self.slots[j]).saved
            matches Some(saved) ==> saved.wf()) by {
            assert(doomed[j] || self.slots[j].saved == old(self).slots[j].saved);
        }
        assert(self@ =~= released(before, root));
        true
    }

    /// Makes a new last slot with `saved` in it, owned by the live savebox in
    /// the slot `parent`.
    fn adopt(&mut self, parent: usize, saved: Saved)
        requires
            old(self).wf(),
            live(old(self)@, parent),
            old(self)@[parent as int].saved->Some_0 is Save,
            saved.wf(),
        ensures
            final(self).wf(),
            final(self)@ == stored(old(self)@, parent, saved@),
    {
        let id = self.slots.len();
        let owner = self.slots[parent].owner;
        let mut slot = Slot { owner, saved: None };
        core::mem::swap(&mut slot, &mut self.slots[parent]);
        let mut save = match slot.saved {
            Some(Saved::Save(save)) => save,
            _ => vstd::pervasive::unreached(),
        };
        save.insert(id);
        self.slots.set(parent, Slot { owner, saved: Some(Saved::Save(save)) });
        self.slots.push(Slot { owner: Some(parent), saved: Some(saved) });
        assert(self@ =~= stored(old(self)@, parent, saved@));
    }

    /// Takes the content out of a live slot, to be put back with `set`. Until
    /// then the slot looks released.
    pub fn take(&mut self, id: usize) -> (out: Saved)
        requires
            old(self).wf(),
            live(old(self)@, id),
            id != 0,
        ensures
            out.wf(),
            old(self)@[id as int].saved == Some(out@),
            final(self).wf(),
            final(self)@ == old(self)@.update(
                id as int,
                SlotView { owner: old(self)@[id as int].owner, saved: None },
            ),
    {
        let owner = self.slots[id].owner;
        let mut slot = Slot { owner, saved: None };
        core::mem::swap(&mut slot, &mut self.slots[id]);
        assert(self@ =~= old(self)@.update(
            id as int,
            SlotView { owner: old(self)@[id as int].owner, saved: None },
        ));
        match slot.saved {
            Some(saved) => saved,
            None => vstd::pervasive::unreached(),
        }
    }
}

} // verus!
