//! Lists: windows into a vector of frames that a savebox owns.

use vstd::prelude::*;

use crate::error::{Error, ErrorView};
use crate::types::savable::{HasNew, Saved, SavedView};
use crate::types::save::{live, SlotView, Store};
use crate::vm::frame::{views, Frame, FrameView};

verus! {

/// A view of the frames `[start, start + len)` of the vector in the slot
/// `parent`. Views of one slot share its frames: what one view puts, every
/// view that covers the place gets. Two lists are equal when they are the
/// same window of the same slot.
#[derive(Debug, Clone, Copy, PartialEq, Eq, Structural)]
pub struct List {
    pub parent: usize,
    pub start: usize,
    pub len: usize,
}

impl HasNew for List {
    open spec fn accepts(saved: SavedView) -> bool {
        saved is List && saved->List_0.len() <= usize::MAX
    }

    /// The view of all the frames in the slot.
    open spec fn made(parent: usize, saved: SavedView) -> Self {
        List { parent, start: 0, len: saved->List_0.len() as usize }
    }

    open spec fn slot(&self) -> usize {
        self.parent
    }

    fn new(parent: usize, saved: &Saved) -> (out: Self) {
        match saved {
            Saved::List(list) => List { parent, start: 0, len: list.len() },
            _ => vstd::pervasive::unreached(),
        }
    }

    fn weak_parent(&self) -> (out: usize) {
        self.parent
    }
}

/// The bound that `range` reports: `start + len`, or the largest offset if
/// the sum is no offset.
pub open spec fn window_end(start: usize, len: usize) -> usize {
    if start + len > usize::MAX {
        usize::MAX
    } else {
        (start + len) as usize
    }
}

impl List {
    /// The frames of the slot, if the list is a view of a live slot that
    /// holds frames and its window lies within them (and within what can be
    /// addressed).
    pub open spec fn backing(self, store: Seq<SlotView>) -> Option<Seq<FrameView>> {
        if live(store, self.parent) && store[self.parent as int].saved->Some_0 is List
            && self.start + self.len <= store[self.parent as int].saved->Some_0->List_0.len()
            && self.start + self.len <= usize::MAX {
            Some(store[self.parent as int].saved->Some_0->List_0)
        } else {
            None
        }
    }

    /// The frames that the list denotes; `None` once its slot has been
    /// released.
    pub open spec fn frames(self, store: Seq<SlotView>) -> Option<Seq<FrameView>> {
        match self.backing(store) {
            Some(all) => Some(all.subrange(self.start as int, self.start + self.len)),
            None => None,
        }
    }

    /// What `len` answers.
    pub open spec fn len_spec(self, store: Seq<SlotView>) -> Result<usize, ErrorView> {
        match self.backing(store) {
            Some(_) => Ok(self.len),
            None => Err(ErrorView::Dropped),
        }
    }

    /// What `get` answers: `Dropped` once the slot has been released,
    /// whatever the index; of a live list `Range` if the index is not below
    /// the length, and else the frame.
    pub open spec fn get_spec(self, store: Seq<SlotView>, index: usize) -> Result<
        FrameView,
        ErrorView,
    > {
        match self.backing(store) {
            None => Err(ErrorView::Dropped),
            Some(all) => if index >= self.len {
                Err(ErrorView::Range { len: self.len, index })
            } else {
                Ok(all[self.start + index])
            },
        }
    }

    /// What `put` answers, and the store that it leaves on success:
    /// `Dropped` once the slot has been released, whatever the index; of a
    /// live list `Range` if the index is not below the length.
    pub open spec fn put_spec(self, store: Seq<SlotView>, index: usize, frame: FrameView) -> Result<
        Seq<SlotView>,
        ErrorView,
    > {
        match self.backing(store) {
            None => Err(ErrorView::Dropped),
            Some(all) => if index >= self.len {
                Err(ErrorView::Range { len: self.len, index })
            } else {
                Ok(
                    store.update(
                        self.parent as int,
                        SlotView {
                            owner: store[self.parent as int].owner,
                            saved: Some(SavedView::List(all.update(self.start + index, frame))),
                        },
                    ),
                )
            },
        }
    }

    /// What `range` answers: `Dropped` once the slot has been released,
    /// whatever the window; of a live list `Range` if the window does not
    /// lie within the list, and else the list of the window.
    pub open spec fn range_spec(self, store: Seq<SlotView>, start: usize, len: usize) -> Result<
        List,
        ErrorView,
    > {
        match self.backing(store) {
            None => Err(ErrorView::Dropped),
            Some(_) => if start + len > self.len {
                Err(ErrorView::Range { len: self.len, index: window_end(start, len) })
            } else {
                Ok(List { parent: self.parent, start: (self.start + start) as usize, len })
            },
        }
    }

    /// The frames of the slot that the list is a view of.
    pub fn parent_frames<'a>(&self, store: &'a Store) -> (out: Option<&'a Vec<Frame>>)
        requires
            store.wf(),
        ensures
            match out {
                Some(all) => self.backing(store@) == Some(views(all@)) && self.start + self.len
                    <= all.len(),
                None => self.backing(store@) is None,
            },
    {
        match store.get(self.parent) {
            Some(Saved::List(all)) => {
                if self.start <= all.len() && self.len <= all.len() - self.start {
                    assert(views(all@).len() == all.len());
                    Some(all)
                } else {
                    assert(views(all@).len() == all.len());
                    None
                }
            },
            _ => None,
        }
    }

    /// The number of frames that the list denotes; `Dropped` once its slot
    /// has been released.
    pub fn len(&self, store: &Store) -> (out: Result<usize, Error>)
        requires
            store.wf(),
        ensures
            match out {
                Ok(len) => self.len_spec(store@) == Ok::<usize, ErrorView>(len),
                Err(error) => self.len_spec(store@) == Err::<usize, ErrorView>(error@),
            },
    {
        match self.parent_frames(store) {
            Some(_) => Ok(self.len),
            None => Err(Error::Dropped),
        }
    }

    /// The frame at `index`: `Dropped` once the slot has been released,
    /// else `Range` if the index is not below the length.
    pub fn get(&self, store: &Store, index: usize) -> (out: Result<Frame, Error>)
        requires
            store.wf(),
        ensures
            match out {
                Ok(frame) => self.get_spec(store@, index) == Ok::<FrameView, ErrorView>(frame@),
                Err(error) => self.get_spec(store@, index) == Err::<FrameView, ErrorView>(error@),
            },
    {
        match self.parent_frames(store) {
            None => Err(Error::Dropped),
            Some(all) => if index >= self.len {
                Err(Error::Range { len: self.len, index })
            } else {
                Ok(all[self.start + index].copy())
            },
        }
    }

    /// Puts `frame` at `index`, for every view of the slot to see:
    /// `Dropped` once the slot has been released, else `Range` if the index
    /// is not below the length. On failure the store is as it was.
    pub fn put(&mut self, store: &mut Store, index: usize, frame: Frame) -> (out: Option<Error>)
        requires
            old(store).wf(),
        ensures
            final(store).wf(),
            *final(self) == *old(self),
            match out {
                None => old(self).put_spec(old(store)@, index, frame@) == Ok::<
                    Seq<SlotView>,
                    ErrorView,
                >(final(store)@),
                Some(error) => old(self).put_spec(old(store)@, index, frame@) == Err::<
                    Seq<SlotView>,
                    ErrorView,
                >(error@) && final(store)@ == old(store)@,
            },
    {
        if self.parent_frames(store).is_none() {
            return Some(Error::Dropped);
        }
        if index >= self.len {
            return Some(Error::Range { len: self.len, index });
        }
        proof {
            store.lemma_wf();
        }
        let saved = store.take(self.parent);
        let mut all = match saved {
            Saved::List(all) => all,
            _ => vstd::pervasive::unreached(),
        };
        let ghost before = all@;
        assert(views(before).len() == before.len());
        all.set(self.start + index, frame);
        assert(views(all@) =~= views(before).update(self.start + index, frame@));
        store.set(self.parent, Saved::List(all));
        assert(store@ =~= old(self).put_spec(old(store)@, index, frame@)->Ok_0);
        None
    }

    /// The view of `len` frames of this list from its frame `start` on. It
    /// shares the slot. `Dropped` once the slot has been released, else
    /// `Range` if the window does not lie within the list.
    pub fn range(&self, store: &Store, start: usize, len: usize) -> (out: Result<List, Error>)
        requires
            store.wf(),
        ensures
            match out {
                Ok(list) => self.range_spec(store@, start, len) == Ok::<List, ErrorView>(list),
                Err(error) => self.range_spec(store@, start, len) == Err::<List, ErrorView>(
                    error@,
                ),
            },
    {
        if self.parent_frames(store).is_none() {
            return Err(Error::Dropped);
        }
        if start > self.len || len > self.len - start {
            let index = match start.checked_add(len) {
                Some(end) => end,
                None => usize::MAX,
            };
            return Err(Error::Range { len: self.len, index });
        }
        Ok(List { parent: self.parent, start: self.start + start, len })
    }
}

/// After a frame has been put at an index of a list, the list gives that
/// frame at that index, and its length is what it was.
pub proof fn lemma_put_then_get(list: List, store: Seq<SlotView>, index: usize, frame: FrameView)
    requires
        list.len_spec(store) is Ok,
        index < list.len,
    ensures
        list.put_spec(store, index, frame) is Ok,
        list.get_spec(list.put_spec(store, index, frame)->Ok_0, index) == Ok::<
            FrameView,
            ErrorView,
        >(frame),
        list.len_spec(list.put_spec(store, index, frame)->Ok_0) == list.len_spec(store),
{
}

/// Putting a frame at one index of a list leaves the frames at its other
/// indices as they were.
pub proof fn lemma_put_keeps_others(
    list: List,
    store: Seq<SlotView>,
    index: usize,
    frame: FrameView,
    other: usize,
)
    requires
        list.len_spec(store) is Ok,
        index < list.len,
        other < list.len,
        other != index,
    ensures
        list.get_spec(list.put_spec(store, index, frame)->Ok_0, other) == list.get_spec(
            store,
            other,
        ),
{
}

/// Views of one slot share its frames: what is put through one list is what
/// another list of the same slot gets, wherever its window covers the place.
pub proof fn lemma_put_is_shared(
    list: List,
    store: Seq<SlotView>,
    index: usize,
    frame: FrameView,
    other: List,
    place: usize,
)
    requires
        list.len_spec(store) is Ok,
        other.len_spec(store) is Ok,
        other.parent == list.parent,
        index < list.len,
        place < other.len,
        other.start + place == list.start + index,
    ensures
        other.get_spec(list.put_spec(store, index, frame)->Ok_0, place) == Ok::<
            FrameView,
            ErrorView,
        >(frame),
{
}

/// A sublist denotes the frames of its window: frame `i` of
/// `range(start, len)` is frame `start + i` of the list.
pub proof fn lemma_range_frames(list: List, store: Seq<SlotView>, start: usize, len: usize, i: usize)
    requires
        list.range_spec(store, start, len) is Ok,
        i < len,
    ensures
        list.range_spec(store, start, len)->Ok_0.get_spec(store, i) == list.get_spec(
            store,
            (start + i) as usize,
        ),
{
}

/// A list whose slot has been released answers `Dropped` to every
/// operation, whatever its arguments.
pub proof fn lemma_dropped_list(
    list: List,
    store: Seq<SlotView>,
    index: usize,
    frame: FrameView,
    start: usize,
    len: usize,
)
    requires
        !live(store, list.parent),
    ensures
        list.len_spec(store) == Err::<usize, ErrorView>(ErrorView::Dropped),
        list.get_spec(store, index) == Err::<FrameView, ErrorView>(ErrorView::Dropped),
        list.put_spec(store, index, frame) == Err::<Seq<SlotView>, ErrorView>(
            ErrorView::Dropped,
        ),
        list.range_spec(store, start, len) == Err::<List, ErrorView>(ErrorView::Dropped),
{
}

/// The identity of a list while it is being printed: its slot and window.
#[derive(Debug, Clone, Copy, PartialEq, Eq, Hash, Structural)]
pub struct ListFmt {
    pub parent: usize,
    pub start: usize,
    pub len: usize,
}

impl ListFmt {
    pub fn new(parent: usize, start: usize, len: usize) -> (out: Self)
        ensures
            out == (ListFmt { parent, start, len }),
    {
        ListFmt { parent, start, len }
    }
}

} // verus!
