//! What a savebox can own, and how an object becomes a view of its slot.

use vstd::prelude::*;

use crate::types::dict::{DictFmt, DictMap};
use crate::types::list::ListFmt;
use crate::types::save::Save;
use crate::vm::frame::{views, Frame, FrameView};

verus! {

/// The identity of a composite while it is being printed.
#[derive(Debug, Clone, Copy, PartialEq, Eq, Hash, Structural)]
pub enum AnyFmt {
    List(ListFmt),
    Dict(DictFmt),
}

impl From<ListFmt> for AnyFmt {
    fn from(item: ListFmt) -> (out: Self) {
        AnyFmt::List(item)
    }
}

impl vstd::std_specs::convert::FromSpecImpl<ListFmt> for AnyFmt {
    open spec fn obeys_from_spec() -> bool {
        true
    }

    open spec fn from_spec(item: ListFmt) -> Self {
        AnyFmt::List(item)
    }
}

impl From<DictFmt> for AnyFmt {
    fn from(item: DictFmt) -> (out: Self) {
        AnyFmt::Dict(item)
    }
}

impl vstd::std_specs::convert::FromSpecImpl<DictFmt> for AnyFmt {
    open spec fn obeys_from_spec() -> bool {
        true
    }

    open spec fn from_spec(item: DictFmt) -> Self {
        AnyFmt::Dict(item)
    }
}

/// The content of a slot.
#[derive(Debug, Clone)]
pub enum Saved {
    List(Vec<Frame>),
    Dict(DictMap),
    Save(Save),
}

/// The mathematical content of a [`Saved`].
pub ghost enum SavedView {
    List(Seq<FrameView>),
    /// What the names are bound to, and the names in the order of their
    /// first binding.
    Dict(Map<Seq<char>, FrameView>, Seq<Seq<char>>),
    Save(Seq<usize>),
}

impl View for Saved {
    type V = SavedView;

    open spec fn view(&self) -> SavedView {
        match *self {
            Saved::List(list) => SavedView::List(views(list@)),
            Saved::Dict(dict) => SavedView::Dict(dict@, dict.names()),
            Saved::Save(save) => SavedView::Save(save@),
        }
    }
}

impl Saved {
    /// A dictionary in the slot binds no name twice.
    pub open spec fn wf(&self) -> bool {
        match *self {
            Saved::Dict(dict) => dict.wf(),
            _ => true,
        }
    }
}

/// Access to the content of a slot as the one kind of object `T`.
pub trait Unwrap<T> {
    /// Whether the slot holds a `T`.
    spec fn holds(&self) -> bool;

    /// The `T` that the slot holds.
    spec fn held(&self) -> T;

    fn unwrap(&self) -> (out: &T)
        requires
            self.holds(),
        ensures
            *out == self.held(),
    ;

    fn unwrap_mut(&mut self) -> (out: &mut T)
        requires
            old(self).holds(),
        ensures
            *out == old(self).held(),
            final(self).holds(),
            final(self).held() == *final(out),
    ;
}

impl Unwrap<Vec<Frame>> for Saved {
    open spec fn holds(&self) -> bool {
        *self is List
    }

    open spec fn held(&self) -> Vec<Frame> {
        self->List_0
    }

    fn unwrap(&self) -> (out: &Vec<Frame>) {
        match self {
            Saved::List(list) => list,
            _ => vstd::pervasive::unreached(),
        }
    }

    fn unwrap_mut(&mut self) -> (out: &mut Vec<Frame>) {
        match self {
            Saved::List(list) => list,
            _ => vstd::pervasive::unreached(),
        }
    }
}

impl Unwrap<DictMap> for Saved {
    open spec fn holds(&self) -> bool {
        *self is Dict
    }

    open spec fn held(&self) -> DictMap {
        self->Dict_0
    }

    fn unwrap(&self) -> (out: &DictMap) {
        match self {
            Saved::Dict(dict) => dict,
            _ => vstd::pervasive::unreached(),
        }
    }

    fn unwrap_mut(&mut self) -> (out: &mut DictMap) {
        match self {
            Saved::Dict(dict) => dict,
            _ => vstd::pervasive::unreached(),
        }
    }
}

impl Unwrap<Save> for Saved {
    open spec fn holds(&self) -> bool {
        *self is Save
    }

    open spec fn held(&self) -> Save {
        self->Save_0
    }

    fn unwrap(&self) -> (out: &Save) {
        match self {
            Saved::Save(save) => save,
            _ => vstd::pervasive::unreached(),
        }
    }

    fn unwrap_mut(&mut self) -> (out: &mut Save) {
        match self {
            Saved::Save(save) => save,
            _ => vstd::pervasive::unreached(),
        }
    }
}

/// A view that can be made of a slot.
pub trait HasNew: Sized {
    /// Whether a view of this kind can be made of such content.
    spec fn accepts(saved: SavedView) -> bool;

    /// The view of the whole of the content in the slot `parent`.
    spec fn made(parent: usize, saved: SavedView) -> Self;

    /// The slot that a view refers to.
    spec fn slot(&self) -> usize;

    fn new(parent: usize, saved: &Saved) -> (out: Self)
        requires
            Self::accepts(saved@),
        ensures
            out == Self::made(parent, saved@),
            out.slot() == parent,
    ;

    /// The slot that the view refers to.
    fn weak_parent(&self) -> (out: usize)
        ensures
            out == self.slot(),
    ;
}

/// An object that a savebox can take: it is wrapped as the content of a new
/// slot, and the savebox hands out a view of it.
pub trait Intern: Sized {
    type Interned: HasNew;

    /// Whether the object can be stored.
    spec fn storable(&self) -> bool;

    /// The content of the slot that the object becomes.
    spec fn wrapped(&self) -> SavedView;

    fn wrap(self) -> (out: Saved)
        requires
            self.storable(),
        ensures
            out@ == self.wrapped(),
            out.wf(),
            Self::Interned::accepts(out@),
    ;
}

impl Intern for Save {
    type Interned = crate::types::save::SaveBox;

    open spec fn storable(&self) -> bool {
        true
    }

    open spec fn wrapped(&self) -> SavedView {
        SavedView::Save(self@)
    }

    fn wrap(self) -> (out: Saved) {
        Saved::Save(self)
    }
}

impl Intern for DictMap {
    type Interned = crate::types::dict::Dict;

    open spec fn storable(&self) -> bool {
        self.wf()
    }

    open spec fn wrapped(&self) -> SavedView {
        SavedView::Dict(self@, self.names())
    }

    fn wrap(self) -> (out: Saved) {
        Saved::Dict(self)
    }
}

impl Intern for Vec<Frame> {
    type Interned = crate::types::list::List;

    open spec fn storable(&self) -> bool {
        true
    }

    open spec fn wrapped(&self) -> SavedView {
        SavedView::List(views(self@))
    }

    fn wrap(self) -> (out: Saved) {
        assert(views(self@).len() == self.len());
        Saved::List(self)
    }
}

} // verus!
