//! Generation-checked handles.

use std::marker::PhantomData;
use vstd::prelude::*;
use vstd::std_specs::cmp::PartialEqSpecImpl;

verus! {

/// What a handle stands for: a slot, and the generation the slot had when
/// the handle was issued.
pub struct HandleView {
    pub index: nat,
    pub generation: nat,
}

/// A handle that combines an index with a generation counter.
///
/// The handle is typed according to the type of data it refers to,
/// but doesn't hold it.
///
/// A handle carries no mark of the buffer that issued it: another buffer of
/// the same element type accepts it wherever slot and generation happen to
/// match.
#[derive(Debug)]
pub struct Handle<T> {
    index: usize,
    generation: u32,
    phantom: PhantomData<T>,
}

impl<T> View for Handle<T> {
    type V = HandleView;

    closed spec fn view(&self) -> HandleView {
        HandleView { index: self.index as nat, generation: self.generation as nat }
    }
}

impl<T> Handle<T> {
    /// The handle to slot `index` in generation `generation`.
    pub(crate) fn new(index: usize, generation: u32) -> (handle: Self)
        ensures
            handle@ == (HandleView { index: index as nat, generation: generation as nat }),
    {
        Self { index, generation, phantom: PhantomData }
    }

    /// The slot the handle points to.
    pub(crate) fn index(&self) -> (index: usize)
        ensures
            index == self@.index,
    {
        self.index
    }

    /// The generation the slot had when the handle was issued.
    pub(crate) fn generation(&self) -> (generation: u32)
        ensures
            generation == self@.generation,
    {
        self.generation
    }

    /// Two handles of one element type that stand for the same slot and
    /// generation are the same handle.
    pub proof fn lemma_view_injective(self, other: Self)
        requires
            self@ == other@,
        ensures
            self == other,
    {
    }

    /// A handle never points past what a `usize` and a `u32` can hold.
    pub proof fn lemma_view_bounded(self)
        ensures
            self@.index <= usize::MAX,
            self@.generation <= u32::MAX,
    {
    }
}

impl<T> PartialEq for Handle<T> {
    fn eq(&self, other: &Self) -> (equal: bool) {
        self.index == other.index && self.generation == other.generation
    }
}

impl<T> PartialEqSpecImpl for Handle<T> {
    open spec fn obeys_eq_spec() -> bool {
        true
    }

    open spec fn eq_spec(&self, other: &Self) -> bool {
        self@ == other@
    }
}

impl<T> Eq for Handle<T> {}

impl<T> Clone for Handle<T> {
    fn clone(&self) -> (copy: Self)
        ensures
            copy == *self,
    {
        *self
    }
}

impl<T> Copy for Handle<T> {}

} // verus!
