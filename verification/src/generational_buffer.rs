//! The buffer itself.

use crate::handle::{Handle, HandleView};
use crate::laws::lemma_cursor_step;
use crate::model::BufferView;
use vstd::prelude::*;

verus! {

/// A generic append-only circular buffer with generational IDs
///
/// Inserting returns a `Handle` that can be used to access the value later,
/// checking the item hasn't been replaced in the meantime.
///
/// A buffer of capacity zero is permanently empty: it can be built and
/// queried, and `push` must never be called on it.
#[derive(Debug)]
pub struct GenerationalBuffer<T> {
    entries: Vec<T>,
    max_capacity: usize,
    next_index: usize,
    current_generation: u32,
}

impl<T> View for GenerationalBuffer<T> {
    type V = BufferView<T>;

    closed spec fn view(&self) -> BufferView<T> {
        BufferView {
            entries: self.entries@,
            capacity: self.max_capacity as nat,
            cursor: self.next_index as nat,
            generation: self.current_generation as nat,
        }
    }
}

/// What the handles of `handles` stand for, in the same order.
pub open spec fn handle_views<T>(handles: Seq<Handle<T>>) -> Seq<HandleView> {
    handles.map_values(|handle: Handle<T>| handle@)
}

/// What the handles of `pairs` stand for, in the same order.
pub open spec fn pair_handle_views<T>(pairs: Seq<(Handle<T>, &T)>) -> Seq<HandleView> {
    pairs.map_values(|pair: (Handle<T>, &T)| pair.0@)
}

/// The values that `references` point to, in the same order.
pub open spec fn referenced_values<T>(references: Seq<&T>) -> Seq<T> {
    references.map_values(|value: &T| *value)
}

impl<T> GenerationalBuffer<T> {
    /// Every buffer is in a state that insertions and resets can reach from
    /// a new buffer, and its capacity fits the machine.
    #[verifier::type_invariant]
    pub open spec fn well_formed(&self) -> bool {
        &&& self@.well_formed()
        &&& self@.capacity <= usize::MAX
    }

    /// Creates a new generational buffer with the specified capacity
    pub fn new(max_capacity: usize) -> (buffer: Self)
        ensures
            buffer@ == BufferView::<T>::empty(max_capacity as nat),
    {
        Self { entries: Vec::new(), max_capacity, next_index: 0, current_generation: 0 }
    }

    /// Returns the maximum capacity of the buffer
    pub fn capacity(&self) -> (capacity: usize)
        ensures
            capacity == self@.capacity,
    {
        self.max_capacity
    }

    /// Returns the current number of entries in the buffer
    pub fn len(&self) -> (len: usize)
        ensures
            len == self@.len(),
            len <= self@.capacity,
    {
        proof {
            use_type_invariant(self);
        }
        self.entries.len()
    }

    /// Returns true if the buffer is empty
    pub fn is_empty(&self) -> (empty: bool)
        ensures
            empty == (self@.len() == 0),
    {
        self.entries.is_empty()
    }

    /// Returns true if the buffer has reached its maximum capacity
    pub fn is_full(&self) -> (full: bool)
        ensures
            full == self@.is_full(),
    {
        self.entries.len() == self.max_capacity
    }

    /// Inserts a value into the buffer and returns a handle to it.
    ///
    /// This removes the oldest entry if the buffer is full.
    ///
    /// The buffer must have at least one slot. The handle opens the value
    /// at once, but for the one insertion in which the generation counter
    /// goes from its largest value back to zero.
    pub fn push(&mut self, value: T) -> (handle: Handle<T>)
        requires
            old(self)@.capacity > 0,
        ensures
            handle@ == old(self)@.next_handle(),
            final(self)@ == old(self)@.push(value),
            !old(self)@.counter_wraps() ==> final(self)@.get(handle@) == Some(value),
    {
        proof {
            use_type_invariant(&*self);
            lemma_cursor_step(self@.cursor, self@.capacity);
        }
        let mut taken = Self::new(self.max_capacity);
        std::mem::swap(self, &mut taken);
        let GenerationalBuffer { mut entries, max_capacity, next_index, current_generation } = taken;
        let index = next_index;
        let generation = current_generation;

        if entries.len() < max_capacity {
            // Buffer is not full yet, just append
            entries.push(value);
        } else {
            // Buffer is full, overwrite the oldest entry
            entries[index] = value;
        }

        // Create handle with current generation
        let handle = Handle::new(index, generation);

        // Advance to the next position
        let next_index = (index + 1) % max_capacity;

        // If we've wrapped around, increment the generation
        let current_generation = if next_index == 0 {
            generation.wrapping_add(1)
        } else {
            generation
        };

        *self = GenerationalBuffer { entries, max_capacity, next_index, current_generation };
        handle
    }

    /// Gets a reference to the value associated with the handle
    pub fn get(&self, handle: Handle<T>) -> (value: Option<&T>)
        ensures
            value.is_some() == self@.is_valid(handle@),
            (match value {
                Some(value) => self@.get(handle@) == Some(*value),
                None => self@.get(handle@).is_none(),
            }),
    {
        if handle.index() >= self.entries.len() {
            return None;
        }

        // Calculate the generation that should be at this index
        let expected_generation = self.calculate_generation_at_index(handle.index());

        // Check if the generation matches
        if handle.generation() == expected_generation {
            Some(&self.entries[handle.index()])
        } else {
            None
        }
    }

    /// Gets a mutable reference to the value associated with the handle
    ///
    /// Writing through the reference changes the value in the handle's slot
    /// and nothing else.
    pub fn get_mut(&mut self, handle: Handle<T>) -> (value: Option<&mut T>)
        ensures
            value.is_some() == old(self)@.is_valid(handle@),
            (match value {
                Some(value) => old(self)@.get(handle@) == Some(*value)
                    && final(self)@ == old(self)@.replace(handle@.index, *final(value)),
                None => old(self)@.get(handle@).is_none() && final(self)@ == old(self)@,
            }),
    {
        proof {
            use_type_invariant(&*self);
        }
        if handle.index() >= self.entries.len() {
            return None;
        }

        // Calculate the generation that should be at this index
        let expected_generation = self.calculate_generation_at_index(handle.index());

        // Check if the generation matches
        if handle.generation() == expected_generation {
            Some(&mut self.entries[handle.index()])
        } else {
            None
        }
    }

    /// Checks if a handle is still valid (points to existing data)
    pub fn is_valid(&self, handle: Handle<T>) -> (valid: bool)
        ensures
            valid == self@.is_valid(handle@),
            valid == self@.get(handle@).is_some(),
    {
        if handle.index() >= self.entries.len() {
            return false;
        }

        let expected_generation = self.calculate_generation_at_index(handle.index());
        handle.generation() == expected_generation
    }

    /// Returns all entries with their handles, in no particular order
    pub fn iter(&self) -> (pairs: Vec<(Handle<T>, &T)>)
        ensures
            pairs@.len() == self@.len(),
            self@.is_enumeration(pair_handle_views(pairs@)),
            forall|i: int|
                0 <= i < pairs@.len() ==> self@.is_valid((#[trigger] pairs@[i]).0@)
                    && self@.get(pairs@[i].0@) == Some(*pairs@[i].1),
    {
        let mut pairs: Vec<(Handle<T>, &T)> = Vec::new();
        let mut i: usize = 0;
        while i < self.entries.len()
            invariant
                i <= self.entries.len(),
                pairs@.len() == i,
                forall|j: int|
                    0 <= j < i ==> (#[trigger] pairs@[j]).0@ == self@.handle_at(j as nat)
                        && *pairs@[j].1 == self@.entries[j],
            decreases self.entries.len() - i,
        {
            let generation = self.calculate_generation_at_index(i);
            pairs.push((Handle::new(i, generation), &self.entries[i]));
            i += 1;
        }
        proof {
            let views = pair_handle_views(pairs@);
            assert forall|handle: HandleView| self@.is_valid(handle) implies views.contains(
                handle,
            ) by {
                assert(views[handle.index as int] == handle);
            }
        }
        pairs
    }

    /// Returns all entries, in no particular order
    pub fn values(&self) -> (values: Vec<&T>)
        ensures
            values@.len() == self@.len(),
            referenced_values(values@).to_multiset() == self@.entries.to_multiset(),
    {
        let mut values: Vec<&T> = Vec::new();
        let mut i: usize = 0;
        while i < self.entries.len()
            invariant
                i <= self.entries.len(),
                values@.len() == i,
                forall|j: int| 0 <= j < i ==> *(#[trigger] values@[j]) == self@.entries[j],
            decreases self.entries.len() - i,
        {
            values.push(&self.entries[i]);
            i += 1;
        }
        proof {
            assert(referenced_values(values@) =~= self@.entries);
        }
        values
    }

    /// Returns all valid handles, in no particular order
    pub fn handles(&self) -> (handles: Vec<Handle<T>>)
        ensures
            handles@.len() == self@.len(),
            self@.is_enumeration(handle_views(handles@)),
            forall|i: int| 0 <= i < handles@.len() ==> self@.is_valid((#[trigger] handles@[i])@),
    {
        let mut handles: Vec<Handle<T>> = Vec::new();
        let mut i: usize = 0;
        while i < self.entries.len()
            invariant
                i <= self.entries.len(),
                handles@.len() == i,
                forall|j: int|
                    0 <= j < i ==> (#[trigger] handles@[j])@ == self@.handle_at(j as nat),
            decreases self.entries.len() - i,
        {
            let generation = self.calculate_generation_at_index(i);
            handles.push(Handle::new(i, generation));
            i += 1;
        }
        proof {
            let views = handle_views(handles@);
            assert forall|handle: HandleView| self@.is_valid(handle) implies views.contains(
                handle,
            ) by {
                assert(views[handle.index as int] == handle);
            }
        }
        handles
    }

    /// Empties the buffer: every value is dropped, the cursor and the
    /// generation go back to zero, and no handle issued so far is valid.
    pub fn clear(&mut self)
        ensures
            final(self)@ == old(self)@.clear(),
            final(self)@.len() == 0,
            forall|handle: HandleView| !final(self)@.is_valid(handle),
    {
        let mut taken = Self::new(self.max_capacity);
        std::mem::swap(self, &mut taken);
        let GenerationalBuffer { mut entries, max_capacity, next_index: _, current_generation: _ } =
            taken;
        entries.clear();
        *self = GenerationalBuffer { entries, max_capacity, next_index: 0, current_generation: 0 };
    }

    /// Calculate what generation should be at a given index
    fn calculate_generation_at_index(&self, index: usize) -> (generation: u32)
        ensures
            generation == self@.generation_at(index as nat),
    {
        if index < self.next_index {
            self.current_generation
        } else {
            self.current_generation.saturating_sub(1)
        }
    }
}

} // verus!
