//! The mathematical model of the buffer.
//!
//! A buffer is modelled by its stored values, its capacity, its write cursor
//! and its generation counter. Everything a handle can observe is derived
//! from these four: no generation is stored per slot.

use crate::handle::HandleView;
use vstd::prelude::*;

verus! {

/// The abstract state of a generational buffer.
pub struct BufferView<T> {
    /// The stored values, by slot.
    pub entries: Seq<T>,
    /// The number of slots, fixed at construction.
    pub capacity: nat,
    /// The slot the next insertion writes to.
    pub cursor: nat,
    /// The number of laps the cursor has completed, as the counter holds it.
    pub generation: nat,
}

/// The generation that follows `generation`: the counter wraps from its
/// largest value back to zero.
pub open spec fn next_generation(generation: nat) -> nat {
    if generation >= u32::MAX {
        0
    } else {
        generation + 1
    }
}

/// The generation before `generation`, stopping at zero.
pub open spec fn previous_generation(generation: nat) -> nat {
    if generation == 0 {
        0
    } else {
        (generation - 1) as nat
    }
}

impl<T> BufferView<T> {
    /// The states a buffer can be in. While it grows, the cursor is the
    /// length and no lap is complete; once full, the cursor is any slot. A
    /// buffer without slots never leaves its first state.
    pub open spec fn well_formed(self) -> bool {
        &&& self.generation <= u32::MAX
        &&& self.entries.len() <= self.capacity
        &&& self.entries.len() < self.capacity ==> self.cursor == self.entries.len()
            && self.generation == 0
        &&& self.capacity > 0 ==> self.cursor < self.capacity
        &&& self.capacity == 0 ==> self.cursor == 0 && self.generation == 0
    }

    /// The buffer as constructed or reset: no value, cursor and generation
    /// at zero.
    pub open spec fn empty(capacity: nat) -> Self {
        BufferView { entries: Seq::empty(), capacity, cursor: 0, generation: 0 }
    }

    /// The number of stored values.
    pub open spec fn len(self) -> nat {
        self.entries.len()
    }

    /// Whether every slot holds a value.
    pub open spec fn is_full(self) -> bool {
        self.entries.len() == self.capacity
    }

    /// The generation of the value in slot `index`: the current one behind
    /// the cursor, the one before at the cursor and ahead of it.
    pub open spec fn generation_at(self, index: nat) -> nat {
        if index < self.cursor {
            self.generation
        } else {
            previous_generation(self.generation)
        }
    }

    /// The handle that currently opens slot `index`.
    pub open spec fn handle_at(self, index: nat) -> HandleView {
        HandleView { index, generation: self.generation_at(index) }
    }

    /// Whether `handle` points to a stored value of its own generation.
    pub open spec fn is_valid(self, handle: HandleView) -> bool {
        &&& handle.index < self.entries.len()
        &&& handle.generation == self.generation_at(handle.index)
    }

    /// The value that `handle` opens, if it is valid.
    pub open spec fn get(self, handle: HandleView) -> Option<T> {
        if self.is_valid(handle) {
            Some(self.entries[handle.index as int])
        } else {
            None
        }
    }

    /// Whether the next insertion takes the generation counter from its
    /// largest value back to zero.
    pub open spec fn counter_wraps(self) -> bool {
        self.generation == u32::MAX && self.cursor + 1 == self.capacity
    }

    /// The handle that the next insertion returns.
    pub open spec fn next_handle(self) -> HandleView {
        HandleView { index: self.cursor, generation: self.generation }
    }

    /// The state after inserting `value`: it is appended while the buffer
    /// grows and replaces the value at the cursor once it is full; the cursor
    /// moves on by one slot, and the generation by one when the cursor wraps.
    pub open spec fn push(self, value: T) -> Self {
        let cursor: nat = (self.cursor + 1) % self.capacity;
        BufferView {
            entries: if self.entries.len() < self.capacity {
                self.entries.push(value)
            } else {
                self.entries.update(self.cursor as int, value)
            },
            capacity: self.capacity,
            cursor,
            generation: if cursor == 0 {
                next_generation(self.generation)
            } else {
                self.generation
            },
        }
    }

    /// The state after inserting `values` one after the other.
    pub open spec fn push_all(self, values: Seq<T>) -> Self
        decreases values.len(),
    {
        if values.len() == 0 {
            self
        } else {
            self.push_all(values.drop_last()).push(values.last())
        }
    }

    /// The handle that the insertion of `values[k]` returns, when `values`
    /// are inserted one after the other.
    pub open spec fn issued(self, values: Seq<T>, k: int) -> HandleView {
        self.push_all(values.take(k)).next_handle()
    }

    /// The state after replacing the value in slot `index`.
    pub open spec fn replace(self, index: nat, value: T) -> Self {
        BufferView { entries: self.entries.update(index as int, value), ..self }
    }

    /// Whether `handles` lists the valid handles, each one once, in whatever
    /// order.
    pub open spec fn is_enumeration(self, handles: Seq<HandleView>) -> bool {
        &&& handles.no_duplicates()
        &&& forall|handle: HandleView| handles.contains(handle) <==> self.is_valid(handle)
    }

    /// The state after a reset.
    pub open spec fn clear(self) -> Self {
        Self::empty(self.capacity)
    }
}

} // verus!
