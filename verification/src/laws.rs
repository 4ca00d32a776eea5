//! What holds of every buffer, proved over the model.
//!
//! First come the laws of a single state and of a single step, then those
//! of a run of insertions, then the one on enumerations.

use crate::arith::{lemma_div_mod_step, lemma_mod_differs};
use crate::handle::HandleView;
use crate::model::BufferView;
use vstd::arithmetic::div_mod::{
    lemma_basic_div, lemma_div_is_ordered, lemma_fundamental_div_mod,
    lemma_fundamental_div_mod_converse, lemma_mod_bound, lemma_mod_self_0, lemma_small_mod,
};
use vstd::prelude::*;

verus! {

/// A handle is valid exactly when a lookup through it finds a value.
pub proof fn lemma_valid_iff_get<T>(buffer: BufferView<T>, handle: HandleView)
    ensures
        buffer.is_valid(handle) <==> buffer.get(handle).is_some(),
{
}

/// A new buffer, and a buffer after a reset, holds nothing: no handle is
/// valid, whatever issued it.
pub proof fn lemma_empty_has_no_valid_handle<T>(capacity: nat, handle: HandleView)
    ensures
        BufferView::<T>::empty(capacity).well_formed(),
        BufferView::<T>::empty(capacity).len() == 0,
        !BufferView::<T>::empty(capacity).is_valid(handle),
{
}

/// The cursor moves to the next slot, and from the last slot back to the
/// first.
pub proof fn lemma_cursor_step(cursor: nat, capacity: nat)
    requires
        cursor < capacity,
    ensures
        (cursor + 1) % capacity == if cursor + 1 == capacity {
            0
        } else {
            cursor + 1
        },
{
    if cursor + 1 == capacity {
        lemma_mod_self_0(capacity as int);
    } else {
        lemma_small_mod(cursor + 1, capacity);
    }
}

/// An insertion leads from one state of the buffer to another: the length
/// never passes the capacity, and a full buffer stays full.
pub proof fn lemma_push_well_formed<T>(buffer: BufferView<T>, value: T)
    requires
        buffer.well_formed(),
        buffer.capacity > 0,
    ensures
        buffer.push(value).well_formed(),
        buffer.push(value).capacity == buffer.capacity,
        buffer.push(value).len() == if buffer.is_full() {
            buffer.len()
        } else {
            buffer.len() + 1
        },
        buffer.is_full() ==> buffer.push(value).is_full(),
{
    lemma_cursor_step(buffer.cursor, buffer.capacity);
}

/// The handle that an insertion returns opens the inserted value right
/// after the insertion, unless the insertion takes the generation counter
/// back to zero.
pub proof fn lemma_push_then_get<T>(buffer: BufferView<T>, value: T)
    requires
        buffer.well_formed(),
        buffer.capacity > 0,
        !buffer.counter_wraps(),
    ensures
        buffer.push(value).get(buffer.next_handle()) == Some(value),
{
    lemma_cursor_step(buffer.cursor, buffer.capacity);
}

/// An insertion leaves every valid handle to another slot as it was: it
/// still opens the same value. Only an insertion that takes the generation
/// counter back to zero does not.
pub proof fn lemma_push_keeps_other_slots<T>(buffer: BufferView<T>, value: T, handle: HandleView)
    requires
        buffer.well_formed(),
        buffer.capacity > 0,
        !buffer.counter_wraps(),
        buffer.is_valid(handle),
        handle.index != buffer.cursor,
    ensures
        buffer.push(value).get(handle) == buffer.get(handle),
{
    lemma_cursor_step(buffer.cursor, buffer.capacity);
}

/// An insertion that overwrites a slot makes the handle to the overwritten
/// value stale. This holds unless the generation is zero: a full buffer at
/// generation zero has come round the counter's limit, and the handle it
/// issues next is the very handle that was valid for the slot.
pub proof fn lemma_push_overwrites<T>(buffer: BufferView<T>, value: T, handle: HandleView)
    requires
        buffer.well_formed(),
        buffer.capacity > 0,
        buffer.generation != 0,
        buffer.is_valid(handle),
        handle.index == buffer.cursor,
    ensures
        !buffer.push(value).is_valid(handle),
{
    lemma_cursor_step(buffer.cursor, buffer.capacity);
}

/// The insertion that takes the generation counter back to zero leaves no
/// handle valid that was valid before it, nor the one it returns.
pub proof fn lemma_counter_wrap_drops_handles<T>(
    buffer: BufferView<T>,
    value: T,
    handle: HandleView,
)
    requires
        buffer.well_formed(),
        buffer.capacity > 0,
        buffer.counter_wraps(),
        buffer.is_valid(handle) || handle == buffer.next_handle(),
    ensures
        !buffer.push(value).is_valid(handle),
{
    lemma_cursor_step(buffer.cursor, buffer.capacity);
}

/// Writing through a handle changes the value in its slot and nothing else:
/// the buffer stays as long as it was and every handle stays as valid as it
/// was.
pub proof fn lemma_replace_keeps_handles<T>(
    buffer: BufferView<T>,
    index: nat,
    value: T,
    handle: HandleView,
)
    requires
        buffer.well_formed(),
        index < buffer.len(),
    ensures
        buffer.replace(index, value).well_formed(),
        buffer.replace(index, value).len() == buffer.len(),
        buffer.replace(index, value).is_valid(handle) == buffer.is_valid(handle),
        buffer.replace(index, value).get(handle) == if buffer.is_valid(handle) && handle.index
            == index {
            Some(value)
        } else {
            buffer.get(handle)
        },
{
}

/// Where a run of insertions leaves the buffer: it grows by one value for
/// each until it is full, the cursor has moved on by one slot for each, and
/// the generation has gone up by one for each time the cursor came back to
/// the first slot, the counter wrapping at its limit.
pub proof fn lemma_push_all_shape<T>(buffer: BufferView<T>, values: Seq<T>)
    requires
        buffer.well_formed(),
        buffer.capacity > 0,
    ensures
        buffer.push_all(values).well_formed(),
        buffer.push_all(values).capacity == buffer.capacity,
        buffer.push_all(values).len() == if buffer.len() + values.len() <= buffer.capacity {
            buffer.len() + values.len()
        } else {
            buffer.capacity
        },
        buffer.push_all(values).cursor == (buffer.cursor + values.len()) % buffer.capacity,
        buffer.push_all(values).generation == (buffer.generation + (buffer.cursor + values.len())
            / buffer.capacity) % 0x1_0000_0000,
    decreases values.len(),
{
    let capacity = buffer.capacity as int;
    if values.len() == 0 {
        lemma_small_mod(buffer.cursor, buffer.capacity);
        lemma_basic_div(buffer.cursor as int, capacity);
    } else {
        let before = buffer.push_all(values.drop_last());
        lemma_push_all_shape(buffer, values.drop_last());
        lemma_push_well_formed(before, values.last());
        lemma_cursor_step(before.cursor, before.capacity);
        lemma_div_mod_step(buffer.cursor + values.len() - 1, capacity);
    }
}

/// A buffer that has taken as many insertions as it has slots is full, and
/// stays full under every further insertion.
pub proof fn lemma_full_after_capacity_pushes<T>(buffer: BufferView<T>, values: Seq<T>)
    requires
        buffer.well_formed(),
        buffer.capacity > 0,
        values.len() >= buffer.capacity,
    ensures
        buffer.push_all(values).is_full(),
{
    lemma_push_all_shape(buffer, values);
}

/// Where a run of insertions leaves its values: each of the last
/// `capacity` values lies in the slot that the cursor pointed to when it was
/// inserted.
pub proof fn lemma_push_all_content<T>(buffer: BufferView<T>, values: Seq<T>, k: int)
    requires
        buffer.well_formed(),
        buffer.capacity > 0,
        0 <= k < values.len(),
        values.len() - k <= buffer.capacity,
    ensures
        (buffer.cursor + k) % (buffer.capacity as int) < buffer.push_all(values).len(),
        buffer.push_all(values).entries[(buffer.cursor + k) % (buffer.capacity as int)]
            == values[k],
    decreases values.len(),
{
    let capacity = buffer.capacity as int;
    let before = buffer.push_all(values.drop_last());
    lemma_push_all_shape(buffer, values.drop_last());
    lemma_push_all_shape(buffer, values);
    lemma_cursor_step(before.cursor, before.capacity);
    if k == values.len() - 1 {
    } else {
        lemma_push_all_content(buffer, values.drop_last(), k);
        lemma_mod_differs(buffer.cursor + k, values.len() - 1 - k, capacity);
    }
}

/// The well-formed states are the states that insertions reach from a new
/// buffer, and no others: the result is a run of values that leads to
/// `buffer`.
pub proof fn lemma_well_formed_is_reached<T>(buffer: BufferView<T>) -> (values: Seq<T>)
    requires
        buffer.well_formed(),
    ensures
        BufferView::<T>::empty(buffer.capacity).push_all(values) == buffer,
{
    let capacity = buffer.capacity as int;
    let cursor = buffer.cursor as int;
    let start = BufferView::<T>::empty(buffer.capacity);
    if buffer.capacity == 0 {
        assert(buffer.entries =~= Seq::<T>::empty());
        Seq::empty()
    } else if !buffer.is_full() {
        let values = buffer.entries;
        let reached = start.push_all(values);
        lemma_push_all_shape(start, values);
        lemma_fundamental_div_mod_converse(cursor, capacity, 0, cursor);
        assert forall|k: int| 0 <= k < values.len() implies reached.entries[k] == values[k] by {
            lemma_push_all_content(start, values, k);
            lemma_small_mod(k as nat, buffer.capacity);
        }
        assert(reached.entries =~= buffer.entries);
        values
    } else {
        // A full buffer at generation zero has been round the counter once.
        let laps: int = if buffer.generation == 0 {
            0x1_0000_0000
        } else {
            buffer.generation as int
        };
        let count = laps * capacity + cursor;
        assert(count >= capacity && (laps - 1) * capacity == laps * capacity - capacity)
            by (nonlinear_arith)
            requires
                laps >= 1,
                capacity > 0,
                cursor >= 0,
                count == laps * capacity + cursor,
        ;
        let values = Seq::new(count as nat, |k: int| buffer.entries[k % capacity]);
        let reached = start.push_all(values);
        lemma_push_all_shape(start, values);
        lemma_fundamental_div_mod_converse(count, capacity, laps, cursor);
        assert forall|slot: int| 0 <= slot < capacity implies reached.entries[slot]
            == buffer.entries[slot] by {
            let lap = if slot < cursor {
                laps
            } else {
                laps - 1
            };
            let k = lap * capacity + slot;
            lemma_fundamental_div_mod_converse(k, capacity, lap, slot);
            lemma_push_all_content(start, values, k);
        }
        assert(reached.entries =~= buffer.entries);
        values
    }
}

/// Of a run of insertions, the handles of the last `capacity` ones are
/// valid, and each opens the value it was issued for; the handles of all
/// earlier ones are stale. This holds as long as the generation counter does
/// not pass its limit during the run.
pub proof fn lemma_valid_window<T>(buffer: BufferView<T>, values: Seq<T>, k: int)
    requires
        buffer.well_formed(),
        buffer.capacity > 0,
        0 <= k < values.len(),
        buffer.generation + (buffer.cursor + values.len()) / buffer.capacity <= u32::MAX,
    ensures
        buffer.push_all(values).get(buffer.issued(values, k)) == if values.len() - k
            <= buffer.capacity {
            Some(values[k])
        } else {
            None
        },
{
    let capacity = buffer.capacity as int;
    let issued_at: int = buffer.cursor + k;
    let end: int = (buffer.cursor + values.len()) as int;
    let (lap, slot) = (issued_at / capacity, issued_at % capacity);
    let (end_lap, end_slot) = (end / capacity, end % capacity);
    lemma_push_all_shape(buffer, values);
    lemma_push_all_shape(buffer, values.take(k));
    lemma_fundamental_div_mod(issued_at, capacity);
    lemma_fundamental_div_mod(end, capacity);
    lemma_mod_bound(issued_at, capacity);
    lemma_mod_bound(end, capacity);
    lemma_div_is_ordered(issued_at, end, capacity);
    lemma_div_is_ordered(0, issued_at, capacity);
    lemma_basic_div(0, capacity);
    assert(end - issued_at == capacity * (end_lap - lap) + end_slot - slot) by (nonlinear_arith)
        requires
            issued_at == capacity * lap + slot,
            end == capacity * end_lap + end_slot,
    ;
    let laps = end_lap - lap;
    assert((laps == 0 ==> capacity * laps == 0) && (laps == 1 ==> capacity * laps == capacity) && (
    laps >= 2 ==> capacity * laps >= 2 * capacity)) by (nonlinear_arith)
        requires
            capacity > 0,
    ;
    if values.len() - k <= capacity {
        lemma_push_all_content(buffer, values, k);
    }
}

/// One insertion more than the buffer has slots makes the handle of the
/// first of them stale, its slot being overwritten, and leaves the handles of
/// all the others valid. This holds unless the run ends with the generation
/// counter back at zero.
pub proof fn lemma_one_lap_drops_first<T>(buffer: BufferView<T>, values: Seq<T>)
    requires
        buffer.well_formed(),
        buffer.capacity > 0,
        values.len() == buffer.capacity + 1,
        buffer.push_all(values).generation != 0,
    ensures
        !buffer.push_all(values).is_valid(buffer.issued(values, 0)),
        forall|k: int|
            1 <= k <= buffer.capacity ==> buffer.push_all(values).get(
                #[trigger] buffer.issued(values, k),
            ) == Some(values[k]),
{
    let capacity = buffer.capacity as int;
    let cursor = buffer.cursor as int;
    let end = cursor + capacity + 1;
    lemma_push_all_shape(buffer, values);
    if cursor + 1 < capacity {
        lemma_fundamental_div_mod_converse(end, capacity, 1, cursor + 1);
    } else {
        lemma_fundamental_div_mod_converse(end, capacity, 2, 0);
    }
    if buffer.generation + end / capacity <= u32::MAX {
        lemma_valid_window(buffer, values, 0);
        assert forall|k: int| 1 <= k <= buffer.capacity implies buffer.push_all(values).get(
            #[trigger] buffer.issued(values, k),
        ) == Some(values[k]) by {
            lemma_valid_window(buffer, values, k);
        }
    } else {
        // The counter passes its limit with the first insertion and has
        // left zero again by the last.
        assert(buffer.generation == u32::MAX && cursor + 1 == capacity);
        assert(values.take(0) =~= Seq::<T>::empty());
        assert(buffer.push_all(values.take(0)) == buffer);
        assert forall|k: int| 1 <= k <= buffer.capacity implies buffer.push_all(values).get(
            #[trigger] buffer.issued(values, k),
        ) == Some(values[k]) by {
            lemma_push_all_shape(buffer, values.take(k));
            lemma_fundamental_div_mod_converse(cursor + k, capacity, 1, k - 1);
            lemma_push_all_content(buffer, values, k);
        }
    }
}

/// Where such a run does end with the generation counter back at zero, the
/// handle of its second insertion is stale although its slot was not
/// overwritten: the counter has passed its limit since it was issued.
pub proof fn lemma_one_lap_at_counter_limit<T>(buffer: BufferView<T>, values: Seq<T>)
    requires
        buffer.well_formed(),
        buffer.capacity > 0,
        values.len() == buffer.capacity + 1,
        buffer.push_all(values).generation == 0,
    ensures
        !buffer.push_all(values).is_valid(buffer.issued(values, 1)),
{
    let capacity = buffer.capacity as int;
    let cursor = buffer.cursor as int;
    lemma_push_all_shape(buffer, values);
    lemma_push_all_shape(buffer, values.take(1));
    if cursor + 1 < capacity {
        lemma_fundamental_div_mod_converse(cursor + capacity + 1, capacity, 1, cursor + 1);
        lemma_fundamental_div_mod_converse(cursor + 1, capacity, 0, cursor + 1);
    } else {
        lemma_fundamental_div_mod_converse(cursor + capacity + 1, capacity, 2, 0);
        lemma_fundamental_div_mod_converse(cursor + 1, capacity, 1, 0);
    }
}

/// Whoever lists the valid handles, each one once, lists as many handles as
/// the buffer holds values.
pub proof fn lemma_enumeration_count<T>(buffer: BufferView<T>, handles: Seq<HandleView>)
    requires
        buffer.is_enumeration(handles),
    ensures
        handles.len() == buffer.len(),
        forall|i: int| 0 <= i < handles.len() ==> buffer.is_valid(#[trigger] handles[i]),
{
    let by_slot = Seq::new(buffer.len(), |i: int| buffer.handle_at(i as nat));
    assert(by_slot.no_duplicates());
    assert forall|handle: HandleView| by_slot.contains(handle) <==> handles.contains(handle) by {
        if buffer.is_valid(handle) {
            assert(by_slot[handle.index as int] == handle);
        }
    }
    assert(by_slot.to_set() =~= handles.to_set());
    by_slot.unique_seq_to_set();
    handles.unique_seq_to_set();
    assert forall|i: int| 0 <= i < handles.len() implies buffer.is_valid(#[trigger] handles[i]) by {
        assert(handles.contains(handles[i]));
    }
}

} // verus!
