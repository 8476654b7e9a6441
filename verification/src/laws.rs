//! What holds of the allocator and of the component array over whole
//! histories of calls, proved over their mathematical states.

use crate::generational_index::{AllocatorModel, ArrayModel, GenerationalIndex};
use vstd::prelude::*;

verus! {

/// One call on an allocator.
pub enum AllocatorOp {
    Allocate,
    Deallocate(GenerationalIndex),
}

impl AllocatorModel {
    /// The state after one call.
    pub open spec fn apply(self, op: AllocatorOp) -> AllocatorModel {
        match op {
            AllocatorOp::Allocate => self.allocate(),
            AllocatorOp::Deallocate(handle) => self.deallocate(handle),
        }
    }

    /// The state after a history of calls, the first call first.
    pub open spec fn run(self, ops: Seq<AllocatorOp>) -> AllocatorModel
        decreases ops.len(),
    {
        if ops.len() == 0 {
            self
        } else {
            self.run(ops.drop_last()).apply(ops.last())
        }
    }

    /// One call keeps the state well-formed, adds at most one slot, removes
    /// none, and lowers no slot's generation.
    pub proof fn lemma_apply_grows(self, op: AllocatorOp)
        requires
            self.wf(),
            self.slots.len() < usize::MAX,
        ensures
            self.apply(op).wf(),
            self.slots.len() <= self.apply(op).slots.len() <= self.slots.len() + 1,
            forall|i: int|
                0 <= i < self.slots.len() ==> self.slots[i].generation <= (#[trigger] self.apply(op).slots[i]).generation,
    {
        let after = self.apply(op);
        match op {
            AllocatorOp::Allocate => {
                if !self.exhausted() && self.free.len() > 0 {
                    let top = self.free.len() - 1;
                    assert(self.free[top] < self.slots.len());
                    assert forall|k: int| 0 <= k < after.free.len() implies (#[trigger] after.free[k]) < after.slots.len()
                        && !after.slots[after.free[k] as int].live by {
                        assert(after.free[k] == self.free[k]);
                        assert(self.free[k] != self.free[top]);
                    }
                } else if !self.exhausted() {
                    assert forall|k: int| 0 <= k < after.free.len() implies (#[trigger] after.free[k]) < after.slots.len()
                        && !after.slots[after.free[k] as int].live by {
                        assert(after.free[k] == self.free[k]);
                    }
                }
            },
            AllocatorOp::Deallocate(handle) => {
                if self.is_live(handle) {
                    assert forall|k: int| 0 <= k < after.free.len() implies (#[trigger] after.free[k]) < after.slots.len()
                        && !after.slots[after.free[k] as int].live by {
                        if k < self.free.len() {
                            assert(after.free[k] == self.free[k]);
                        }
                    }
                    assert forall|j: int, k: int| 0 <= j < k < after.free.len() implies after.free[j]
                        != after.free[k] by {
                        assert(after.free[j] == self.free[j]);
                        if k < self.free.len() {
                            assert(after.free[k] == self.free[k]);
                        }
                    }
                }
            },
        }
    }

    /// A history of calls keeps the state well-formed, adds at most one slot
    /// per call, removes none, and lowers no slot's generation.
    pub proof fn lemma_run_grows(self, ops: Seq<AllocatorOp>)
        requires
            self.wf(),
            self.slots.len() + ops.len() <= usize::MAX,
        ensures
            self.run(ops).wf(),
            self.slots.len() <= self.run(ops).slots.len() <= self.slots.len() + ops.len(),
            forall|i: int|
                0 <= i < self.slots.len() ==> self.slots[i].generation <= (#[trigger] self.run(ops).slots[i]).generation,
        decreases ops.len(),
    {
        if ops.len() > 0 {
            let before = self.run(ops.drop_last());
            self.lemma_run_grows(ops.drop_last());
            before.lemma_apply_grows(ops.last());
            assert forall|i: int| 0 <= i < self.slots.len() implies self.slots[i].generation <= (#[trigger] self.run(ops).slots[i]).generation by {
                assert(self.slots[i].generation <= before.slots[i].generation);
                assert(before.slots[i].generation <= before.apply(ops.last()).slots[i].generation);
            }
        }
    }
}

/// Generations only go up: a handle issued for a slot that was issued
/// before, whatever was allocated and handed back in between, carries a
/// higher generation than the earlier handle, and the earlier handle is not
/// live any more.
pub proof fn law_generation_monotonic(start: AllocatorModel, between: Seq<AllocatorOp>)
    requires
        start.wf(),
        start.slots.len() + between.len() + 2 <= usize::MAX,
        !start.exhausted(),
        !start.allocate().run(between).exhausted(),
    ensures
        ({
            let first = start.next_handle();
            let later = start.allocate().run(between);
            let second = later.next_handle();
            &&& later.allocate().is_live(second)
            &&& second.index == first.index ==> second.generation > first.generation
                && !later.allocate().is_live(first)
        }),
{
    let first = start.next_handle();
    let issued = start.allocate();
    start.lemma_apply_grows(AllocatorOp::Allocate);
    assert(issued == start.apply(AllocatorOp::Allocate));
    if start.free.len() > 0 {
        assert(start.free[start.free.len() - 1] < start.slots.len());
    }
    assert(issued.is_live(first));
    issued.lemma_run_grows(between);
    let later = issued.run(between);
    assert(issued.slots[first.index as int].generation <= later.slots[first.index as int].generation);
    if later.free.len() > 0 {
        assert(later.free[later.free.len() - 1] < later.slots.len());
    }
}

/// One call that changes a component array.
pub enum ArrayOp<T> {
    Put(GenerationalIndex, T),
    Remove(GenerationalIndex),
    Pad,
}

impl<T> ArrayModel<T> {
    /// The state after one call.
    pub open spec fn apply(self, op: ArrayOp<T>) -> ArrayModel<T> {
        match op {
            ArrayOp::Put(handle, value) => self.set(handle, value),
            ArrayOp::Remove(handle) => self.remove(handle),
            ArrayOp::Pad => self.with_empty_slot(),
        }
    }

    /// The state after a history of calls, the first call first.
    pub open spec fn run(self, ops: Seq<ArrayOp<T>>) -> ArrayModel<T>
        decreases ops.len(),
    {
        if ops.len() == 0 {
            self
        } else {
            self.run(ops.drop_last()).apply(ops.last())
        }
    }

    /// A history of calls keeps the state well-formed and adds at most one
    /// packed entry per call.
    pub proof fn lemma_run_wf(self, ops: Seq<ArrayOp<T>>)
        requires
            self.wf(),
            self.packed.len() + ops.len() <= usize::MAX,
        ensures
            self.run(ops).wf(),
            self.run(ops).packed.len() <= self.packed.len() + ops.len(),
        decreases ops.len(),
    {
        if ops.len() > 0 {
            let before = self.run(ops.drop_last());
            self.lemma_run_wf(ops.drop_last());
            match ops.last() {
                ArrayOp::Put(handle, value) => {
                    before.lemma_set_wf(handle, value);
                },
                ArrayOp::Remove(handle) => {
                    before.lemma_remove_wf(handle);
                },
                ArrayOp::Pad => {
                    before.lemma_padded_wf(before.slots.len() + 1);
                    assert(before.with_empty_slot().slots =~= before.padded(
                        before.slots.len() + 1,
                    ).slots);
                },
            }
        }
    }

    /// In a well-formed state the packed list holds exactly the present
    /// handles, each once: a handle is present if and only if some packed
    /// entry is owned by it, and no two packed entries share a slot.
    pub proof fn lemma_packed_exact(self)
        requires
            self.wf(),
        ensures
            forall|h: GenerationalIndex|
                self.contains(h) <==> exists|p: int|
                    0 <= p < self.packed.len() && (#[trigger] self.packed[p]).owned_entity == h,
            forall|p: int, q: int|
                0 <= p < q < self.packed.len() ==> (#[trigger] self.packed[p]).owned_entity.index
                    != (#[trigger] self.packed[q]).owned_entity.index,
    {
        assert forall|h: GenerationalIndex| self.contains(h) implies exists|p: int|
            0 <= p < self.packed.len() && (#[trigger] self.packed[p]).owned_entity == h by {
            assert(self.slots[h.index as int] is Full);
            assert(self.packed[self.position(h)].owned_entity == h);
        }
        assert forall|h: GenerationalIndex|
            (exists|p: int|
                0 <= p < self.packed.len() && (#[trigger] self.packed[p]).owned_entity
                    == h) implies self.contains(h) by {
            let p = choose|p: int|
                0 <= p < self.packed.len() && (#[trigger] self.packed[p]).owned_entity == h;
            assert(self.packed[p].owned_entity == h);
        }
    }
}

/// What is stored under a handle is what a lookup of that handle returns.
pub proof fn law_set_then_get<T>(array: ArrayModel<T>, handle: GenerationalIndex, value: T)
    requires
        array.wf(),
        array.packed.len() < usize::MAX,
    ensures
        array.set(handle, value).wf(),
        array.set(handle, value).contains(handle),
        array.set(handle, value).get(handle) == Some(value),
{
    array.lemma_set_wf(handle, value);
    array.lemma_padded_wf(handle.index as nat + 1);
}

/// What is attached to an entity is what a lookup of that entity finds,
/// however many slots the array had to be given for the entities before.
pub proof fn law_attach_then_lookup<T>(
    array: ArrayModel<T>,
    entities: nat,
    handle: GenerationalIndex,
    value: T,
)
    requires
        array.wf(),
        array.packed.len() < usize::MAX,
    ensures
        array.padded(entities).set(handle, value).wf(),
        array.padded(entities).set(handle, value).get(handle) == Some(value),
{
    array.lemma_padded_wf(entities);
    law_set_then_get(array.padded(entities), handle, value);
}

/// Storing under a handle leaves every other slot's lookup as it was.
pub proof fn law_set_keeps_other_slots<T>(
    array: ArrayModel<T>,
    handle: GenerationalIndex,
    value: T,
    other: GenerationalIndex,
)
    requires
        array.wf(),
        array.packed.len() < usize::MAX,
        other.index != handle.index,
    ensures
        array.set(handle, value).get(other) == array.get(other),
{
    array.lemma_padded_wf(handle.index as nat + 1);
    if array.contains(other) {
        assert(array.slots[other.index as int] is Full);
        assert(array.packed[array.position(other)].owned_entity == other);
    }
}

/// Once a slot has been stored under one generation, a handle of any other
/// generation for that slot finds nothing, whatever it had stored before.
pub proof fn law_stale_handle_finds_nothing<T>(
    array: ArrayModel<T>,
    current: GenerationalIndex,
    value: T,
    stale: GenerationalIndex,
)
    requires
        array.wf(),
        array.packed.len() < usize::MAX,
        stale.index == current.index,
        stale.generation != current.generation,
    ensures
        !array.set(current, value).contains(stale),
        array.set(current, value).get(stale).is_none(),
{
    array.lemma_padded_wf(current.index as nat + 1);
}

/// After a removal the handle is absent, and every other handle finds what
/// it found before.
pub proof fn law_remove_keeps_others<T>(
    array: ArrayModel<T>,
    handle: GenerationalIndex,
    other: GenerationalIndex,
)
    requires
        array.wf(),
        other != handle,
    ensures
        array.remove(handle).wf(),
        !array.remove(handle).contains(handle),
        array.remove(handle).get(handle).is_none(),
        array.remove(handle).get(other) == array.get(other),
{
    array.lemma_remove_wf(handle);
    if array.contains(handle) {
        let moved = array.packed.last().owned_entity;
        assert(array.slots[handle.index as int] is Full);
        assert(array.packed[array.position(handle)].owned_entity == handle);
        assert(array.packed[array.packed.len() - 1].owned_entity == moved);
        if array.contains(other) {
            assert(array.slots[other.index as int] is Full);
            assert(array.packed[array.position(other)].owned_entity == other);
        }
    }
}

/// Removing the same handle a second time changes nothing.
pub proof fn law_remove_twice<T>(array: ArrayModel<T>, handle: GenerationalIndex)
    requires
        array.wf(),
    ensures
        array.remove(handle).remove(handle) == array.remove(handle),
{
    if array.contains(handle) {
        assert(array.slots[handle.index as int] is Full);
    }
}

/// After any history of calls on an empty array, the packed list holds
/// exactly the present handles, each once, so a walk over it meets every
/// stored component once and nothing else.
pub proof fn law_packed_holds_exactly_the_present<T>(ops: Seq<ArrayOp<T>>)
    requires
        ops.len() <= usize::MAX,
    ensures
        ({
            let array = ArrayModel::<T>::empty().run(ops);
            &&& array.wf()
            &&& forall|h: GenerationalIndex|
                array.contains(h) <==> exists|p: int|
                    0 <= p < array.packed.len() && (#[trigger] array.packed[p]).owned_entity == h
            &&& forall|p: int, q: int|
                0 <= p < q < array.packed.len() ==> (#[trigger] array.packed[p]).owned_entity.index != (#[trigger] array.packed[q]).owned_entity.index
            &&& forall|h: GenerationalIndex|
                array.contains(h) ==> array.get(h) == Some(array.packed[array.position(h)].value)
        }),
{
    ArrayModel::<T>::empty().lemma_run_wf(ops);
    ArrayModel::<T>::empty().run(ops).lemma_packed_exact();
}

} // verus!
