//! Generational indices: the handle type, the allocator that issues handles,
//! and the packed array that stores one component per handle.

use vstd::prelude::*;

verus! {

/// A handle to an entity: a slot number and the generation of that slot at the
/// time the handle was issued. A handle refers to an entity; it does not keep
/// anything alive.
#[derive(Clone, Copy, Debug, PartialEq, Eq, Structural)]
pub struct GenerationalIndex {
    pub index: usize,
    pub generation: u64,
}

impl GenerationalIndex {
    pub fn index(&self) -> (i: usize)
        ensures
            i == self.index,
    {
        self.index
    }
}

/// One slot of the lookup table of a [`GenerationalIndexArray`]: `Empty`, or
/// `Full` with the generation of the handle stored there, the position of its
/// entry in the packed list, and the slot's own number.
#[derive(Clone, Copy, Debug, PartialEq, Eq)]
pub enum EntryValue {
    Full((u64, usize, usize)),
    Empty,
}

/// A stored component together with the handle it was stored under.
#[derive(Clone, Copy, Debug)]
pub struct ArrayEntry<T> {
    pub value: T,
    pub owned_entity: GenerationalIndex,
}

/// The mathematical state of a [`GenerationalIndexArray`]: the lookup table,
/// indexed by a handle's slot number, and the packed list of entries in the
/// order in which iteration visits them.
pub struct ArrayModel<T> {
    pub slots: Seq<EntryValue>,
    pub packed: Seq<ArrayEntry<T>>,
}

impl<T> ArrayModel<T> {
    pub open spec fn empty() -> ArrayModel<T> {
        ArrayModel { slots: Seq::empty(), packed: Seq::empty() }
    }

    /// The lookup table and the packed list describe each other: a full slot
    /// names a packed entry owned by that slot's handle, and every packed
    /// entry is named by the slot of its owner.
    pub open spec fn wf(self) -> bool {
        &&& self.packed.len() <= usize::MAX
        &&& forall|i: int|
            0 <= i < self.slots.len() ==> match #[trigger] self.slots[i] {
                EntryValue::Full((generation, position, slot)) => {
                    &&& slot == i
                    &&& position < self.packed.len()
                    &&& self.packed[position as int].owned_entity == GenerationalIndex {
                        index: slot,
                        generation,
                    }
                },
                EntryValue::Empty => true,
            }
        &&& forall|p: int|
            0 <= p < self.packed.len() ==> {
                let owner = (#[trigger] self.packed[p]).owned_entity;
                &&& owner.index < self.slots.len()
                &&& self.slots[owner.index as int] == EntryValue::Full(
                    (owner.generation, p as usize, owner.index),
                )
            }
    }

    /// What the lookup table records for a handle's slot, whatever the
    /// handle's generation.
    pub open spec fn unpacked(self, handle: GenerationalIndex) -> Option<(u64, usize, usize)> {
        if handle.index < self.slots.len() {
            match self.slots[handle.index as int] {
                EntryValue::Full(found) => Some(found),
                EntryValue::Empty => None,
            }
        } else {
            None
        }
    }

    /// A handle is present when its slot is full and holds the handle's own
    /// generation.
    pub open spec fn contains(self, handle: GenerationalIndex) -> bool {
        match self.unpacked(handle) {
            Some(found) => found.0 == handle.generation,
            None => false,
        }
    }

    /// Where in the packed list the entry of a handle's slot stands.
    pub open spec fn position(self, handle: GenerationalIndex) -> int {
        self.unpacked(handle).unwrap().1 as int
    }

    /// The component stored under a handle, if the handle is present.
    pub open spec fn get(self, handle: GenerationalIndex) -> Option<T> {
        if self.contains(handle) {
            Some(self.packed[self.position(handle)].value)
        } else {
            None
        }
    }

    /// The state with one more empty slot at the end of the lookup table.
    pub open spec fn with_empty_slot(self) -> ArrayModel<T> {
        ArrayModel { slots: self.slots.push(EntryValue::Empty), packed: self.packed }
    }

    /// The state with the lookup table extended by empty slots to at least
    /// `count` slots.
    pub open spec fn padded(self, count: nat) -> ArrayModel<T> {
        if self.slots.len() >= count {
            self
        } else {
            ArrayModel {
                slots: self.slots + Seq::new(
                    (count - self.slots.len()) as nat,
                    |i: int| EntryValue::Empty,
                ),
                packed: self.packed,
            }
        }
    }

    /// The state after `value` is stored under `handle`. A full slot keeps its
    /// packed position and takes the new component, generation and owner,
    /// whatever generation it held; otherwise the entry goes to the end of
    /// the packed list, and the lookup table grows as far as the slot.
    pub open spec fn set(self, handle: GenerationalIndex, value: T) -> ArrayModel<T> {
        let entry = ArrayEntry { value, owned_entity: handle };
        match self.unpacked(handle) {
            Some(found) => ArrayModel {
                slots: self.slots.update(
                    handle.index as int,
                    EntryValue::Full((handle.generation, found.1, handle.index)),
                ),
                packed: self.packed.update(found.1 as int, entry),
            },
            None => ArrayModel {
                slots: self.padded(handle.index as nat + 1).slots.update(
                    handle.index as int,
                    EntryValue::Full((handle.generation, self.packed.len() as usize, handle.index)),
                ),
                packed: self.packed.push(entry),
            },
        }
    }

    /// Padding keeps the state well-formed and changes no lookup.
    pub proof fn lemma_padded_wf(self, count: nat)
        requires
            self.wf(),
        ensures
            self.padded(count).wf(),
            self.padded(count).slots.len() == if self.slots.len() >= count {
                self.slots.len()
            } else {
                count
            },
            forall|h: GenerationalIndex| self.padded(count).unpacked(h) == self.unpacked(h),
    {
    }

    /// Storing a component keeps the state well-formed.
    pub proof fn lemma_set_wf(self, handle: GenerationalIndex, value: T)
        requires
            self.wf(),
            self.unpacked(handle).is_none() ==> self.packed.len() < usize::MAX,
        ensures
            self.set(handle, value).wf(),
    {
        let after = self.set(handle, value);
        match self.unpacked(handle) {
            Some(found) => {
                assert(self.slots[handle.index as int] is Full);
                assert forall|p: int| 0 <= p < after.packed.len() implies {
                    let owner = (#[trigger] after.packed[p]).owned_entity;
                    &&& owner.index < after.slots.len()
                    &&& after.slots[owner.index as int] == EntryValue::Full(
                        (owner.generation, p as usize, owner.index),
                    )
                } by {
                    if p != found.1 {
                        assert(after.packed[p] == self.packed[p]);
                        assert(self.packed[p].owned_entity.index != handle.index);
                    }
                }
                assert forall|i: int| 0 <= i < after.slots.len() implies match #[trigger] after.slots[i] {
                    EntryValue::Full((generation, position, slot)) => {
                        &&& slot == i
                        &&& position < after.packed.len()
                        &&& after.packed[position as int].owned_entity == GenerationalIndex {
                            index: slot,
                            generation,
                        }
                    },
                    EntryValue::Empty => true,
                } by {
                    if i != handle.index {
                        assert(after.slots[i] == self.slots[i]);
                    }
                }
            },
            None => {
                self.lemma_padded_wf(handle.index as nat + 1);
                let grown = self.padded(handle.index as nat + 1);
                assert forall|p: int| 0 <= p < after.packed.len() implies {
                    let owner = (#[trigger] after.packed[p]).owned_entity;
                    &&& owner.index < after.slots.len()
                    &&& after.slots[owner.index as int] == EntryValue::Full(
                        (owner.generation, p as usize, owner.index),
                    )
                } by {
                    if p < self.packed.len() {
                        assert(after.packed[p] == self.packed[p]);
                        let owner = self.packed[p].owned_entity;
                        assert(grown.slots[owner.index as int] == self.slots[owner.index as int]);
                    }
                }
                assert forall|i: int| 0 <= i < after.slots.len() implies match #[trigger] after.slots[i] {
                    EntryValue::Full((generation, position, slot)) => {
                        &&& slot == i
                        &&& position < after.packed.len()
                        &&& after.packed[position as int].owned_entity == GenerationalIndex {
                            index: slot,
                            generation,
                        }
                    },
                    EntryValue::Empty => true,
                } by {
                    if i != handle.index {
                        assert(after.slots[i] == grown.slots[i]);
                        if i < self.slots.len() {
                            assert(grown.slots[i] == self.slots[i]);
                        }
                    }
                }
            },
        }
    }

    /// The state after the entry of `handle` is removed (unchanged where the
    /// handle is not present). The last packed entry moves into the vacated
    /// position, and the slot of its owner is pointed there; the slot of
    /// `handle` becomes empty.
    pub open spec fn remove(self, handle: GenerationalIndex) -> ArrayModel<T> {
        if self.contains(handle) {
            let position = self.position(handle);
            let moved = self.packed.last().owned_entity;
            ArrayModel {
                slots: self.slots.update(
                    moved.index as int,
                    EntryValue::Full((moved.generation, position as usize, moved.index)),
                ).update(handle.index as int, EntryValue::Empty),
                packed: self.packed.update(position, self.packed.last()).drop_last(),
            }
        } else {
            self
        }
    }

    /// Removing an entry keeps the state well-formed.
    pub proof fn lemma_remove_wf(self, handle: GenerationalIndex)
        requires
            self.wf(),
        ensures
            self.remove(handle).wf(),
    {
        if self.contains(handle) {
            let after = self.remove(handle);
            let position = self.position(handle);
            let last = self.packed.len() - 1;
            let moved = self.packed.last().owned_entity;
            assert(self.slots[handle.index as int] is Full);
            assert(self.packed[position].owned_entity == handle);
            assert(self.packed[last].owned_entity == moved);
            assert forall|p: int| 0 <= p < after.packed.len() implies {
                let owner = (#[trigger] after.packed[p]).owned_entity;
                &&& owner.index < after.slots.len()
                &&& after.slots[owner.index as int] == EntryValue::Full(
                    (owner.generation, p as usize, owner.index),
                )
            } by {
                if p != position {
                    assert(after.packed[p] == self.packed[p]);
                    let owner = self.packed[p].owned_entity;
                    assert(owner.index != handle.index);
                    assert(owner.index != moved.index);
                }
            }
            assert forall|i: int| 0 <= i < after.slots.len() implies match #[trigger] after.slots[i] {
                EntryValue::Full((generation, at, slot)) => {
                    &&& slot == i
                    &&& at < after.packed.len()
                    &&& after.packed[at as int].owned_entity == GenerationalIndex {
                        index: slot,
                        generation,
                    }
                },
                EntryValue::Empty => true,
            } by {
                if i != handle.index && i != moved.index {
                    assert(after.slots[i] == self.slots[i]);
                    match self.slots[i] {
                        EntryValue::Full((generation, at, slot)) => {
                            assert(self.packed[at as int].owned_entity.index == i);
                            assert(at != last);
                            assert(at != position);
                        },
                        EntryValue::Empty => {},
                    }
                }
            }
        }
    }

    /// Writing a component in place keeps the state well-formed.
    pub proof fn lemma_with_value_wf(self, handle: GenerationalIndex, value: T)
        requires
            self.wf(),
            self.contains(handle),
        ensures
            self.with_value(handle, value).wf(),
            self.with_value(handle, value).get(handle) == Some(value),
    {
        let after = self.with_value(handle, value);
        assert(self.slots[handle.index as int] is Full);
        assert forall|p: int| 0 <= p < after.packed.len() implies {
            let owner = (#[trigger] after.packed[p]).owned_entity;
            &&& owner.index < after.slots.len()
            &&& after.slots[owner.index as int] == EntryValue::Full(
                (owner.generation, p as usize, owner.index),
            )
        } by {
            assert(after.packed[p].owned_entity == self.packed[p].owned_entity);
        }
    }

    /// The state in which the component of a present handle is `value`.
    pub open spec fn with_value(self, handle: GenerationalIndex, value: T) -> ArrayModel<T> {
        ArrayModel {
            slots: self.slots,
            packed: self.packed.update(
                self.position(handle),
                ArrayEntry { value, owned_entity: self.packed[self.position(handle)].owned_entity },
            ),
        }
    }
}

/// Mutable access to the component of one packed entry; the entry's owner
/// stays as it is.
fn value_mut<T>(entries: &mut Vec<ArrayEntry<T>>, position: usize) -> (value: &mut T)
    requires
        position < old(entries).len(),
    ensures
        *value == old(entries)@[position as int].value,
        final(entries)@ == old(entries)@.update(
            position as int,
            ArrayEntry {
                value: *final(value),
                owned_entity: old(entries)@[position as int].owned_entity,
            },
        ),
    no_unwind
{
    &mut entries[position].value
}

/// Stores at most one component per slot number, under the handle it was last
/// set with. The components lie packed in one list without gaps, which is what
/// iteration walks; a lookup table maps a handle's slot number to its entry
/// and remembers the generation, so that a handle of another generation finds
/// nothing.
///
/// The packed list changes its order on removal: do not insert or remove
/// while walking [`GenerationalIndexArray::entries`]. Collect the changes
/// during the walk and apply them after it.
pub struct GenerationalIndexArray<T> {
    unpacked_entries: Vec<EntryValue>,
    entries: Vec<ArrayEntry<T>>,
}

impl<T> View for GenerationalIndexArray<T> {
    type V = ArrayModel<T>;

    closed spec fn view(&self) -> ArrayModel<T> {
        ArrayModel { slots: self.unpacked_entries@, packed: self.entries@ }
    }
}

impl<T> GenerationalIndexArray<T> {
    #[verifier::type_invariant]
    pub open spec fn inv(&self) -> bool {
        self@.wf()
    }

    pub fn new() -> (array: GenerationalIndexArray<T>)
        ensures
            array@ == ArrayModel::<T>::empty(),
    {
        GenerationalIndexArray {
            unpacked_entries: Vec::with_capacity(1024),
            entries: Vec::with_capacity(1024),
        }
    }

    /// Moves the two lists out and leaves an empty array behind.
    fn take_parts(&mut self) -> (parts: (Vec<EntryValue>, Vec<ArrayEntry<T>>))
        ensures
            parts.0@ == old(self)@.slots,
            parts.1@ == old(self)@.packed,
            final(self)@ == ArrayModel::<T>::empty(),
    {
        let mut taken = GenerationalIndexArray { unpacked_entries: Vec::new(), entries: Vec::new() };
        core::mem::swap(self, &mut taken);
        let GenerationalIndexArray { unpacked_entries, entries } = taken;
        (unpacked_entries, entries)
    }

    /// Adds one empty slot at the end of the lookup table.
    pub fn set_empty(&mut self)
        ensures
            final(self)@ == old(self)@.with_empty_slot(),
    {
        proof {
            use_type_invariant(&*self);
        }
        let (mut unpacked_entries, entries) = self.take_parts();
        unpacked_entries.push(EntryValue::Empty);
        proof {
            let before = old(self)@;
            assert(before.with_empty_slot().slots =~= before.padded(before.slots.len() + 1).slots);
            before.lemma_padded_wf(before.slots.len() + 1);
        }
        *self = GenerationalIndexArray { unpacked_entries, entries };
    }

    /// Stores `value` under `index`. Where the slot of `index` is full, its
    /// entry is overwritten in place, under whatever generation it was stored:
    /// the last write wins. Otherwise the entry is appended to the packed
    /// list, and the lookup table grows as far as the slot.
    pub fn set(&mut self, index: &GenerationalIndex, value: T)
        ensures
            final(self)@ == old(self)@.set(*index, value),
    {
        proof {
            use_type_invariant(&*self);
        }
        let found = self.get_unpacked_index(index);
        let (mut unpacked_entries, mut entries) = self.take_parts();
        let ghost before = old(self)@;
        match found {
            Some(at) => {
                assert(before.slots[index.index as int] is Full);
                entries[at.1] = ArrayEntry { value, owned_entity: *index };
                unpacked_entries[index.index] = EntryValue::Full(
                    (index.generation, at.1, index.index),
                );
            },
            None => {
                while unpacked_entries.len() <= index.index
                    invariant
                        unpacked_entries@.len() >= before.slots.len(),
                        unpacked_entries@.len() == before.slots.len() || unpacked_entries@.len()
                            <= index.index + 1,
                        unpacked_entries@ == before.padded(unpacked_entries@.len()).slots,
                    decreases index.index + 1 - unpacked_entries.len(),
                {
                    unpacked_entries.push(EntryValue::Empty);
                    assert(unpacked_entries@ =~= before.padded(unpacked_entries@.len()).slots);
                }
                assert(unpacked_entries@ =~= before.padded(index.index as nat + 1).slots);
                entries.push(ArrayEntry { value, owned_entity: *index });
                let position: usize = entries.len() - 1;
                unpacked_entries[index.index] = EntryValue::Full(
                    (index.generation, position, index.index),
                );
            },
        }
        proof {
            before.lemma_set_wf(*index, value);
        }
        *self = GenerationalIndexArray { unpacked_entries, entries };
    }

    /// Removes the entry of `index`, if it is present; a handle that is not
    /// present, a stale one included, changes nothing. The last packed entry
    /// takes the vacated position, and the lookup table follows it.
    pub fn remove(&mut self, index: &GenerationalIndex)
        ensures
            final(self)@ == old(self)@.remove(*index),
    {
        proof {
            use_type_invariant(&*self);
        }
        if self.contains(index) {
            let position: usize = self.get_unpacked_index(index).unwrap().1;
            let ghost before = old(self)@;
            assert(before.slots[index.index as int] is Full);
            let moved: GenerationalIndex = self.entries[self.entries.len() - 1].owned_entity;
            let (mut unpacked_entries, mut entries) = self.take_parts();
            entries.swap_remove(position);
            unpacked_entries[moved.index] = EntryValue::Full(
                (moved.generation, position, moved.index),
            );
            unpacked_entries[index.index] = EntryValue::Empty;
            proof {
                before.lemma_remove_wf(*index);
            }
            *self = GenerationalIndexArray { unpacked_entries, entries };
        }
    }

    /// Points the slot of every packed entry's owner at that entry's
    /// position, so that afterwards the lookup table and the packed list
    /// describe each other. The array keeps them so at all times, so this
    /// changes nothing; it is here for callers that ask for a repair after a
    /// batch of removals.
    pub fn update_entries(&mut self)
        ensures
            final(self)@ == old(self)@,
            final(self)@.wf(),
    {
        proof {
            use_type_invariant(&*self);
        }
        let ghost before = old(self)@;
        let (mut unpacked_entries, entries) = self.take_parts();
        let mut idx: usize = 0;
        while idx < entries.len()
            invariant
                before.wf(),
                entries@ == before.packed,
                unpacked_entries@ == before.slots,
            decreases entries.len() - idx,
        {
            let owner: GenerationalIndex = entries[idx].owned_entity;
            assert(before.packed[idx as int].owned_entity == owner);
            unpacked_entries[owner.index] = EntryValue::Full((owner.generation, idx, owner.index));
            assert(unpacked_entries@ =~= before.slots);
            idx += 1;
        }
        *self = GenerationalIndexArray { unpacked_entries, entries };
    }

    /// The packed entries, in iteration order: every stored component once,
    /// with its owner.
    pub fn entries(&self) -> (packed: &Vec<ArrayEntry<T>>)
        ensures
            packed@ == self@.packed,
    {
        &self.entries
    }

    /// The length of the lookup table.
    pub fn slot_count(&self) -> (count: usize)
        ensures
            count == self@.slots.len(),
    {
        self.unpacked_entries.len()
    }

    pub fn get_unpacked_index(&self, index: &GenerationalIndex) -> (found: Option<
        (u64, usize, usize),
    >)
        ensures
            found == self@.unpacked(*index),
    {
        if index.index() < self.unpacked_entries.len() {
            match self.unpacked_entries[index.index()] {
                EntryValue::Full(v) => Some(v),
                EntryValue::Empty => None,
            }
        } else {
            None
        }
    }

    pub fn contains(&self, index: &GenerationalIndex) -> (present: bool)
        ensures
            present == self@.contains(*index),
    {
        match self.get_unpacked_index(index) {
            Some(found) => found.0 == index.generation,
            None => false,
        }
    }

    /// The component stored under `index`; nothing for a handle that is not
    /// present, a stale one included.
    pub fn get(&self, index: &GenerationalIndex) -> (value: Option<&T>)
        ensures
            match value {
                Some(v) => self@.get(*index) == Some(*v),
                None => self@.get(*index).is_none(),
            },
    {
        proof {
            use_type_invariant(self);
        }
        match self.get_unpacked_index(index) {
            Some(found) => {
                if found.0 == index.generation {
                    Some(&self.entries[found.1].value)
                } else {
                    None
                }
            },
            None => None,
        }
    }

    /// Mutable access to the component stored under `index`; nothing for a
    /// handle that is not present. Whatever is written through the reference
    /// becomes the stored component; nothing else changes.
    pub fn get_mut(&mut self, index: &GenerationalIndex) -> (value: Option<&mut T>)
        ensures
            match value {
                Some(v) => {
                    &&& old(self)@.get(*index) == Some(*v)
                    &&& final(self)@ == old(self)@.with_value(*index, *final(v))
                },
                None => old(self)@.get(*index).is_none() && final(self)@ == old(self)@,
            },
    {
        proof {
            use_type_invariant(&*self);
            assert forall|v: T| self@.contains(*index) implies #[trigger] self@.with_value(
                *index,
                v,
            ).wf() by {
                self@.lemma_with_value_wf(*index, v);
            }
        }
        match self.get_unpacked_index(index) {
            Some(found) => {
                if found.0 == index.generation {
                    Some(value_mut(&mut self.entries, found.1))
                } else {
                    None
                }
            },
            None => None,
        }
    }
}

/// The bookkeeping of one allocator slot.
#[derive(Clone, Copy, Debug, PartialEq, Eq, Structural)]
pub struct AllocatorEntry {
    pub live: bool,
    pub generation: u64,
}

/// Why an allocation was refused.
#[derive(Clone, Copy, Debug, PartialEq, Eq, Structural)]
pub enum AllocatorError {
    /// The slot due for reuse has run through every generation.
    AllocatorExhausted,
}

/// The mathematical state of an allocator: its slots, and the stack of slot
/// numbers that wait for reuse (the top of the stack is the last element).
pub struct AllocatorModel {
    pub slots: Seq<AllocatorEntry>,
    pub free: Seq<usize>,
}

impl AllocatorModel {
    /// Every waiting slot number names an existing slot that is not live, and
    /// none waits twice.
    pub open spec fn wf(self) -> bool {
        &&& self.slots.len() <= usize::MAX
        &&& forall|k: int|
            0 <= k < self.free.len() ==> (#[trigger] self.free[k]) < self.slots.len()
                && !self.slots[self.free[k] as int].live
        &&& forall|j: int, k: int|
            0 <= j < k < self.free.len() ==> self.free[j] != self.free[k]
    }

    pub open spec fn empty() -> AllocatorModel {
        AllocatorModel { slots: Seq::empty(), free: Seq::empty() }
    }

    /// A handle is live when its slot exists, is alive, and carries the
    /// handle's generation.
    pub open spec fn is_live(self, handle: GenerationalIndex) -> bool {
        &&& handle.index < self.slots.len()
        &&& self.slots[handle.index as int].live
        &&& self.slots[handle.index as int].generation == handle.generation
    }

    /// The slot due for reuse cannot be given another generation.
    pub open spec fn exhausted(self) -> bool {
        self.free.len() > 0 && self.slots[self.free.last() as int].generation == u64::MAX
    }

    /// The handle that the next allocation issues.
    pub open spec fn next_handle(self) -> GenerationalIndex {
        if self.free.len() > 0 {
            GenerationalIndex {
                index: self.free.last(),
                generation: (self.slots[self.free.last() as int].generation + 1) as u64,
            }
        } else {
            GenerationalIndex { index: self.slots.len() as usize, generation: 0 }
        }
    }

    /// The state after an allocation (unchanged where it is refused).
    pub open spec fn allocate(self) -> AllocatorModel {
        if self.exhausted() {
            self
        } else if self.free.len() > 0 {
            AllocatorModel {
                slots: self.slots.update(
                    self.free.last() as int,
                    AllocatorEntry { live: true, generation: self.next_handle().generation },
                ),
                free: self.free.drop_last(),
            }
        } else {
            AllocatorModel {
                slots: self.slots.push(AllocatorEntry { live: true, generation: 0 }),
                free: self.free,
            }
        }
    }

    /// The state after a handle is handed back (unchanged where the handle is
    /// not live).
    pub open spec fn deallocate(self, handle: GenerationalIndex) -> AllocatorModel {
        if self.is_live(handle) {
            AllocatorModel {
                slots: self.slots.update(
                    handle.index as int,
                    AllocatorEntry { live: false, generation: handle.generation },
                ),
                free: self.free.push(handle.index),
            }
        } else {
            self
        }
    }
}

/// Issues entity handles and takes them back. A slot that is reused gets the
/// next generation, so every handle issued for it before stops being live for
/// good.
pub struct GenerationalIndexAllocator {
    entries: Vec<AllocatorEntry>,
    free: Vec<usize>,
}

impl View for GenerationalIndexAllocator {
    type V = AllocatorModel;

    closed spec fn view(&self) -> AllocatorModel {
        AllocatorModel { slots: self.entries@, free: self.free@ }
    }
}

impl GenerationalIndexAllocator {
    #[verifier::type_invariant]
    pub open spec fn inv(&self) -> bool {
        self@.wf()
    }

    pub fn new() -> (allocator: GenerationalIndexAllocator)
        ensures
            allocator@ == AllocatorModel::empty(),
    {
        GenerationalIndexAllocator { entries: Vec::with_capacity(1024), free: Vec::with_capacity(1024) }
    }

    /// Moves the two lists out and leaves an empty allocator behind.
    fn take_parts(&mut self) -> (parts: (Vec<AllocatorEntry>, Vec<usize>))
        ensures
            parts.0@ == old(self)@.slots,
            parts.1@ == old(self)@.free,
            final(self)@ == AllocatorModel::empty(),
    {
        let mut taken = GenerationalIndexAllocator { entries: Vec::new(), free: Vec::new() };
        core::mem::swap(self, &mut taken);
        let GenerationalIndexAllocator { entries, free } = taken;
        (entries, free)
    }

    /// Issues a handle: for the slot on top of the waiting stack, with its next
    /// generation, or else for a new slot with generation 0. Refused, with
    /// nothing changed, where that next generation does not exist.
    pub fn allocate(&mut self) -> (issued: Result<GenerationalIndex, AllocatorError>)
        ensures
            final(self)@ == old(self)@.allocate(),
            old(self)@.exhausted() ==> issued == Err::<GenerationalIndex, AllocatorError>(
                AllocatorError::AllocatorExhausted,
            ),
            !old(self)@.exhausted() ==> issued == Ok::<GenerationalIndex, AllocatorError>(
                old(self)@.next_handle(),
            ),
    {
        proof {
            use_type_invariant(&*self);
        }
        let waiting: usize = self.free.len();
        if waiting > 0 {
            let index: usize = self.free[waiting - 1];
            assert(index == self@.free[waiting - 1]);
            let generation: u64 = self.entries[index].generation;
            if generation == u64::MAX {
                return Err(AllocatorError::AllocatorExhausted);
            }
            let (mut entries, mut free) = self.take_parts();
            free.pop();
            entries[index] = AllocatorEntry { live: true, generation: generation + 1 };
            *self = GenerationalIndexAllocator { entries, free };
            Ok(GenerationalIndex { index, generation: generation + 1 })
        } else {
            let (mut entries, free) = self.take_parts();
            entries.push(AllocatorEntry { live: true, generation: 0 });
            let index: usize = entries.len() - 1;
            *self = GenerationalIndexAllocator { entries, free };
            Ok(GenerationalIndex { index, generation: 0 })
        }
    }

    /// Hands a handle back. A live handle's slot is marked dead and put on the
    /// waiting stack, and the answer is `true`; for any other handle (stale,
    /// handed back before, never issued) nothing changes and the answer is
    /// `false`.
    pub fn deallocate(&mut self, index: &GenerationalIndex) -> (retired: bool)
        ensures
            retired == old(self)@.is_live(*index),
            final(self)@ == old(self)@.deallocate(*index),
    {
        proof {
            use_type_invariant(&*self);
        }
        if !self.is_live(index) {
            return false;
        }
        let (mut entries, mut free) = self.take_parts();
        entries[index.index] = AllocatorEntry { live: false, generation: index.generation };
        free.push(index.index);
        *self = GenerationalIndexAllocator { entries, free };
        true
    }

    /// Whether `index` is a handle that was issued and not handed back since.
    pub fn is_live(&self, index: &GenerationalIndex) -> (live: bool)
        ensures
            live == self@.is_live(*index),
    {
        if index.index < self.entries.len() {
            let entry: &AllocatorEntry = &self.entries[index.index];
            entry.live && entry.generation == index.generation
        } else {
            false
        }
    }
}

} // verus!
