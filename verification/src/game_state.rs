//! The game state: every entity and, per component type, the array of that
//! type's components.

use crate::generational_index::{
    AllocatorModel, GenerationalIndex, GenerationalIndexAllocator, GenerationalIndexArray,
};
use vstd::prelude::*;

verus! {

/// A type whose values can be attached to entities.
pub trait Component: 'static + Sized {

}

/// Why the game state refused a call.
#[derive(Clone, Copy, Debug, PartialEq, Eq, Structural)]
pub enum RegistryError {
    /// No array was registered for the component type that the call names.
    ComponentTypeNotRegistered,
    /// The allocator could not issue another handle.
    AllocatorExhausted,
}

/// One component array per component type, held in an `anymap::AnyMap`
/// under the array's type. The verifier does not look inside: what the map
/// holds is known only by asking it.
#[verifier::external_body]
pub struct ComponentMaps {
    maps: anymap::AnyMap,
}

/// How many component arrays a [`ComponentMaps`] holds: what
/// `anymap::Map::len` gives for the map inside. Which types they are for
/// cannot be said here; the count is all that is known of the contents.
pub uninterp spec fn registered_arrays(components: ComponentMaps) -> nat;

/// Calls `anymap::Map::len`: the number of arrays that the map holds.
#[verifier::external_body]
fn count_maps(components: &ComponentMaps) -> (count: usize)
    ensures
        count == registered_arrays(*components),
{
    components.maps.len()
}

/// Calls `anymap::AnyMap::new`, which makes a map without entries: the
/// result holds no array.
#[verifier::external_body]
fn empty_maps() -> (components: ComponentMaps)
    ensures
        registered_arrays(components) == 0,
{
    ComponentMaps { maps: anymap::AnyMap::new() }
}

/// Calls `anymap::Map::insert`, which puts `array` in the map under its
/// type, in place of an array of that type put there before. Claimed: the
/// map then holds at least one array, and either as many as before (one
/// was replaced) or one more.
#[verifier::external_body]
fn insert_map<T: 'static>(components: &mut ComponentMaps, array: GenerationalIndexArray<T>)
    ensures
        registered_arrays(*final(components)) >= 1,
        registered_arrays(*old(components)) <= registered_arrays(*final(components))
            <= registered_arrays(*old(components)) + 1,
{
    let _ = components.maps.insert(array);
}

/// Calls `anymap::Map::get`, which hands out the array that the map holds
/// for `T`, if it holds one. Claimed: a map that holds no array hands out
/// none. Which array comes back is not claimed.
#[verifier::external_body]
fn find_map<T: 'static>(components: &ComponentMaps) -> (found: Option<&GenerationalIndexArray<T>>)
    ensures
        found is Some ==> registered_arrays(*components) >= 1,
{
    components.maps.get::<GenerationalIndexArray<T>>()
}

/// Calls `anymap::Map::get_mut`, which hands out the array that the map
/// holds for `T`, if it holds one, for writing. Claimed: a map that holds no
/// array hands out none, and the map holds as many arrays afterwards as
/// before, whatever is written to the one handed out. Which array comes
/// back is not claimed.
#[verifier::external_body]
fn find_map_mut<T: 'static>(components: &mut ComponentMaps) -> (found: Option<
    &mut GenerationalIndexArray<T>,
>)
    ensures
        found is Some ==> registered_arrays(*old(components)) >= 1,
        registered_arrays(*final(components)) == registered_arrays(*old(components)),
{
    components.maps.get_mut::<GenerationalIndexArray<T>>()
}

/// Every entity of the game and the components attached to them.
pub struct GameState {
    pub components: ComponentMaps,
    pub allocator: GenerationalIndexAllocator,
    pub entities: Vec<GenerationalIndex>,
}

impl GameState {
    /// A state without entities and without registered component types.
    pub fn create_initial_state() -> (state: GameState)
        ensures
            state.entities@ == Seq::<GenerationalIndex>::empty(),
            state.allocator@ == AllocatorModel::empty(),
            registered_arrays(state.components) == 0,
    {
        GameState {
            components: empty_maps(),
            allocator: GenerationalIndexAllocator::new(),
            entities: Vec::new(),
        }
    }

    /// How many component types have an array registered.
    pub fn registered_count(&self) -> (count: usize)
        ensures
            count == registered_arrays(self.components),
    {
        count_maps(&self.components)
    }

    /// Registers `component` as the array of its component type. An array
    /// registered for that type before is dropped: the state then holds at
    /// least one array, and as many as before or one more.
    pub fn register_map<T: 'static>(&mut self, component: GenerationalIndexArray<T>)
        ensures
            registered_arrays(final(self).components) >= 1,
            registered_arrays(old(self).components) <= registered_arrays(final(self).components)
                <= registered_arrays(old(self).components) + 1,
            final(self).entities@ == old(self).entities@,
            final(self).allocator@ == old(self).allocator@,
    {
        insert_map(&mut self.components, component);
    }

    /// What a search for the array of a component type comes to: the array
    /// that was found, or an error where none was.
    pub fn registered<'a, T>(found: Option<&'a GenerationalIndexArray<T>>) -> (array: Result<
        &'a GenerationalIndexArray<T>,
        RegistryError,
    >)
        ensures
            match found {
                Some(a) => array == Ok::<&GenerationalIndexArray<T>, RegistryError>(a),
                None => array == Err::<&GenerationalIndexArray<T>, RegistryError>(
                    RegistryError::ComponentTypeNotRegistered,
                ),
            },
    {
        match found {
            Some(array) => Ok(array),
            None => Err(RegistryError::ComponentTypeNotRegistered),
        }
    }

    /// The array registered for `T`; an error where `T` was never
    /// registered, as it is wherever nothing is registered at all.
    pub fn get_map<T: 'static>(&self) -> (found: Result<&GenerationalIndexArray<T>, RegistryError>)
        ensures
            found is Err ==> found == Err::<&GenerationalIndexArray<T>, RegistryError>(
                RegistryError::ComponentTypeNotRegistered,
            ),
            registered_arrays(self.components) == 0 ==> found is Err,
    {
        Self::registered(find_map::<T>(&self.components))
    }

    /// What a search for the array of a component type, for writing, comes
    /// to: the array that was found, or an error where none was.
    pub fn registered_mut<'a, T>(found: Option<&'a mut GenerationalIndexArray<T>>) -> (array:
        Result<&'a mut GenerationalIndexArray<T>, RegistryError>)
        ensures
            match found {
                Some(a) => {
                    &&& array is Ok
                    &&& *array->Ok_0 == *a
                    &&& *final(array->Ok_0) == *final(a)
                },
                None => array is Err && array->Err_0 == RegistryError::ComponentTypeNotRegistered,
            },
    {
        match found {
            Some(array) => Ok(array),
            None => Err(RegistryError::ComponentTypeNotRegistered),
        }
    }

    /// The array registered for `T`, for writing; an error where `T` was
    /// never registered, as it is wherever nothing is registered at all.
    /// Whatever is written, the state holds as many arrays as before.
    pub fn get_map_mut<T: 'static>(&mut self) -> (found: Result<
        &mut GenerationalIndexArray<T>,
        RegistryError,
    >)
        ensures
            found is Err ==> found->Err_0 == RegistryError::ComponentTypeNotRegistered,
            registered_arrays(old(self).components) == 0 ==> found is Err,
            registered_arrays(final(self).components) == registered_arrays(old(self).components),
            final(self).entities@ == old(self).entities@,
            final(self).allocator@ == old(self).allocator@,
    {
        Self::registered_mut(find_map_mut::<T>(&mut self.components))
    }

    /// What a lookup of `index` gives once the array of the component type
    /// has been searched for: an error where no array is registered, else
    /// the component that the array holds for `index`, if it holds one.
    pub fn lookup<'a, T>(found: Option<&'a GenerationalIndexArray<T>>, index: &GenerationalIndex) -> (value:
        Result<Option<&'a T>, RegistryError>)
        ensures
            match found {
                Some(array) => match value {
                    Ok(Some(v)) => array@.get(*index) == Some(*v),
                    Ok(None) => array@.get(*index).is_none(),
                    Err(_) => false,
                },
                None => value == Err::<Option<&T>, RegistryError>(
                    RegistryError::ComponentTypeNotRegistered,
                ),
            },
    {
        match found {
            Some(array) => Ok(array.get(index)),
            None => Err(RegistryError::ComponentTypeNotRegistered),
        }
    }

    /// The component of type `T` attached to `index`; nothing where the
    /// entity has none or the handle is stale. An error where `T` was never
    /// registered, as it is wherever nothing is registered at all.
    pub fn get<T: 'static>(&self, index: &GenerationalIndex) -> (value: Result<
        Option<&T>,
        RegistryError,
    >)
        ensures
            value is Err ==> value == Err::<Option<&T>, RegistryError>(
                RegistryError::ComponentTypeNotRegistered,
            ),
            registered_arrays(self.components) == 0 ==> value is Err,
    {
        Self::lookup(find_map::<T>(&self.components), index)
    }

    /// What a lookup of `index` for writing gives once the array of the
    /// component type has been searched for: an error where no array is
    /// registered, else mutable access to the component that the array holds
    /// for `index`, if it holds one. What is written through the reference
    /// becomes the stored component; nothing else in the array changes.
    pub fn lookup_mut<'a, T>(
        found: Option<&'a mut GenerationalIndexArray<T>>,
        index: &GenerationalIndex,
    ) -> (value: Result<Option<&'a mut T>, RegistryError>)
        ensures
            match found {
                Some(array) => match value {
                    Ok(Some(v)) => {
                        &&& array@.get(*index) == Some(*v)
                        &&& final(array)@ == array@.with_value(*index, *final(v))
                    },
                    Ok(None) => array@.get(*index).is_none() && final(array)@ == array@,
                    Err(_) => false,
                },
                None => value is Err && value->Err_0 == RegistryError::ComponentTypeNotRegistered,
            },
    {
        match found {
            Some(array) => Ok(array.get_mut(index)),
            None => Err(RegistryError::ComponentTypeNotRegistered),
        }
    }

    /// Mutable access to the component of type `T` attached to `index`;
    /// nothing where the entity has none or the handle is stale. An error
    /// where `T` was never registered, as it is wherever nothing is
    /// registered at all. Whatever is written, the state holds as many
    /// arrays as before.
    pub fn get_mut<T: 'static>(&mut self, index: &GenerationalIndex) -> (value: Result<
        Option<&mut T>,
        RegistryError,
    >)
        ensures
            value is Err ==> value->Err_0 == RegistryError::ComponentTypeNotRegistered,
            registered_arrays(old(self).components) == 0 ==> value is Err,
            registered_arrays(final(self).components) == registered_arrays(old(self).components),
            final(self).entities@ == old(self).entities@,
            final(self).allocator@ == old(self).allocator@,
    {
        Self::lookup_mut(find_map_mut::<T>(&mut self.components), index)
    }

    /// What attaching `component` to `index` does once the array of the
    /// component type has been searched for: an error where no array is
    /// registered; else the array gets a slot for every entity and then
    /// stores the component under `index`.
    pub fn attach<T>(
        entities: &Vec<GenerationalIndex>,
        found: Option<&mut GenerationalIndexArray<T>>,
        component: T,
        index: &GenerationalIndex,
    ) -> (done: Result<(), RegistryError>)
        ensures
            match found {
                Some(array) => done == Ok::<(), RegistryError>(()) && final(array)@ == array@.padded(
                    entities@.len(),
                ).set(*index, component),
                None => done == Err::<(), RegistryError>(RegistryError::ComponentTypeNotRegistered),
            },
    {
        match found {
            Some(array) => {
                Self::sync_registry(entities, array);
                array.set(index, component);
                Ok(())
            },
            None => Err(RegistryError::ComponentTypeNotRegistered),
        }
    }

    /// Attaches `component` to the entity `index`, in place of a component
    /// of that type attached before. An error where `T` was never
    /// registered, as it is wherever nothing is registered at all. No array
    /// is added or dropped.
    pub fn register_component<T: Component>(&mut self, component: T, index: &GenerationalIndex) -> (done:
        Result<(), RegistryError>)
        ensures
            done is Err ==> done == Err::<(), RegistryError>(
                RegistryError::ComponentTypeNotRegistered,
            ),
            registered_arrays(old(self).components) == 0 ==> done is Err,
            registered_arrays(final(self).components) == registered_arrays(old(self).components),
            final(self).entities@ == old(self).entities@,
            final(self).allocator@ == old(self).allocator@,
    {
        Self::attach(&self.entities, find_map_mut::<T>(&mut self.components), component, index)
    }

    /// The same as [`GameState::register_component`].
    pub fn add_component_to<T: Component>(&mut self, component: T, index: &GenerationalIndex) -> (done:
        Result<(), RegistryError>)
        ensures
            done is Err ==> done == Err::<(), RegistryError>(
                RegistryError::ComponentTypeNotRegistered,
            ),
            registered_arrays(old(self).components) == 0 ==> done is Err,
            registered_arrays(final(self).components) == registered_arrays(old(self).components),
            final(self).entities@ == old(self).entities@,
            final(self).allocator@ == old(self).allocator@,
    {
        self.register_component(component, index)
    }

    /// What detaching the component of `index` does once the array of the
    /// component type has been searched for: an error where no array is
    /// registered; else the array removes what it holds for `index`.
    pub fn detach<T>(found: Option<&mut GenerationalIndexArray<T>>, index: &GenerationalIndex) -> (done:
        Result<(), RegistryError>)
        ensures
            match found {
                Some(array) => done == Ok::<(), RegistryError>(()) && final(array)@
                    == array@.remove(*index),
                None => done == Err::<(), RegistryError>(RegistryError::ComponentTypeNotRegistered),
            },
    {
        match found {
            Some(array) => {
                array.remove(index);
                Ok(())
            },
            None => Err(RegistryError::ComponentTypeNotRegistered),
        }
    }

    /// Detaches the component of type `T` from the entity `index`; an entity
    /// without one, or a stale handle, changes nothing. An error where `T`
    /// was never registered, as it is wherever nothing is registered at all.
    /// No array is added or dropped.
    pub fn remove_component<T: Component>(&mut self, index: &GenerationalIndex) -> (done: Result<
        (),
        RegistryError,
    >)
        ensures
            done is Err ==> done == Err::<(), RegistryError>(
                RegistryError::ComponentTypeNotRegistered,
            ),
            registered_arrays(old(self).components) == 0 ==> done is Err,
            registered_arrays(final(self).components) == registered_arrays(old(self).components),
            final(self).entities@ == old(self).entities@,
            final(self).allocator@ == old(self).allocator@,
    {
        Self::detach(find_map_mut::<T>(&mut self.components), index)
    }

    /// The entity list with `entity` written at its slot number, or appended
    /// where the list has no such position.
    pub open spec fn entities_with(
        entities: Seq<GenerationalIndex>,
        entity: GenerationalIndex,
    ) -> Seq<GenerationalIndex> {
        if entity.index < entities.len() {
            entities.update(entity.index as int, entity)
        } else {
            entities.push(entity)
        }
    }

    /// The entity list mirrors the allocator: it has one position per slot,
    /// which holds the handle last issued for that slot.
    pub open spec fn mirrors(self) -> bool {
        &&& self.entities@.len() == self.allocator@.slots.len()
        &&& forall|i: int|
            0 <= i < self.entities@.len() ==> #[trigger] self.entities@[i] == GenerationalIndex {
                index: i as usize,
                generation: self.allocator@.slots[i].generation,
            }
    }

    /// Allocates a handle, records it in the entity list at its slot number,
    /// and returns a builder for attaching components to the new entity. An
    /// error, with nothing changed, where the allocator is exhausted.
    pub fn create_entity(state: &mut GameState) -> (builder: Result<EntityBuilder<'_>, RegistryError>)
        ensures
            match builder {
                Ok(b) => {
                    &&& !old(state).allocator@.exhausted()
                    &&& b.id == old(state).allocator@.next_handle()
                    &&& !b.missing
                    &&& b.state.allocator@ == old(state).allocator@.allocate()
                    &&& b.state.entities@ == Self::entities_with(old(state).entities@, b.id)
                    &&& b.state.components == old(state).components
                    &&& old(state).mirrors() ==> b.state.mirrors()
                    &&& *final(state) == *final(b.state)
                },
                Err(e) => {
                    &&& old(state).allocator@.exhausted()
                    &&& e == RegistryError::AllocatorExhausted
                    &&& final(state).allocator@ == old(state).allocator@
                    &&& final(state).entities@ == old(state).entities@
                    &&& final(state).components == old(state).components
                },
            },
    {
        proof {
            use_type_invariant(&state.allocator);
        }
        match state.allocator.allocate() {
            Ok(entity) => {
                let idx: usize = entity.index();
                if idx < state.entities.len() {
                    state.entities[idx] = entity;
                } else {
                    state.entities.push(entity);
                }
                proof {
                    let before = old(state).allocator@;
                    if before.free.len() > 0 {
                        assert(before.free[before.free.len() - 1] < before.slots.len());
                    }
                }
                Ok(EntityBuilder::new(entity, state))
            },
            Err(_) => Err(RegistryError::AllocatorExhausted),
        }
    }

    /// Extends the lookup table of `array` with empty slots until it has a
    /// slot for every entity; an array that has them already stays as it is.
    pub fn sync_registry<T>(entities: &Vec<GenerationalIndex>, array: &mut GenerationalIndexArray<T>)
        ensures
            final(array)@ == old(array)@.padded(entities@.len()),
    {
        let wanted: usize = entities.len();
        while array.slot_count() < wanted
            invariant
                wanted == entities@.len(),
                array@.slots.len() >= old(array)@.slots.len(),
                array@.slots.len() == old(array)@.slots.len() || array@.slots.len() <= wanted,
                array@ == old(array)@.padded(array@.slots.len()),
            decreases wanted - array@.slots.len(),
        {
            array.set_empty();
            assert(array@.slots =~= old(array)@.padded(array@.slots.len()).slots);
        }
    }
}

/// Attaches components to a freshly created entity, one call after the
/// other: `id` is the entity's handle, `state` the game it belongs to, and
/// `missing` tells whether a component was refused because its type is not
/// registered.
pub struct EntityBuilder<'a> {
    pub id: GenerationalIndex,
    pub state: &'a mut GameState,
    pub missing: bool,
}

impl<'a> EntityBuilder<'a> {
    pub fn new(id: GenerationalIndex, state: &'a mut GameState) -> (builder: EntityBuilder<'a>)
        ensures
            builder.id == id,
            !builder.missing,
            *builder.state == *old(state),
            *final(builder.state) == *final(state),
    {
        EntityBuilder { id, state, missing: false }
    }

    /// Attaches `component` to the entity. Where its type was never
    /// registered, as it is wherever nothing is registered at all, nothing
    /// is attached and the builder is marked as missing a component. No
    /// array is added or dropped.
    pub fn with<T: Component>(self, component: T) -> (builder: Self)
        ensures
            builder.id == self.id,
            self.missing ==> builder.missing,
            registered_arrays(old(self.state).components) == 0 ==> builder.missing,
            registered_arrays(builder.state.components) == registered_arrays(
                old(self.state).components,
            ),
            builder.state.entities@ == old(self.state).entities@,
            builder.state.allocator@ == old(self.state).allocator@,
            *final(builder.state) == *final(self.state),
    {
        let EntityBuilder { id, state, missing } = self;
        let attached = state.register_component(component, &id);
        EntityBuilder { id, state, missing: missing || attached.is_err() }
    }

    /// Ends the construction: the entity's handle, or an error where a
    /// component was refused on the way.
    pub fn build(self) -> (entity: Result<GenerationalIndex, RegistryError>)
        ensures
            entity == if self.missing {
                Err::<GenerationalIndex, RegistryError>(RegistryError::ComponentTypeNotRegistered)
            } else {
                Ok::<GenerationalIndex, RegistryError>(self.id)
            },
            *final(self.state) == *old(self.state),
    {
        if self.missing {
            Err(RegistryError::ComponentTypeNotRegistered)
        } else {
            Ok(self.id)
        }
    }
}

} // verus!
