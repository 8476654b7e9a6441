use engine::game_state::{Component, EntityBuilder, GameState, RegistryError};
use engine::generational_index::{GenerationalIndex, GenerationalIndexArray};

#[derive(Debug, PartialEq)]
struct Position(i32, i32);

impl Component for Position {}

#[derive(Debug, PartialEq)]
struct Selected;

impl Component for Selected {}

#[derive(Debug, PartialEq)]
struct Unknown;

impl Component for Unknown {}

fn handle(index: usize, generation: u64) -> GenerationalIndex {
    GenerationalIndex { index, generation }
}

fn state_with_maps() -> GameState {
    let mut state = GameState::create_initial_state();
    state.register_map(GenerationalIndexArray::<Position>::new());
    state.register_map(GenerationalIndexArray::<Selected>::new());
    state
}

#[test]
fn initial_state_has_no_entities() {
    let state = GameState::create_initial_state();
    assert_eq!(state.entities.len(), 0);
    assert!(!state.allocator.is_live(&handle(0, 0)));
}

#[test]
fn create_entity_records_the_handle() {
    let mut state = state_with_maps();
    let first = GameState::create_entity(&mut state).unwrap().build();
    let second = GameState::create_entity(&mut state).unwrap().build();
    assert_eq!(first, Ok(handle(0, 0)));
    assert_eq!(second, Ok(handle(1, 0)));
    assert_eq!(state.entities, vec![handle(0, 0), handle(1, 0)]);
    assert!(state.allocator.is_live(&handle(1, 0)));
}

#[test]
fn create_entity_overwrites_the_position_of_a_reused_slot() {
    let mut state = state_with_maps();
    let first = GameState::create_entity(&mut state).unwrap().build().unwrap();
    let _second = GameState::create_entity(&mut state).unwrap().build().unwrap();
    assert!(state.allocator.deallocate(&first));
    let third = GameState::create_entity(&mut state).unwrap().build().unwrap();
    assert_eq!(third, handle(0, 1));
    assert_eq!(state.entities, vec![handle(0, 1), handle(1, 0)]);
}

#[test]
fn builder_attaches_components() {
    let mut state = state_with_maps();
    let entity = GameState::create_entity(&mut state)
        .unwrap()
        .with(Position(3, 4))
        .with(Selected)
        .build()
        .unwrap();
    assert_eq!(state.get::<Position>(&entity), Ok(Some(&Position(3, 4))));
    assert_eq!(state.get::<Selected>(&entity), Ok(Some(&Selected)));
}

#[test]
fn builder_reports_an_unregistered_component_type() {
    let mut state = state_with_maps();
    let built = GameState::create_entity(&mut state).unwrap().with(Position(1, 1)).with(Unknown).build();
    assert_eq!(built, Err(RegistryError::ComponentTypeNotRegistered));
    assert_eq!(state.get::<Position>(&handle(0, 0)), Ok(Some(&Position(1, 1))));
}

#[test]
fn builder_new_starts_complete() {
    let mut state = state_with_maps();
    let builder = EntityBuilder::new(handle(5, 0), &mut state);
    assert_eq!(builder.id, handle(5, 0));
    assert!(!builder.missing);
    assert_eq!(builder.build(), Ok(handle(5, 0)));
}

#[test]
fn unset_type_is_absent_and_unregistered_type_is_an_error() {
    let mut state = state_with_maps();
    let entity = GameState::create_entity(&mut state).unwrap().with(Position(0, 0)).build().unwrap();
    assert_eq!(state.get::<Selected>(&entity), Ok(None));
    assert_eq!(state.get::<Unknown>(&entity), Err(RegistryError::ComponentTypeNotRegistered));
    assert_eq!(state.get_mut::<Unknown>(&entity), Err(RegistryError::ComponentTypeNotRegistered));
    assert_eq!(
        state.register_component(Unknown, &entity),
        Err(RegistryError::ComponentTypeNotRegistered)
    );
    assert_eq!(
        state.remove_component::<Unknown>(&entity),
        Err(RegistryError::ComponentTypeNotRegistered)
    );
    assert!(state.get_map::<Unknown>().is_err());
    assert!(state.get_map_mut::<Unknown>().is_err());
}

#[test]
fn attaching_pads_the_array_to_the_entity_count() {
    let mut state = state_with_maps();
    let a = GameState::create_entity(&mut state).unwrap().build().unwrap();
    let _b = GameState::create_entity(&mut state).unwrap().build().unwrap();
    let _c = GameState::create_entity(&mut state).unwrap().build().unwrap();
    assert_eq!(state.get_map::<Position>().unwrap().slot_count(), 0);
    assert_eq!(state.add_component_to(Position(1, 2), &a), Ok(()));
    assert_eq!(state.get_map::<Position>().unwrap().slot_count(), 3);
    assert_eq!(state.get_map::<Position>().unwrap().entries().len(), 1);
    assert_eq!(state.get_map::<Selected>().unwrap().slot_count(), 0);
}

#[test]
fn sync_registry_pads_and_never_shrinks() {
    let entities = vec![handle(0, 0), handle(1, 0), handle(2, 0)];
    let mut array: GenerationalIndexArray<i32> = GenerationalIndexArray::new();
    GameState::sync_registry(&entities, &mut array);
    assert_eq!(array.slot_count(), 3);
    array.set(&handle(6, 0), 1);
    GameState::sync_registry(&entities, &mut array);
    assert_eq!(array.slot_count(), 7);
    assert_eq!(array.get(&handle(6, 0)), Some(&1));
}

#[test]
fn get_mut_changes_the_stored_component() {
    let mut state = state_with_maps();
    let entity = GameState::create_entity(&mut state).unwrap().with(Position(0, 0)).build().unwrap();
    if let Ok(Some(position)) = state.get_mut::<Position>(&entity) {
        position.0 = 9;
    }
    assert_eq!(state.get::<Position>(&entity), Ok(Some(&Position(9, 0))));
}

#[test]
fn tag_component_can_be_removed_and_attached_again() {
    let mut state = state_with_maps();
    let a = GameState::create_entity(&mut state).unwrap().with(Position(0, 0)).build().unwrap();
    let b = GameState::create_entity(&mut state).unwrap().with(Position(1, 1)).with(Selected).build().unwrap();
    assert_eq!(state.get::<Selected>(&a), Ok(None));
    assert_eq!(state.remove_component::<Selected>(&b), Ok(()));
    assert_eq!(state.get::<Selected>(&b), Ok(None));
    assert_eq!(state.remove_component::<Selected>(&b), Ok(()));
    assert_eq!(state.register_component(Selected, &a), Ok(()));
    assert_eq!(state.get::<Selected>(&a), Ok(Some(&Selected)));
    assert_eq!(state.get_map::<Selected>().unwrap().entries().len(), 1);
    assert_eq!(state.get::<Position>(&b), Ok(Some(&Position(1, 1))));
}

#[test]
fn removing_one_entity_component_keeps_the_others() {
    let mut state = state_with_maps();
    let a = GameState::create_entity(&mut state).unwrap().with(Position(1, 0)).build().unwrap();
    let b = GameState::create_entity(&mut state).unwrap().with(Position(2, 0)).build().unwrap();
    let c = GameState::create_entity(&mut state).unwrap().with(Position(3, 0)).build().unwrap();
    assert_eq!((a, b, c), (handle(0, 0), handle(1, 0), handle(2, 0)));
    assert_eq!(state.remove_component::<Position>(&b), Ok(()));
    assert_eq!(state.get::<Position>(&a), Ok(Some(&Position(1, 0))));
    assert_eq!(state.get::<Position>(&c), Ok(Some(&Position(3, 0))));
    assert_eq!(state.get::<Position>(&b), Ok(None));
    assert_eq!(state.get_map::<Position>().unwrap().entries().len(), 2);
}

#[test]
fn stale_handle_finds_nothing_in_the_registry() {
    let mut state = state_with_maps();
    let a = GameState::create_entity(&mut state).unwrap().build().unwrap();
    assert!(state.allocator.deallocate(&a));
    let again = GameState::create_entity(&mut state).unwrap().with(Position(5, 5)).build().unwrap();
    assert_eq!(again, handle(0, 1));
    assert_eq!(state.get::<Position>(&a), Ok(None));
    assert_eq!(state.get::<Position>(&again), Ok(Some(&Position(5, 5))));
}

#[test]
fn registering_a_map_again_replaces_it() {
    let mut state = state_with_maps();
    let a = GameState::create_entity(&mut state).unwrap().with(Position(1, 1)).build().unwrap();
    state.register_map(GenerationalIndexArray::<Position>::new());
    assert_eq!(state.get::<Position>(&a), Ok(None));
}

#[test]
fn lookup_on_a_found_array_and_on_none() {
    let mut array: GenerationalIndexArray<i32> = GenerationalIndexArray::new();
    array.set(&handle(0, 0), 4);
    assert_eq!(GameState::lookup(Some(&array), &handle(0, 0)), Ok(Some(&4)));
    assert_eq!(GameState::lookup(Some(&array), &handle(0, 1)), Ok(None));
    assert_eq!(
        GameState::lookup::<i32>(None, &handle(0, 0)),
        Err(RegistryError::ComponentTypeNotRegistered)
    );
    assert_eq!(
        GameState::lookup_mut::<i32>(None, &handle(0, 0)),
        Err(RegistryError::ComponentTypeNotRegistered)
    );
    if let Ok(Some(value)) = GameState::lookup_mut(Some(&mut array), &handle(0, 0)) {
        *value = 5;
    }
    assert_eq!(array.get(&handle(0, 0)), Some(&5));
}

#[test]
fn attach_and_detach_on_a_found_array_and_on_none() {
    let entities = vec![handle(0, 0), handle(1, 0)];
    let mut array: GenerationalIndexArray<i32> = GenerationalIndexArray::new();
    assert_eq!(GameState::attach(&entities, Some(&mut array), 8, &handle(0, 0)), Ok(()));
    assert_eq!(array.slot_count(), 2);
    assert_eq!(array.get(&handle(0, 0)), Some(&8));
    assert_eq!(
        GameState::attach::<i32>(&entities, None, 8, &handle(0, 0)),
        Err(RegistryError::ComponentTypeNotRegistered)
    );
    assert_eq!(GameState::detach(Some(&mut array), &handle(0, 0)), Ok(()));
    assert_eq!(array.get(&handle(0, 0)), None);
    assert_eq!(
        GameState::detach::<i32>(None, &handle(0, 0)),
        Err(RegistryError::ComponentTypeNotRegistered)
    );
}

#[test]
fn state_without_registered_types_refuses_every_lookup() {
    let mut state = GameState::create_initial_state();
    assert_eq!(state.registered_count(), 0);
    let entity = GameState::create_entity(&mut state).unwrap().build().unwrap();
    assert_eq!(state.get::<Position>(&entity), Err(RegistryError::ComponentTypeNotRegistered));
    assert_eq!(state.get_mut::<Position>(&entity), Err(RegistryError::ComponentTypeNotRegistered));
    assert!(state.get_map::<Position>().is_err());
    assert!(state.get_map_mut::<Position>().is_err());
    assert_eq!(
        state.register_component(Position(0, 0), &entity),
        Err(RegistryError::ComponentTypeNotRegistered)
    );
    assert_eq!(
        state.add_component_to(Position(0, 0), &entity),
        Err(RegistryError::ComponentTypeNotRegistered)
    );
    assert_eq!(
        state.remove_component::<Position>(&entity),
        Err(RegistryError::ComponentTypeNotRegistered)
    );
    let builder = GameState::create_entity(&mut state).unwrap().with(Position(0, 0));
    assert!(builder.missing);
    assert_eq!(state.registered_count(), 0);
}

#[test]
fn registered_count_follows_the_registrations() {
    let mut state = GameState::create_initial_state();
    state.register_map(GenerationalIndexArray::<Position>::new());
    assert_eq!(state.registered_count(), 1);
    state.register_map(GenerationalIndexArray::<Selected>::new());
    assert_eq!(state.registered_count(), 2);
    state.register_map(GenerationalIndexArray::<Position>::new());
    assert_eq!(state.registered_count(), 2);
}

#[test]
fn attaching_and_detaching_keep_the_registered_count() {
    let mut state = state_with_maps();
    let entity = GameState::create_entity(&mut state).unwrap().with(Position(1, 2)).build().unwrap();
    assert_eq!(state.registered_count(), 2);
    if let Ok(array) = state.get_map_mut::<Position>() {
        array.set(&handle(3, 0), Position(9, 9));
    }
    if let Ok(Some(position)) = state.get_mut::<Position>(&entity) {
        position.1 = 7;
    }
    assert_eq!(state.remove_component::<Position>(&entity), Ok(()));
    assert_eq!(state.register_component(Unknown, &entity), Err(RegistryError::ComponentTypeNotRegistered));
    assert_eq!(state.registered_count(), 2);
    assert_eq!(state.get::<Position>(&handle(3, 0)), Ok(Some(&Position(9, 9))));
}

#[test]
fn registered_hands_on_what_was_found() {
    let mut array: GenerationalIndexArray<i32> = GenerationalIndexArray::new();
    array.set(&handle(0, 0), 4);
    assert_eq!(GameState::registered(Some(&array)).unwrap().get(&handle(0, 0)), Some(&4));
    assert!(GameState::registered::<i32>(None).is_err());
    if let Ok(found) = GameState::registered_mut(Some(&mut array)) {
        found.set(&handle(1, 0), 5);
    }
    assert_eq!(array.get(&handle(1, 0)), Some(&5));
    assert!(GameState::registered_mut::<i32>(None).is_err());
}
