use concoeur::ecs::resource::Resources;
use concoeur::ecs::World;
use std::any::TypeId;

struct Width(pub u32);
struct Height(pub u32);

#[test]
fn a_second_resource_of_a_type_replaces_the_first() {
    let mut resources = Resources::default();
    resources.add(Width(1));
    resources.add(Height(7));
    resources.add(Width(2));
    assert_eq!(resources.get_ref::<Width>().unwrap().0, 2);
    assert_eq!(resources.get_ref::<Height>().unwrap().0, 7);
    resources.get_mut::<Width>().unwrap().0 += 1;
    assert_eq!(resources.get_ref::<Width>().unwrap().0, 3);
    assert_eq!(resources.get_ref::<Height>().unwrap().0, 7);
}

#[test]
fn a_type_without_resource_has_none() {
    let mut resources = Resources::default();
    assert!(resources.get_ref::<Width>().is_none());
    assert!(resources.get_mut::<Width>().is_none());
    assert!(resources.lookup(&TypeId::of::<Width>()).is_none());
    assert!(resources.lookup_mut(&TypeId::of::<Width>()).is_none());
    resources.add(Height(1));
    assert!(resources.get_ref::<Width>().is_none());
    assert!(resources.get_mut::<Width>().is_none());
    assert!(resources.lookup(&TypeId::of::<Height>()).is_some());
    assert!(resources.lookup_mut(&TypeId::of::<Height>()).is_some());
}

#[test]
fn a_world_keeps_one_resource_per_type() {
    let mut world = World::new();
    assert!(world.get_resource::<Width>().is_none());
    assert!(world.get_resource_mut::<Width>().is_none());
    world.add_resource(Width(80));
    world.add_resource(Height(21));
    world.add_resource(Width(81));
    assert_eq!(world.get_resource::<Width>().unwrap().0, 81);
    world.get_resource_mut::<Height>().unwrap().0 = 22;
    assert_eq!(world.get_resource::<Height>().unwrap().0, 22);
    assert_eq!(world.get_resource::<Width>().unwrap().0, 81);
}

#[test]
fn a_default_world_is_a_new_world() -> Result<(), &'static str> {
    let mut world = World::default();
    assert!(world.get_resource::<Width>().is_none());
    assert_eq!(world.query().run().0.len(), 0);
    assert_eq!(
        world.create_entity().with_component(Width(1)).err(),
        Some("Component not registered")
    );
    world.register_component::<Width>()?;
    assert_eq!(world.register_component::<Width>(), Err("Component already registered"));
    world.create_entity().with_component(Width(1))?;
    let mut query = world.query();
    assert_eq!(query.with_component::<Height>().err(), Some("Component not registered"));
    assert_eq!(query.with_component::<Width>()?.run_query().len(), 1);
    Ok(())
}

#[test]
fn a_world_registers_and_finds_by_identity() -> Result<(), &'static str> {
    let mut world = World::new();
    assert_eq!(world.register_type(TypeId::of::<Width>()), Ok(()));
    assert_eq!(world.register_type(TypeId::of::<Width>()), Err("Component already registered"));
    world.create_entity().with_component(Width(3))?;
    assert_eq!(world.query().with_type(TypeId::of::<Width>())?.run().0, vec![0]);
    assert!(world.resource(&TypeId::of::<Height>()).is_none());
    world.add_resource(Height(4));
    assert!(world.resource(&TypeId::of::<Height>()).is_some());
    assert!(world.resource(&TypeId::of::<Width>()).is_none());
    Ok(())
}
