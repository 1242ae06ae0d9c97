use concoeur::ecs::resource::Resources;
use std::any::TypeId;

struct WorldWidth(pub f32);

fn initialize_resource() -> Resources {
    let mut resources = Resources::default();
    let world_width = WorldWidth(100.0);

    resources.add(world_width);
    resources
}

#[test]
fn add_resource() {
    let resources = initialize_resource();

    assert!(resources.lookup(&TypeId::of::<WorldWidth>()).is_some());
    let world_width = resources.get_ref::<WorldWidth>().unwrap();
    assert_eq!(world_width.0, 100.0);
}

#[test]
fn get_resource() {
    let resources = initialize_resource();

    if let Some(world_width) = resources.get_ref::<WorldWidth>() {
        assert_eq!(world_width.0, 100.0);
    }
}

#[test]
fn get_resource_mut() {
    let mut resources = initialize_resource();
    {
        let world_width = resources.get_mut::<WorldWidth>().unwrap();
        world_width.0 += 1.0;
    }
    let world_width = resources.get_ref::<WorldWidth>().unwrap();
    assert_eq!(world_width.0, 101.0);
}
