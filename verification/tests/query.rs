use concoeur::ecs::entity::query::Query;
use concoeur::ecs::entity::Entities;
use std::any::TypeId;

#[test]
fn query_mask_updating_with_component() -> Result<(), &'static str> {
    let mut entities = Entities::default();
    entities.register_component::<u32>()?;
    entities.register_component::<f32>()?;
    let mut query = Query::new(&entities);
    query.with_component::<u32>()?.with_component::<f32>()?;

    assert_eq!(query.filter(), 3);
    assert_eq!(TypeId::of::<u32>(), query.type_ids()[0]);
    assert_eq!(TypeId::of::<f32>(), query.type_ids()[1]);

    Ok(())
}

#[test]
fn run_query() -> Result<(), &'static str> {
    let mut entities = Entities::default();
    entities.register_component::<u32>()?;
    entities.register_component::<f32>()?;
    entities
        .create_entity()
        .with_component(10_u32)?
        .with_component(20.0_f32)?;
    entities.create_entity().with_component(5_u32)?;
    entities.create_entity().with_component(50.0_f32)?;
    entities
        .create_entity()
        .with_component(15_u32)?
        .with_component(25.0_f32)?;
    let mut query = Query::new(&entities);
    query.with_component::<u32>()?.with_component::<f32>()?;

    let query_result = query.run();
    let u32s = &query_result.1[0];
    let f32s = &query_result.1[1];
    let indexes = &query_result.0;

    assert!(u32s.len() == f32s.len() && u32s.len() == indexes.len());
    assert_eq!(u32s.len(), 2);

    let first_u32 = u32s[0].borrow::<u32>()?;
    assert_eq!(*first_u32, 10);

    let first_f32 = f32s[0].borrow::<f32>()?;
    assert_eq!(*first_f32, 20.0);

    let second_u32 = u32s[1].borrow::<u32>()?;
    assert_eq!(*second_u32, 15);

    let second_f32 = f32s[1].borrow::<f32>()?;
    assert_eq!(*second_f32, 25.0);

    assert_eq!(indexes[0], 0);
    assert_eq!(indexes[1], 3);

    Ok(())
}

#[test]
fn run_entity_query_ref() -> Result<(), &'static str> {
    let mut entities = Entities::default();
    entities.register_component::<u32>()?;
    entities.register_component::<f32>()?;

    entities.create_entity().with_component(5_u32)?;
    entities.create_entity().with_component(50.0_f32)?;

    let mut query = Query::new(&entities);

    let query_entities = query.with_component::<u32>()?.run_query();

    assert_eq!(query_entities.len(), 1);

    for entity in query_entities {
        assert_eq!(entity.id(), 0);
        let health = entity.get_component::<u32>()?;
        assert_eq!(*health, 5);
    }

    Ok(())
}

#[test]
fn run_entity_query_mut() -> Result<(), &'static str> {
    let mut entities = Entities::default();
    entities.register_component::<u32>()?;
    entities.register_component::<f32>()?;

    entities.create_entity().with_component(5_u32)?;
    entities.create_entity().with_component(50.0_f32)?;

    let mut query = Query::new(&entities);

    let query_entities = query.with_component::<u32>()?.run_query();

    assert_eq!(query_entities.len(), 1);

    for entity in query_entities {
        assert_eq!(entity.id(), 0);
        let mut health = entity.get_component_mut::<u32>()?;
        assert_eq!(*health, 5);
        *health *= 10;
    }

    let query_entities = query.with_component::<u32>()?.run_query();

    for entity in query_entities {
        assert_eq!(entity.id(), 0);
        let health = entity.get_component::<u32>()?;
        assert_eq!(*health, 50);
    }

    Ok(())
}
