use concoeur::ecs::entity::query::Query;
use concoeur::ecs::entity::query::QueryEntity;
use concoeur::ecs::entity::Entities;
use std::any::TypeId;

struct Health(pub u32);
struct Speed(pub u32);
struct Armor(pub u32);

fn three_entities() -> Result<Entities, &'static str> {
    let mut entities = Entities::default();
    entities.register_component::<Health>()?;
    entities.register_component::<Speed>()?;
    entities.create_entity().with_component(Health(10))?;
    entities.create_entity().with_component(Speed(5))?;
    entities.create_entity().with_component(Health(15))?.with_component(Speed(25))?;
    Ok(entities)
}

#[test]
fn a_query_for_two_types_selects_the_entity_with_both() -> Result<(), &'static str> {
    let entities = three_entities()?;
    let mut query = Query::new(&entities);
    query.with_component::<Health>()?.with_component::<Speed>()?;
    let (indexes, columns) = query.run();
    assert_eq!(indexes, vec![2]);
    assert_eq!(columns.len(), 2);
    assert_eq!(columns[0].len(), 1);
    assert_eq!(columns[1].len(), 1);
    assert_eq!(columns[0][0].borrow::<Health>()?.0, 15);
    assert_eq!(columns[1][0].borrow::<Speed>()?.0, 25);

    let found = query.run_query();
    assert_eq!(found.len(), 1);
    assert_eq!(found[0].id(), 2);
    assert_eq!(found[0].get_component::<Health>()?.0, 15);
    assert_eq!(found[0].get_component::<Speed>()?.0, 25);
    Ok(())
}

#[test]
fn a_query_for_a_type_that_no_entity_has_selects_none() -> Result<(), &'static str> {
    let mut entities = Entities::default();
    entities.register_component::<Health>()?;
    entities.register_component::<Speed>()?;
    entities.create_entity().with_component(Health(100))?;
    let mut query = Query::new(&entities);
    query.with_component::<Speed>()?;
    let (indexes, columns) = query.run();
    assert_eq!(indexes, Vec::<usize>::new());
    assert_eq!(columns.len(), 1);
    assert_eq!(columns[0].len(), 0);
    assert_eq!(query.run_query().len(), 0);
    Ok(())
}

#[test]
fn a_query_selects_exactly_the_covering_masks_in_ascending_order() -> Result<(), &'static str> {
    let mut entities = Entities::default();
    entities.register_component::<Health>()?;
    entities.register_component::<Speed>()?;
    entities.register_component::<Armor>()?;
    for n in 0..16u32 {
        let entity = entities.create_entity();
        // Every entity has armor, so that none is free to be taken again.
        entity.with_component(Armor(n))?;
        if n % 2 == 1 {
            entity.with_component(Health(n))?;
        }
        if n % 3 == 0 {
            entity.with_component(Speed(n))?;
        }
    }
    let mut query = Query::new(&entities);
    query.with_component::<Speed>()?.with_component::<Health>()?;
    let filter = query.filter();
    assert_eq!(filter, 3);
    let (indexes, columns) = query.run();
    let mut expected = Vec::new();
    for index in 0..entities.len() {
        if entities.mask(index).unwrap() & filter == filter {
            expected.push(index);
        }
    }
    assert_eq!(indexes, expected);
    assert_eq!(indexes, vec![3, 9, 15]);
    // The columns come in the order of the requests.
    assert_eq!(columns[0][1].borrow::<Speed>()?.0, 9);
    assert_eq!(columns[1][2].borrow::<Health>()?.0, 15);
    let ids: Vec<usize> = query.run_query().iter().map(|entity| entity.id()).collect();
    assert_eq!(ids, expected);
    Ok(())
}

#[test]
fn a_query_without_types_selects_every_entity() -> Result<(), &'static str> {
    let mut entities = three_entities()?;
    entities.remove_entity(1)?;
    let query = Query::new(&entities);
    assert_eq!(query.filter(), 0);
    assert_eq!(query.type_ids().len(), 0);
    let (indexes, columns) = query.run();
    assert_eq!(indexes, vec![0, 1, 2]);
    assert_eq!(columns.len(), 0);
    assert_eq!(query.run_query().len(), 3);
    Ok(())
}

#[test]
fn a_query_on_an_empty_store_selects_none() -> Result<(), &'static str> {
    let mut entities = Entities::default();
    entities.register_component::<Health>()?;
    let mut query = Query::new(&entities);
    let (indexes, columns) = query.with_component::<Health>()?.run();
    assert_eq!(indexes.len(), 0);
    assert_eq!(columns.len(), 1);
    assert_eq!(columns[0].len(), 0);
    Ok(())
}

#[test]
fn a_query_refuses_a_type_that_is_not_registered() -> Result<(), &'static str> {
    let entities = three_entities()?;
    let mut query = Query::new(&entities);
    query.with_component::<Health>()?;
    assert_eq!(query.with_component::<Armor>().err(), Some("Component not registered"));
    assert_eq!(query.with_type(TypeId::of::<Armor>()).err(), Some("Component not registered"));
    assert_eq!(query.filter(), 1);
    assert_eq!(query.type_ids(), &vec![TypeId::of::<Health>()]);
    query.with_type(TypeId::of::<Speed>())?;
    assert_eq!(query.filter(), 3);
    Ok(())
}

#[test]
fn a_type_requested_twice_gives_two_columns() -> Result<(), &'static str> {
    let entities = three_entities()?;
    let mut query = Query::new(&entities);
    query.with_component::<Health>()?.with_component::<Health>()?;
    assert_eq!(query.filter(), 1);
    let (indexes, columns) = query.run();
    assert_eq!(indexes, vec![0, 2]);
    assert_eq!(columns.len(), 2);
    assert_eq!(columns[0][1].borrow::<Health>()?.0, 15);
    assert_eq!(columns[1][0].borrow::<Health>()?.0, 10);
    Ok(())
}

#[test]
fn what_was_attached_is_read_back_in_both_forms() -> Result<(), &'static str> {
    let mut entities = Entities::default();
    entities.register_component::<Health>()?;
    entities.register_component::<Speed>()?;
    entities.create_entity().with_component(Speed(1))?;
    entities.create_entity().with_component(Health(77))?;
    let mut query = Query::new(&entities);
    query.with_component::<Health>()?;
    let (indexes, columns) = query.run();
    assert_eq!(indexes, vec![1]);
    assert_eq!(columns[0][0].borrow::<Health>()?.0, 77);
    let found = query.run_query();
    assert_eq!(found[0].get_component::<Health>()?.0, 77);
    Ok(())
}

#[test]
fn a_change_through_an_accessor_is_seen_by_the_next_read() -> Result<(), &'static str> {
    let entities = three_entities()?;
    let mut query = Query::new(&entities);
    query.with_component::<Health>()?;
    let found = query.run_query();
    {
        let mut health = found[1].get_component_mut::<Health>()?;
        health.0 += 100;
    }
    assert_eq!(found[1].get_component::<Health>()?.0, 115);
    assert_eq!(found[0].get_component::<Health>()?.0, 10);
    // The bulk form and the store itself see the same cell.
    let (indexes, columns) = query.run();
    assert_eq!(indexes, vec![0, 2]);
    assert_eq!(columns[0][1].borrow::<Health>()?.0, 115);
    columns[0][0].borrow_mut::<Health>()?.0 = 1;
    assert_eq!(entities.cell(&TypeId::of::<Health>(), 0)?.borrow::<Health>()?.0, 1);
    Ok(())
}

#[test]
fn an_accessor_reports_what_its_entity_lacks() -> Result<(), &'static str> {
    let entities = three_entities()?;
    let mut query = Query::new(&entities);
    query.with_component::<Health>()?;
    let found = query.run_query();
    assert_eq!(found[0].get_component::<Speed>().err(), Some("Component not found"));
    assert_eq!(found[0].get_component_mut::<Speed>().err(), Some("Component not found"));
    assert_eq!(found[0].get_component::<Armor>().err(), Some("Component not registered"));
    assert_eq!(found[0].get_component_mut::<Armor>().err(), Some("Component not registered"));
    assert_eq!(found[0].cell(&TypeId::of::<Speed>()).err(), Some("Component not found"));
    assert!(found[1].cell(&TypeId::of::<Speed>()).is_ok());
    Ok(())
}

#[test]
fn an_accessor_for_no_entity_finds_nothing() -> Result<(), &'static str> {
    let entities = three_entities()?;
    let stray = QueryEntity::new(3, &entities);
    assert_eq!(stray.id(), 3);
    assert_eq!(stray.get_component::<Health>().err(), Some("Component not found"));
    assert_eq!(stray.get_component_mut::<Health>().err(), Some("Component not found"));
    assert_eq!(stray.get_component::<Armor>().err(), Some("Component not registered"));
    let first = QueryEntity::new(0, &entities);
    assert_eq!(first.get_component::<Health>()?.0, 10);
    Ok(())
}

#[test]
fn a_query_shows_the_store_as_it_is_when_it_runs() -> Result<(), &'static str> {
    let mut entities = three_entities()?;
    {
        let mut query = Query::new(&entities);
        query.with_component::<Speed>()?;
        assert_eq!(query.run().0, vec![1, 2]);
    }
    entities.remove_entity(1)?;
    entities.create_entity().with_component(Health(1))?;
    entities.create_entity().with_component(Speed(1))?;
    let mut query = Query::new(&entities);
    query.with_component::<Speed>()?;
    assert_eq!(query.run().0, vec![2, 3]);
    Ok(())
}
