use concoeur::components::Direction;
use concoeur::components::Player;
use concoeur::components::Position;
use concoeur::components::Renderable;
use concoeur::ecs::World;
use concoeur::game::command_for;
use concoeur::game::compose_frame;
use concoeur::game::draw_world;
use concoeur::game::frame_of_types;
use concoeur::game::move_player_of_types;
use concoeur::game::new_game_of_types;
use concoeur::game::sprites_of_types;
use concoeur::game::move_player;
use concoeur::game::new_game;
use concoeur::game::sprites;
use concoeur::game::step;
use concoeur::game::Command;
use concoeur::game::Sprite;
use concoeur::map::Tile;
use concoeur::map::TileMap;
use std::any::TypeId;

fn open_map(height: usize, width: usize) -> TileMap {
    let mut map = TileMap::new(height, width);
    for row in map.tiles.iter_mut() {
        for tile in row.iter_mut() {
            *tile = Tile::scattered(false);
        }
    }
    map
}

fn text(frame: Vec<char>) -> String {
    frame.into_iter().collect()
}

fn player_position(world: &World) -> Position {
    let mut query = world.query();
    let found = query
        .with_component::<Player>()
        .unwrap()
        .with_component::<Position>()
        .unwrap()
        .run_query();
    let position = found[0].get_component::<Position>().unwrap();
    *position
}

#[test]
fn keys_give_commands() {
    assert_eq!(command_for(b'q'), Command::Quit);
    assert_eq!(command_for(b'h'), Command::Step(Direction { x: 0, y: -1 }));
    assert_eq!(command_for(b'y'), Command::Step(Direction { x: -1, y: -1 }));
    assert_eq!(command_for(b'k'), Command::Step(Direction { x: -1, y: 0 }));
    assert_eq!(command_for(b'u'), Command::Step(Direction { x: -1, y: 1 }));
    assert_eq!(command_for(b'l'), Command::Step(Direction { x: 0, y: 1 }));
    assert_eq!(command_for(b'n'), Command::Step(Direction { x: 1, y: 1 }));
    assert_eq!(command_for(b'j'), Command::Step(Direction { x: 1, y: 0 }));
    assert_eq!(command_for(b'b'), Command::Step(Direction { x: 1, y: -1 }));
    assert_eq!(command_for(b'x'), Command::Wait);
    assert_eq!(command_for(b'Q'), Command::Wait);
    assert_eq!(command_for(0), Command::Wait);
}

#[test]
fn a_step_leads_to_an_open_place_only() {
    let mut map = open_map(3, 3);
    map.tiles[0][1] = Tile::scattered(true);
    let mut position = Position { x: 1, y: 1 };
    step(&map, &mut position, Direction { x: -1, y: 0 });
    assert_eq!(position, Position { x: 1, y: 1 });
    step(&map, &mut position, Direction { x: 1, y: 1 });
    assert_eq!(position, Position { x: 2, y: 2 });
    // Off the map.
    step(&map, &mut position, Direction { x: 1, y: 0 });
    assert_eq!(position, Position { x: 2, y: 2 });
    step(&map, &mut position, Direction { x: 0, y: 1 });
    assert_eq!(position, Position { x: 2, y: 2 });
    // A coordinate below zero becomes zero.
    step(&map, &mut position, Direction { x: -3, y: -2 });
    assert_eq!(position, Position { x: 0, y: 0 });
}

#[test]
fn the_frame_shows_tiles_and_sprites() {
    let mut map = open_map(2, 3);
    map.tiles[0][0] = Tile::scattered(true);
    let shown = vec![
        Sprite { position: Position { x: 1, y: 1 }, display: '@' },
        Sprite { position: Position { x: 1, y: 1 }, display: 'g' },
        Sprite { position: Position { x: 0, y: 2 }, display: 'g' },
        Sprite { position: Position { x: 5, y: 5 }, display: 'x' },
    ];
    assert_eq!(text(compose_frame(&map, &shown)), "#.g\n.@.\n");
    assert_eq!(text(compose_frame(&map, &Vec::new())), "#..\n...\n");
    assert_eq!(text(compose_frame(&TileMap::new(0, 0), &shown)), "");
    assert_eq!(text(compose_frame(&TileMap::new(2, 0), &shown)), "\n\n");
}

#[test]
fn a_new_game_has_a_map_and_a_player() -> Result<(), &'static str> {
    let world = new_game(open_map(21, 80))?;
    assert_eq!(world.get_resource::<TileMap>().unwrap().tiles.len(), 21);
    assert_eq!(player_position(&world), Position { x: 19, y: 69 });
    let shown = sprites(&world)?;
    assert_eq!(shown, vec![Sprite { position: Position { x: 19, y: 69 }, display: '@' }]);
    Ok(())
}

#[test]
fn the_world_is_drawn_with_its_player() -> Result<(), &'static str> {
    let world = new_game(open_map(21, 80))?;
    let frame = text(draw_world(&world)?.unwrap());
    let lines: Vec<&str> = frame.lines().collect();
    assert_eq!(lines.len(), 21);
    for (row, line) in lines.iter().enumerate() {
        assert_eq!(line.chars().count(), 80);
        for (column, glyph) in line.chars().enumerate() {
            if row == 19 && column == 69 {
                assert_eq!(glyph, '@');
            } else {
                assert_eq!(glyph, '.');
            }
        }
    }
    assert!(frame.ends_with('\n'));
    Ok(())
}

#[test]
fn a_world_without_map_has_no_frame() -> Result<(), &'static str> {
    let mut world = World::new();
    world.register_component::<Position>()?;
    world.register_component::<Renderable>()?;
    assert_eq!(draw_world(&world)?, None);
    Ok(())
}

#[test]
fn drawing_needs_the_component_types() {
    let world = World::new();
    assert_eq!(draw_world(&world), Err("Component not registered"));
    assert_eq!(sprites(&world), Err("Component not registered"));
}

#[test]
fn the_player_moves_on_open_floor() -> Result<(), &'static str> {
    let mut map = open_map(21, 80);
    map.tiles[18][69] = Tile::scattered(true);
    let world = new_game(map)?;
    move_player(Direction { x: -1, y: 0 }, &world)?;
    assert_eq!(player_position(&world), Position { x: 19, y: 69 });
    move_player(Direction { x: 0, y: -1 }, &world)?;
    assert_eq!(player_position(&world), Position { x: 19, y: 68 });
    move_player(Direction { x: 1, y: 1 }, &world)?;
    assert_eq!(player_position(&world), Position { x: 20, y: 69 });
    move_player(Direction { x: 1, y: 0 }, &world)?;
    assert_eq!(player_position(&world), Position { x: 20, y: 69 });
    Ok(())
}

#[test]
fn moving_needs_a_player() -> Result<(), &'static str> {
    let mut world = World::new();
    assert_eq!(move_player(Direction { x: 1, y: 0 }, &world), Err("Component not registered"));
    world.register_component::<Player>()?;
    world.register_component::<Position>()?;
    assert_eq!(move_player(Direction { x: 1, y: 0 }, &world), Err("Player not found"));
    world.create_entity().with_component(Position { x: 1, y: 1 })?;
    assert_eq!(move_player(Direction { x: 1, y: 0 }, &world), Err("Player not found"));
    world.create_entity().with_component(Position { x: 1, y: 1 })?.with_component(Player {})?;
    // Without a map the player stays.
    assert_eq!(move_player(Direction { x: 1, y: 0 }, &world), Ok(()));
    assert_eq!(player_position(&world), Position { x: 1, y: 1 });
    Ok(())
}

#[test]
fn moving_fails_while_the_position_is_borrowed() -> Result<(), &'static str> {
    let world = new_game(open_map(21, 80))?;
    let mut query = world.query();
    let found = query.with_component::<Player>()?.run_query();
    let held = found[0].get_component::<Position>()?;
    assert_eq!(move_player(Direction { x: 1, y: 0 }, &world), Err("Component already borrowed"));
    assert_eq!(*held, Position { x: 19, y: 69 });
    Ok(())
}

fn game_types() -> (TypeId, TypeId, TypeId, TypeId) {
    (
        TypeId::of::<TileMap>(),
        TypeId::of::<Position>(),
        TypeId::of::<Renderable>(),
        TypeId::of::<Player>(),
    )
}

#[test]
fn a_new_game_registers_its_types_in_order() -> Result<(), &'static str> {
    let (map_type, position, renderable, player) = game_types();
    let world = new_game_of_types(open_map(3, 3), map_type, position, renderable, player)?;
    assert!(world.resource(&map_type).is_some());
    assert!(world.resource(&position).is_none());
    let mut query = world.query();
    query.with_type(position)?;
    assert_eq!(query.filter(), 1);
    query.with_type(renderable)?;
    assert_eq!(query.filter(), 3);
    query.with_type(player)?;
    assert_eq!(query.filter(), 7);
    let (indexes, columns) = query.run();
    assert_eq!(indexes, vec![0]);
    assert_eq!(*columns[0][0].borrow::<Position>()?, Position { x: 19, y: 69 });
    assert_eq!(columns[1][0].borrow::<Renderable>()?.display, '@');
    assert!(columns[2][0].borrow::<Player>().is_ok());
    Ok(())
}

#[test]
fn a_new_game_needs_three_different_component_types() {
    let (map_type, position, renderable, player) = game_types();
    let map = || open_map(3, 3);
    assert_eq!(
        new_game_of_types(map(), map_type, position, position, player).err(),
        Some("Component already registered")
    );
    assert_eq!(
        new_game_of_types(map(), map_type, position, renderable, position).err(),
        Some("Component already registered")
    );
    assert_eq!(
        new_game_of_types(map(), map_type, position, renderable, renderable).err(),
        Some("Component already registered")
    );
    // The map type may be one of them: resources and components are apart.
    assert!(new_game_of_types(map(), position, position, renderable, player).is_ok());
}

#[test]
fn sprites_come_one_for_each_entity_with_glyph_and_position() -> Result<(), &'static str> {
    let (_, position, renderable, player) = game_types();
    let mut world = World::new();
    assert_eq!(sprites_of_types(&world, renderable, position), Err("Component not registered"));
    world.register_component::<Renderable>()?;
    assert_eq!(sprites_of_types(&world, renderable, position), Err("Component not registered"));
    assert_eq!(sprites_of_types(&world, position, renderable), Err("Component not registered"));
    world.register_component::<Position>()?;
    world.register_component::<Player>()?;
    assert_eq!(sprites_of_types(&world, renderable, position), Ok(Vec::new()));
    world.create_entity().with_component(Position { x: 1, y: 2 })?;
    world
        .create_entity()
        .with_component(Position { x: 3, y: 4 })?
        .with_component(Renderable { display: 'g' })?;
    world.create_entity().with_component(Renderable { display: 'x' })?;
    world
        .create_entity()
        .with_component(Renderable { display: '@' })?
        .with_component(Player {})?
        .with_component(Position { x: 5, y: 6 })?;
    assert_eq!(
        sprites_of_types(&world, renderable, position),
        Ok(vec![
            Sprite { position: Position { x: 3, y: 4 }, display: 'g' },
            Sprite { position: Position { x: 5, y: 6 }, display: '@' },
        ])
    );
    assert_eq!(sprites(&world), sprites_of_types(&world, renderable, position));
    // Identities that stand for other types than the cells hold.
    assert_eq!(sprites_of_types(&world, position, renderable), Err("Component type mismatch"));
    assert_eq!(sprites_of_types(&world, player, renderable), Err("Component type mismatch"));
    Ok(())
}

#[test]
fn sprites_fail_while_a_cell_is_written() -> Result<(), &'static str> {
    let (map_type, position, renderable, player) = game_types();
    let world = new_game_of_types(open_map(3, 3), map_type, position, renderable, player)?;
    let mut query = world.query();
    let found = query.with_type(player)?.run_query();
    let held = found[0].get_component_mut::<Renderable>()?;
    assert_eq!(sprites_of_types(&world, renderable, position), Err("Component already borrowed"));
    assert_eq!(
        frame_of_types(&world, renderable, position, map_type),
        Err("Component already borrowed")
    );
    assert_eq!(draw_world(&world), Err("Component already borrowed"));
    assert_eq!(held.display, '@');
    Ok(())
}

#[test]
fn the_frame_needs_a_map_under_the_map_type() -> Result<(), &'static str> {
    let (map_type, position, renderable, player) = game_types();
    let mut map = open_map(2, 3);
    map.tiles[0][0].display = '#';
    let mut world = World::new();
    world.add_resource(map);
    world.register_component::<Position>()?;
    world.register_component::<Renderable>()?;
    world
        .create_entity()
        .with_component(Position { x: 1, y: 2 })?
        .with_component(Renderable { display: '@' })?;
    assert_eq!(
        frame_of_types(&world, renderable, position, map_type)?.map(text),
        Some("#..\n..@\n".to_string())
    );
    // No resource under the identity, or one of another type.
    assert_eq!(frame_of_types(&world, renderable, position, player)?, None);
    world.add_resource(Player {});
    assert_eq!(frame_of_types(&world, renderable, position, player)?, None);
    assert_eq!(
        frame_of_types(&world, player, position, map_type),
        Err("Component not registered")
    );
    Ok(())
}

#[test]
fn the_first_player_moves_by_identity() -> Result<(), &'static str> {
    let (map_type, position, renderable, player) = game_types();
    let world = new_game_of_types(open_map(21, 80), map_type, position, renderable, player)?;
    let step_up = Direction { x: -1, y: 0 };
    assert_eq!(move_player_of_types(step_up, &world, player, position, map_type), Ok(()));
    assert_eq!(player_position(&world), Position { x: 18, y: 69 });
    // Without a map under the identity the player stays.
    assert_eq!(move_player_of_types(step_up, &world, player, position, renderable), Ok(()));
    assert_eq!(player_position(&world), Position { x: 18, y: 69 });
    assert_eq!(
        move_player_of_types(step_up, &world, map_type, position, map_type),
        Err("Component not registered")
    );
    // The position cell does not hold a glyph.
    assert_eq!(
        move_player_of_types(step_up, &world, position, renderable, map_type),
        Err("Component type mismatch")
    );
    Ok(())
}
