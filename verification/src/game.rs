//! The rules of the game: what a key does, where the player may step, and
//! what the screen shows.
use vstd::prelude::*;
use crate::components::shifted;
use crate::components::Direction;
use crate::components::Player;
use crate::components::Position;
use crate::components::Renderable;
use std::any::TypeId;
use crate::ecs::cell::guarded;
use crate::ecs::cell::guarded_mut;
use crate::ecs::cell::new_component;
use crate::ecs::cell::new_resource;
use crate::ecs::cell::resource_ref;
use crate::ecs::cell::type_id_of;
use crate::ecs::cell::Resource;
use crate::ecs::entity::model::lemma_first_free;
use crate::ecs::entity::model::EntitiesView;
use crate::ecs::entity::query::lemma_selected_iff_holds_requested;
use crate::ecs::entity::query::QueryView;
use crate::ecs::error::ALREADY_BORROWED;
use crate::ecs::error::ALREADY_REGISTERED;
use crate::ecs::error::NOT_REGISTERED;
use crate::ecs::error::TYPE_MISMATCH;
use crate::ecs::world::World;
use crate::map::open_at;
use crate::map::Tile;
use crate::map::TileMap;

verus! {

/// No entity carries both the player mark and a position.
pub const NO_PLAYER: &'static str = "Player not found";

/// What the game does on a key.
#[derive(Clone, Copy, Debug, PartialEq, Eq)]
pub enum Command {
    /// Leave the game.
    Quit,
    /// Move the player one step.
    Step(Direction),
    /// Nothing but drawing the screen again.
    Wait,
}

/// An entity as the screen shows it: a glyph at a place.
#[derive(Clone, Copy, Debug, PartialEq, Eq)]
pub struct Sprite {
    pub position: Position,
    pub display: char,
}

/// The command of a key, given by its ASCII code: `q` (113) quits, and
/// `h`, `y`, `k`, `u`, `l`, `n`, `j`, `b` step left, up and left, up, up and
/// right, right, down and right, down, down and left.
pub open spec fn command_of(key: u8) -> Command {
    if key == 113 {
        Command::Quit
    } else if key == 104 {
        Command::Step(Direction { x: 0, y: -1i32 })
    } else if key == 121 {
        Command::Step(Direction { x: -1i32, y: -1i32 })
    } else if key == 107 {
        Command::Step(Direction { x: -1i32, y: 0 })
    } else if key == 117 {
        Command::Step(Direction { x: -1i32, y: 1 })
    } else if key == 108 {
        Command::Step(Direction { x: 0, y: 1 })
    } else if key == 110 {
        Command::Step(Direction { x: 1, y: 1 })
    } else if key == 106 {
        Command::Step(Direction { x: 1, y: 0 })
    } else if key == 98 {
        Command::Step(Direction { x: 1, y: -1i32 })
    } else {
        Command::Wait
    }
}

/// The command of a key.
pub fn command_for(key: u8) -> (command: Command)
    ensures
        command == command_of(key),
{
    if key == 113 {
        Command::Quit
    } else if key == 104 {
        Command::Step(Direction { x: 0, y: -1 })
    } else if key == 121 {
        Command::Step(Direction { x: -1, y: -1 })
    } else if key == 107 {
        Command::Step(Direction { x: -1, y: 0 })
    } else if key == 117 {
        Command::Step(Direction { x: -1, y: 1 })
    } else if key == 108 {
        Command::Step(Direction { x: 0, y: 1 })
    } else if key == 110 {
        Command::Step(Direction { x: 1, y: 1 })
    } else if key == 106 {
        Command::Step(Direction { x: 1, y: 0 })
    } else if key == 98 {
        Command::Step(Direction { x: 1, y: -1 })
    } else {
        Command::Wait
    }
}

/// Where a step in the direction `dir` leads from `position`: to the place
/// that lies in that direction when one can step on it, and nowhere else
/// when one cannot.
pub open spec fn stepped(tiles: Seq<Seq<Tile>>, position: Position, dir: Direction) -> Position {
    let target = Position { x: shifted(position.x, dir.x), y: shifted(position.y, dir.y) };
    if open_at(tiles, target) {
        target
    } else {
        position
    }
}

/// Moves `position` one step in the direction `dir` on the map, if the
/// place there is open; see [`stepped`].
pub fn step(map: &TileMap, position: &mut Position, dir: Direction)
    ensures
        *final(position) == stepped(map@, *old(position), dir),
{
    let new_pos = position.add_dir(&dir);
    if map.is_open(&new_pos) {
        position.add_dir_mut(dir);
    }
}

/// The place of the first sprite at a place of the screen, if there is one.
pub open spec fn first_at(sprites: Seq<Sprite>, row: int, column: int) -> Option<int>
    decreases sprites.len(),
{
    if sprites.len() == 0 {
        None
    } else if sprites[0].position.x == row && sprites[0].position.y == column {
        Some(0)
    } else {
        match first_at(sprites.drop_first(), row, column) {
            Some(k) => Some(k + 1),
            None => None,
        }
    }
}

/// The glyph that the screen shows at a place: that of the first sprite
/// that stands there, or that of the tile when none does.
pub open spec fn glyph_at(tiles: Seq<Seq<Tile>>, sprites: Seq<Sprite>, row: int, column: int) -> char {
    match first_at(sprites, row, column) {
        Some(k) => sprites[k].display,
        None => tiles[row][column].display,
    }
}

/// One line of the screen: the glyphs of a row and a line feed.
pub open spec fn frame_line(tiles: Seq<Seq<Tile>>, sprites: Seq<Sprite>, row: int) -> Seq<char> {
    Seq::new(tiles[row].len(), |column: int| glyph_at(tiles, sprites, row, column)).push('\n')
}

/// The first `rows` lines of the screen, one after the other.
pub open spec fn frame(tiles: Seq<Seq<Tile>>, sprites: Seq<Sprite>, rows: int) -> Seq<char>
    decreases rows,
{
    if rows <= 0 {
        Seq::empty()
    } else {
        frame(tiles, sprites, rows - 1) + frame_line(tiles, sprites, rows - 1)
    }
}

fn find_sprite(sprites: &Vec<Sprite>, row: usize, column: usize) -> (found: Option<usize>)
    ensures
        match found {
            Some(k) => first_at(sprites@, row as int, column as int) == Some(k as int) && k
                < sprites.len(),
            None => first_at(sprites@, row as int, column as int).is_none(),
        },
{
    let mut k: usize = 0;
    assert(sprites@.skip(0) =~= sprites@);
    while k < sprites.len()
        invariant
            k <= sprites.len(),
            first_at(sprites@, row as int, column as int) == match first_at(
                sprites@.skip(k as int),
                row as int,
                column as int,
            ) {
                Some(n) => Some(n + k),
                None => None,
            },
        decreases sprites.len() - k,
    {
        proof {
            assert(sprites@.skip(k as int).drop_first() =~= sprites@.skip(k + 1));
        }
        if sprites[k].position.x == row && sprites[k].position.y == column {
            return Some(k);
        }
        k += 1;
    }
    None
}

/// Composes the screen: for every row of the map its glyphs and a line
/// feed, where a place shows the first sprite that stands on it and else
/// its tile.
pub fn compose_frame(map: &TileMap, sprites: &Vec<Sprite>) -> (buffer: Vec<char>)
    ensures
        buffer@ == frame(map@, sprites@, map@.len() as int),
{
    let mut buffer: Vec<char> = Vec::new();
    let mut row_index: usize = 0;
    while row_index < map.tiles.len()
        invariant
            row_index <= map.tiles.len(),
            buffer@ == frame(map@, sprites@, row_index as int),
        decreases map.tiles.len() - row_index,
    {
        let ghost done = buffer@;
        let mut tile_index: usize = 0;
        while tile_index < map.tiles[row_index].len()
            invariant
                row_index < map.tiles.len(),
                tile_index <= map.tiles[row_index as int].len(),
                buffer@ == done + Seq::new(
                    tile_index as nat,
                    |column: int| glyph_at(map@, sprites@, row_index as int, column),
                ),
            decreases map.tiles[row_index as int].len() - tile_index,
        {
            let ghost line = buffer@;
            match find_sprite(sprites, row_index, tile_index) {
                Some(k) => buffer.push(sprites[k].display),
                None => buffer.push(map.tiles[row_index][tile_index].display),
            }
            assert(buffer@ =~= done + Seq::new(
                (tile_index + 1) as nat,
                |column: int| glyph_at(map@, sprites@, row_index as int, column),
            ));
            tile_index += 1;
        }
        buffer.push('\n');
        assert(buffer@ =~= done + frame_line(map@, sprites@, row_index as int));
        row_index += 1;
    }
    buffer
}

/// Collects, for every entity that has a glyph and a position, the sprite
/// that the screen shows for it, in the order of the entities; see
/// [`sprites_of_types`].
pub fn sprites(world: &World) -> (r: Result<Vec<Sprite>, &'static str>)
    requires
        world.wf(),
    ensures
        exists|renderable: TypeId, position: TypeId|
            sprites_result(world.entities()@, renderable, position, r),
{
    let renderable = type_id_of::<Renderable>();
    let position = type_id_of::<Position>();
    sprites_of_types(world, renderable, position)
}

/// Composes the screen of a world: its map, with the sprites of its
/// entities on it; see [`frame_of_types`].
pub fn draw_world(world: &World) -> (r: Result<Option<Vec<char>>, &'static str>)
    requires
        world.wf(),
    ensures
        exists|renderable: TypeId, position: TypeId, map_type: TypeId|
            frame_result(
                world.entities()@,
                world.resources()@,
                renderable,
                position,
                map_type,
                r,
            ),
{
    let renderable = type_id_of::<Renderable>();
    let position = type_id_of::<Position>();
    let map_type = type_id_of::<TileMap>();
    frame_of_types(world, renderable, position, map_type)
}

/// Moves the player one step in the direction `dir`, if the world has a
/// map and the place there is open; see [`move_player_of_types`].
pub fn move_player(dir: Direction, world: &World) -> (r: Result<(), &'static str>)
    requires
        world.wf(),
    ensures
        exists|player: TypeId, position: TypeId|
            move_result(world.entities()@, player, position, r),
{
    let player = type_id_of::<Player>();
    let position = type_id_of::<Position>();
    let map_type = type_id_of::<TileMap>();
    move_player_of_types(dir, world, player, position, map_type)
}

/// Sets up the world of a new game on `map`: the map as a resource, the
/// three component types of the game, and the player at row 19, column 69;
/// see [`new_game_of_types`].
pub fn new_game(map: TileMap) -> (r: Result<World, &'static str>)
    ensures
        exists|map_type: TypeId, position: TypeId, renderable: TypeId, player: TypeId|
            new_game_result(map_type, position, renderable, player, r),
{
    let map_type = type_id_of::<TileMap>();
    let position = type_id_of::<Position>();
    let renderable = type_id_of::<Renderable>();
    let player = type_id_of::<Player>();
    new_game_of_types(map, map_type, position, renderable, player)
}

/// The query that asks a store for two component types, `first` first.
pub open spec fn pair_query(store: EntitiesView, first: TypeId, second: TypeId) -> QueryView {
    (QueryView { filter: 0, types: Seq::empty(), store }).with(first).with(second)
}

/// The entities of a store that hold a component of both types, in
/// ascending order.
pub open spec fn holders(store: EntitiesView, first: TypeId, second: TypeId) -> Seq<usize> {
    pair_query(store, first, second).indexes()
}

/// How collecting the sprites of a store ends, for the identities of the
/// glyph and the position type: with [`NOT_REGISTERED`] unless both are
/// registered; else with one sprite for each entity that holds both, or,
/// where there is such an entity, with the message of a cell that refused
/// to be read.
pub open spec fn sprites_result(
    store: EntitiesView,
    renderable: TypeId,
    position: TypeId,
    r: Result<Vec<Sprite>, &'static str>,
) -> bool {
    if !store.types.contains(renderable) || !store.types.contains(position) {
        r matches Err(text) && text == NOT_REGISTERED
    } else {
        match r {
            Ok(found) => found@.len() == holders(store, renderable, position).len(),
            Err(text) => holders(store, renderable, position).len() > 0 && (text
                == ALREADY_BORROWED || text == TYPE_MISMATCH),
        }
    }
}

/// How composing the screen of a world ends: as collecting the sprites
/// does where that fails; else without screen, or with the frame of a map
/// and of one sprite for each entity that holds a glyph and a position.
/// There is a screen only where the map type has a resource.
pub open spec fn frame_result(
    store: EntitiesView,
    resources: Map<TypeId, Resource>,
    renderable: TypeId,
    position: TypeId,
    map_type: TypeId,
    r: Result<Option<Vec<char>>, &'static str>,
) -> bool {
    if !store.types.contains(renderable) || !store.types.contains(position) {
        r matches Err(text) && text == NOT_REGISTERED
    } else {
        match r {
            Ok(Some(buffer)) => resources.contains_key(map_type) && exists|
                tiles: Seq<Seq<Tile>>,
                shown: Seq<Sprite>,
            |
                shown.len() == holders(store, renderable, position).len() && buffer@
                    == #[trigger] frame(tiles, shown, tiles.len() as int),
            Ok(None) => true,
            Err(text) => holders(store, renderable, position).len() > 0 && (text
                == ALREADY_BORROWED || text == TYPE_MISMATCH),
        }
    }
}

/// How moving the player ends, for the identities of the player mark and
/// the position type: with [`NOT_REGISTERED`] unless both are registered;
/// else with [`NO_PLAYER`] when no entity holds both; else well, or with
/// the message of the position's cell when it refused to be written.
pub open spec fn move_result(
    store: EntitiesView,
    player: TypeId,
    position: TypeId,
    r: Result<(), &'static str>,
) -> bool {
    if !store.types.contains(player) || !store.types.contains(position) {
        r matches Err(text) && text == NOT_REGISTERED
    } else if holders(store, player, position).len() == 0 {
        r matches Err(text) && text == NO_PLAYER
    } else {
        r matches Err(text) ==> text == ALREADY_BORROWED || text == TYPE_MISMATCH
    }
}

/// How setting up a new game ends, for the identities of the map type and
/// of the three component types: where the three differ, with a world that
/// has a resource for the map type alone, the three types registered in
/// the order position, glyph, player mark, and one entity, at the cursor,
/// that holds a component of each; else with [`ALREADY_REGISTERED`].
pub open spec fn new_game_result(
    map_type: TypeId,
    position: TypeId,
    renderable: TypeId,
    player: TypeId,
    r: Result<World, &'static str>,
) -> bool {
    if position != renderable && position != player && renderable != player {
        r matches Ok(world) && {
            &&& world.wf()
            &&& world.resources()@.dom() == set![map_type]
            &&& world.entities()@.types == seq![position, renderable, player]
            &&& world.entities()@.masks == seq![7u32]
            &&& world.entities()@.cursor == 0
        }
    } else {
        r matches Err(text) && text == ALREADY_REGISTERED
    }
}

/// Collects the sprites of a world, where `renderable` is the identity of
/// the glyph type and `position` that of the position type: one sprite for
/// each entity that holds both, in the order of the entities, made of what
/// the two cells of the entity hold.
///
/// Fails as [`sprites_result`] says.
pub fn sprites_of_types(world: &World, renderable: TypeId, position: TypeId) -> (r: Result<
    Vec<Sprite>,
    &'static str,
>)
    requires
        world.wf(),
    ensures
        sprites_result(world.entities()@, renderable, position, r),
{
    let mut query = world.query();
    let narrowed = query.with_type(renderable)?.with_type(position)?;
    let query_entities = narrowed.run_query();
    let ghost asked = narrowed@;
    let ghost store = world.entities()@;
    assert(asked == pair_query(store, renderable, position));
    let mut found: Vec<Sprite> = Vec::new();
    let mut n: usize = 0;
    while n < query_entities.len()
        invariant
            asked.wf(),
            store == world.entities()@,
            asked == pair_query(store, renderable, position),
            store.types.contains(renderable),
            store.types.contains(position),
            n <= query_entities.len(),
            found.len() == n,
            query_entities@.len() == asked.indexes().len(),
            forall|m: int|
                0 <= m < query_entities@.len() ==> {
                    &&& (#[trigger] query_entities@[m])@.store == store
                    &&& query_entities@[m]@.id < store.masks.len()
                    &&& crate::ecs::bits::covers(
                        store.masks[query_entities@[m]@.id as int],
                        asked.filter,
                    )
                },
        decreases query_entities.len() - n,
    {
        let entity = &query_entities[n];
        proof {
            lemma_selected_iff_holds_requested(asked, entity@.id as int);
            assert(asked.types[0] == renderable);
            assert(asked.types[1] == position);
        }
        let position_cell = match entity.cell(&position) {
            Ok(cell) => cell,
            Err(text) => {
                // An entity that the query selected holds both components.
                assert(false);
                return Err(text);
            },
        };
        let renderable_cell = match entity.cell(&renderable) {
            Ok(cell) => cell,
            Err(text) => {
                assert(false);
                return Err(text);
            },
        };
        let position_guard = position_cell.borrow::<Position>()?;
        let renderable_guard = renderable_cell.borrow::<Renderable>()?;
        found.push(
            Sprite {
                position: *guarded(&position_guard),
                display: guarded(&renderable_guard).display,
            },
        );
        n += 1;
    }
    Ok(found)
}

/// Composes the screen of a world, where `map_type` is the identity of the
/// map type: the frame of the map that is its resource, with the sprites of
/// [`sprites_of_types`] on it. There is no screen, `None`, for a world
/// without such a map.
///
/// Fails as [`frame_result`] says.
pub fn frame_of_types(
    world: &World,
    renderable: TypeId,
    position: TypeId,
    map_type: TypeId,
) -> (r: Result<Option<Vec<char>>, &'static str>)
    requires
        world.wf(),
    ensures
        frame_result(world.entities()@, world.resources()@, renderable, position, map_type, r),
{
    let shown = sprites_of_types(world, renderable, position)?;
    match world.resource(&map_type) {
        Some(resource) => match resource_ref::<TileMap>(resource) {
            Some(map) => {
                let buffer = compose_frame(map, &shown);
                assert(buffer@ == frame(map@, shown@, map@.len() as int));
                Ok(Some(buffer))
            },
            None => Ok(None),
        },
        None => Ok(None),
    }
}

/// Moves the player of a world one step in the direction `dir`, where
/// `player`, `position` and `map_type` are the identities of the player
/// mark, the position type and the map type: the position of the first
/// entity that holds a player mark and a position changes as [`step`] says,
/// on the map that is the world's resource. Without such a map the player
/// stays.
///
/// Fails as [`move_result`] says.
pub fn move_player_of_types(
    dir: Direction,
    world: &World,
    player: TypeId,
    position: TypeId,
    map_type: TypeId,
) -> (r: Result<(), &'static str>)
    requires
        world.wf(),
    ensures
        move_result(world.entities()@, player, position, r),
{
    let mut query = world.query();
    let narrowed = query.with_type(player)?.with_type(position)?;
    let query_entities = narrowed.run_query();
    let ghost asked = narrowed@;
    assert(asked == pair_query(world.entities()@, player, position));
    if query_entities.len() == 0 {
        return Err(NO_PLAYER);
    }
    let entity = &query_entities[0];
    proof {
        lemma_selected_iff_holds_requested(asked, entity@.id as int);
        assert(asked.types[1] == position);
    }
    let position_cell = match entity.cell(&position) {
        Ok(cell) => cell,
        Err(text) => {
            // An entity that the query selected holds both components.
            assert(false);
            return Err(text);
        },
    };
    let mut position_guard = position_cell.borrow_mut::<Position>()?;

    if let Some(resource) = world.resource(&map_type) {
        if let Some(map) = resource_ref::<TileMap>(resource) {
            step(map, guarded_mut(&mut position_guard), dir);
        }
    }
    Ok(())
}

/// Sets up the world of a new game on `map`, where `map_type`, `position`,
/// `renderable` and `player` are the identities of the map type and of the
/// three component types: the map becomes the resource of its type, the
/// three component types are registered in that order, and one entity is
/// created that holds the position row 19, column 69, the glyph `@` and a
/// player mark.
///
/// Fails with [`ALREADY_REGISTERED`] where two of the three component
/// identities are the same.
pub fn new_game_of_types(
    map: TileMap,
    map_type: TypeId,
    position: TypeId,
    renderable: TypeId,
    player: TypeId,
) -> (r: Result<World, &'static str>)
    ensures
        new_game_result(map_type, position, renderable, player, r),
{
    let mut world = World::new();
    world.insert_resource(map_type, new_resource(map));
    assert(world.resources()@.dom() =~= set![map_type]);
    world.register_type(position)?;
    assert(world.entities()@.types[0] == position);
    world.register_type(renderable)?;
    assert(world.entities()@.types[1] == renderable);
    world.register_type(player)?;
    assert(world.entities()@.types =~= seq![position, renderable, player]);
    let ghost registered = world.entities()@;
    let entities = world.create_entity();
    proof {
        lemma_first_free(registered.masks);
        registered.lemma_create();
        assert(entities@.masks =~= seq![0u32]);
        entities@.lemma_bit_of_position(0);
        entities@.lemma_bit_of_position(1);
        entities@.lemma_bit_of_position(2);
    }
    let ghost created = entities@;
    let first = entities.with_cell(position, new_component(Position { x: 19, y: 69 }))?;
    let ghost with_position = first@;
    proof {
        assert(with_position.types == created.types);
        with_position.lemma_bit_of_position(1);
    }
    let second = first.with_cell(renderable, new_component(Renderable { display: '@' }))?;
    let ghost with_glyph = second@;
    proof {
        assert(with_glyph.types == created.types);
        with_glyph.lemma_bit_of_position(2);
    }
    let third = second.with_cell(player, new_component(Player {  }))?;
    proof {
        assert(((0u32 | (1u32 << 0u32)) | (1u32 << 1u32)) | (1u32 << 2u32) == 7u32) by (bit_vector);
        assert(third@.masks =~= seq![7u32]);
    }
    Ok(world)
}

} // verus!
