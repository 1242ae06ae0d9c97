//! The dungeon map: a grid of tiles, and the tree of nested rectangles from
//! which its rooms are laid out.
use vstd::prelude::*;
use crate::components::Position;
use crate::random::gen_range;
use crate::random::thread_rng;

verus! {

/// A child node starts above or to the left of its parent.
pub const STARTS_BEFORE: &'static str = "Invalid start position, before bounding box";

/// A child node starts below or to the right of its parent.
pub const STARTS_PAST: &'static str = "Invalid start position, past bounding box";

/// A child node is wider than its parent.
pub const TOO_WIDE: &'static str = "Node width is too large";

/// A child node is higher than its parent.
pub const TOO_HIGH: &'static str = "Node height is too large";

/// A child node ends to the right of its parent.
pub const PAST_WIDTH: &'static str = "Node extends past parent width";

/// A child node ends below its parent.
pub const PAST_HEIGHT: &'static str = "Node extends past parent height";

/// One cell of the map.
#[derive(Clone, Copy, Debug, PartialEq, Eq)]
pub struct Tile {
    pub display: char,
    pub is_solid: bool,
}

/// Whether one can step on the place `position` of a grid: the place
/// exists and its tile is not solid.
pub open spec fn open_at(tiles: Seq<Seq<Tile>>, position: Position) -> bool {
    &&& position.x < tiles.len()
    &&& position.y < tiles[position.x as int].len()
    &&& !tiles[position.x as int][position.y as int].is_solid
}

impl Tile {
    /// The tile of a map of scattered rubble: rubble, which is solid, where
    /// `solid` is set, and open floor where it is not.
    pub fn scattered(solid: bool) -> (tile: Self)
        ensures
            tile == if solid {
                Tile { is_solid: true, display: '#' }
            } else {
                Tile { is_solid: false, display: '.' }
            },
    {
        if solid {
            Tile { is_solid: true, display: '#' }
        } else {
            Tile { is_solid: false, display: '.' }
        }
    }
}

impl Default for Tile {
    /// The tile with the zero character that nothing stands on.
    fn default() -> (tile: Self)
        ensures
            tile == (Tile { display: '\0', is_solid: false }),
    {
        Tile { display: '\0', is_solid: false }
    }
}

/// The map: rows of tiles, the first row at the top.
#[derive(Debug)]
pub struct TileMap {
    pub tiles: Vec<Vec<Tile>>,
}

/// The rows of a grid of tiles, each as a sequence.
pub open spec fn grid(tiles: Vec<Vec<Tile>>) -> Seq<Seq<Tile>> {
    Seq::new(tiles@.len(), |row: int| tiles@[row]@)
}

/// The tile of solid rock that a new map is made of.
pub open spec fn rock() -> Tile {
    Tile { display: ' ', is_solid: true }
}

impl View for TileMap {
    type V = Seq<Seq<Tile>>;

    open spec fn view(&self) -> Seq<Seq<Tile>> {
        grid(self.tiles)
    }
}

impl Default for TileMap {
    /// The map without rows.
    fn default() -> (map: Self)
        ensures
            map@ == Seq::<Seq<Tile>>::empty(),
    {
        let map = TileMap { tiles: Vec::new() };
        assert(map@ =~= Seq::<Seq<Tile>>::empty());
        map
    }
}

impl TileMap {
    /// Whether one can step on `position`: it is on the map and its tile is
    /// not solid.
    pub fn is_open(&self, position: &Position) -> (open: bool)
        ensures
            open == open_at(self@, *position),
    {
        if position.x >= self.tiles.len() {
            return false;
        }
        if position.y >= self.tiles[position.x].len() {
            return false;
        }
        !self.tiles[position.x][position.y].is_solid
    }

    /// A map of `height` rows and `width` columns, all of solid rock.
    pub fn new(height: usize, width: usize) -> (map: Self)
        ensures
            map@ == Seq::new(height as nat, |row: int| Seq::new(width as nat, |column: int| rock())),
    {
        let mut tiles: Vec<Vec<Tile>> = Vec::new();
        let mut row: usize = 0;
        while row < height
            invariant
                row <= height,
                tiles.len() == row,
                forall|r: int|
                    0 <= r < row ==> (#[trigger] tiles@[r])@ == Seq::new(
                        width as nat,
                        |column: int| rock(),
                    ),
            decreases height - row,
        {
            let mut line: Vec<Tile> = Vec::new();
            let mut column: usize = 0;
            while column < width
                invariant
                    column <= width,
                    line.len() == column,
                    forall|c: int| 0 <= c < column ==> #[trigger] line@[c] == rock(),
                decreases width - column,
            {
                line.push(Tile { display: ' ', is_solid: true });
                column += 1;
            }
            assert(line@ =~= Seq::new(width as nat, |column: int| rock()));
            tiles.push(line);
            row += 1;
        }
        let map = TileMap { tiles };
        assert(map@ =~= Seq::new(
            height as nat,
            |row: int| Seq::new(width as nat, |column: int| rock()),
        ));
        map
    }
}

/// A rectangle on the map: `height` rows from row `start.x` down and `width`
/// columns from column `start.y` to the right.
#[derive(Clone, Copy, Debug, PartialEq, Eq)]
pub struct Dimensions {
    pub start: Position,
    pub width: usize,
    pub height: usize,
}

/// A node of the tree of rectangles: the space it covers, the room that was
/// laid out in it, if any, and the two parts it was split into, if it was.
#[derive(Debug)]
pub struct TreeNode {
    pub space: Dimensions,
    pub room: Option<Dimensions>,
    pub left: Option<Box<TreeNode>>,
    pub right: Option<Box<TreeNode>>,
}

/// Whether a node with the space `child` may hang below a node with the
/// space `parent`, and if not, what is wrong with it first.
pub open spec fn fit_outcome(parent: Dimensions, child: Dimensions) -> Result<(), &'static str> {
    if child.start.x < parent.start.x || child.start.y < parent.start.y {
        Err(STARTS_BEFORE)
    } else if child.start.x > parent.start.x + parent.height || child.start.y > parent.start.y
        + parent.width {
        Err(STARTS_PAST)
    } else if child.width > parent.width {
        Err(TOO_WIDE)
    } else if child.height > parent.height {
        Err(TOO_HIGH)
    } else if child.start.y + child.width > parent.start.y + parent.width {
        Err(PAST_WIDTH)
    } else if child.start.x + child.height > parent.start.x + parent.height {
        Err(PAST_HEIGHT)
    } else {
        Ok(())
    }
}

/// A rectangle may be the room of a space when it has at least four rows
/// and four columns, at least half as many and at least two fewer than the
/// space in either direction, and lies in the space with at least one row
/// above and one column to the left of it.
pub open spec fn is_room_of(space: Dimensions, room: Dimensions) -> bool {
    &&& 4 <= room.width
    &&& 4 <= room.height
    &&& space.width / 2 <= room.width <= space.width - 2
    &&& space.height / 2 <= room.height <= space.height - 2
    &&& space.start.x + 1 <= room.start.x <= space.start.x + space.height - room.height
    &&& space.start.y + 1 <= room.start.y <= space.start.y + space.width - room.width
}

/// The rectangle `width` columns wide and `height` rows high whose first row
/// is `delta_x` below and whose first column is `delta_y` to the right of
/// the start of `space`, if that is a room of the space.
pub open spec fn room_at(
    space: Dimensions,
    width: usize,
    height: usize,
    delta_x: usize,
    delta_y: usize,
) -> Option<Dimensions> {
    if space.start.x + delta_x <= usize::MAX && space.start.y + delta_y <= usize::MAX {
        let room = Dimensions {
            start: Position {
                x: (space.start.x + delta_x) as usize,
                y: (space.start.y + delta_y) as usize,
            },
            width,
            height,
        };
        if is_room_of(space, room) {
            Some(room)
        } else {
            None
        }
    } else {
        None
    }
}

/// The two parts that a space falls into when it is cut after `cut` columns
/// (`vertical`) or after `cut` rows (not `vertical`): the part at the start
/// first.
pub open spec fn halves_of(space: Dimensions, vertical: bool, cut: usize) -> (Dimensions, Dimensions) {
    if vertical {
        (
            Dimensions { start: space.start, width: cut, height: space.height },
            Dimensions {
                start: Position { x: space.start.x, y: (space.start.y + cut) as usize },
                width: (space.width - cut) as usize,
                height: space.height,
            },
        )
    } else {
        (
            Dimensions { start: space.start, width: space.width, height: cut },
            Dimensions {
                start: Position { x: (space.start.x + cut) as usize, y: space.start.y },
                width: space.width,
                height: (space.height - cut) as usize,
            },
        )
    }
}

/// A space can be cut at `cut` when the cut lies within it and the part
/// after the cut starts at a coordinate that exists.
pub open spec fn can_cut(space: Dimensions, vertical: bool, cut: usize) -> bool {
    if vertical {
        cut <= space.width && space.start.y + cut <= usize::MAX
    } else {
        cut <= space.height && space.start.x + cut <= usize::MAX
    }
}

impl TreeNode {
    /// A node that covers `dims`, with no room and no parts.
    pub fn new(dims: Dimensions) -> (node: Self)
        ensures
            node.space == dims,
            node.room.is_none(),
            node.left.is_none(),
            node.right.is_none(),
    {
        TreeNode { space: dims, room: None, left: None, right: None }
    }

    fn check_node(&self, node: &TreeNode) -> (r: Result<(), &'static str>)
        ensures
            r == fit_outcome(self.space, node.space),
    {
        let top = self.space.start.x as u128;
        let left = self.space.start.y as u128;
        let bottom = top + self.space.height as u128;
        let right = left + self.space.width as u128;
        let node_top = node.space.start.x as u128;
        let node_left = node.space.start.y as u128;
        if node_top < top || node_left < left {
            return Err(STARTS_BEFORE);
        }
        if node_top > bottom || node_left > right {
            return Err(STARTS_PAST);
        }
        if node.space.width > self.space.width {
            return Err(TOO_WIDE);
        }
        if node.space.height > self.space.height {
            return Err(TOO_HIGH);
        }
        if node_left + node.space.width as u128 > right {
            return Err(PAST_WIDTH);
        }
        if node_top + node.space.height as u128 > bottom {
            return Err(PAST_HEIGHT);
        }
        Ok(())
    }

    /// Makes `node` the left part of this node, if its space lies within
    /// the space of this node; else fails as [`fit_outcome`] says and
    /// changes nothing.
    pub fn insert_left(&mut self, node: TreeNode) -> (r: Result<(), &'static str>)
        ensures
            r == fit_outcome(old(self).space, node.space),
            r.is_ok() ==> *final(self) == (TreeNode { left: Some(Box::new(node)), ..*old(self) }),
            r.is_err() ==> *final(self) == *old(self),
    {
        self.check_node(&node)?;
        self.left = Some(Box::new(node));

        Ok(())
    }

    /// Makes `node` the right part of this node, if its space lies within
    /// the space of this node; else fails as [`fit_outcome`] says and
    /// changes nothing.
    pub fn insert_right(&mut self, node: TreeNode) -> (r: Result<(), &'static str>)
        ensures
            r == fit_outcome(old(self).space, node.space),
            r.is_ok() ==> *final(self) == (TreeNode { right: Some(Box::new(node)), ..*old(self) }),
            r.is_err() ==> *final(self) == *old(self),
    {
        self.check_node(&node)?;
        self.right = Some(Box::new(node));

        Ok(())
    }

    /// The left and the right part of this node.
    pub fn get_children(&self) -> (children: (Option<&TreeNode>, Option<&TreeNode>))
        ensures
            children.0 == match self.left {
                Some(node) => Some(&*node),
                None => None,
            },
            children.1 == match self.right {
                Some(node) => Some(&*node),
                None => None,
            },
    {
        let left: Option<&TreeNode>;
        let right: Option<&TreeNode>;
        if let Some(node) = &self.left {
            left = Some(&**node);
        } else {
            left = None;
        }

        if let Some(node) = &self.right {
            right = Some(&**node);
        } else {
            right = None;
        }
        (left, right)
    }

    /// Lays out the room `width` columns wide and `height` rows high, whose
    /// first row is `delta_x` below and whose first column is `delta_y` to
    /// the right of the start of the node's space, if that is a room of the
    /// space as [`is_room_of`] says. Else the node is left as it was.
    pub fn place_room(&mut self, width: usize, height: usize, delta_x: usize, delta_y: usize) -> (placed:
        bool)
        ensures
            placed == room_at(old(self).space, width, height, delta_x, delta_y).is_some(),
            placed ==> *final(self) == (TreeNode {
                room: room_at(old(self).space, width, height, delta_x, delta_y),
                ..*old(self)
            }),
            !placed ==> *final(self) == *old(self),
    {
        let space = self.space;
        if width < 4 || height < 4 {
            return false;
        }
        if space.width < 2 || space.height < 2 {
            return false;
        }
        if width < space.width / 2 || width > space.width - 2 {
            return false;
        }
        if height < space.height / 2 || height > space.height - 2 {
            return false;
        }
        if delta_x < 1 || delta_x > space.height - height {
            return false;
        }
        if delta_y < 1 || delta_y > space.width - width {
            return false;
        }
        if delta_x > usize::MAX - space.start.x || delta_y > usize::MAX - space.start.y {
            return false;
        }
        self.room = Some(
            Dimensions {
                start: Position { x: space.start.x + delta_x, y: space.start.y + delta_y },
                height,
                width,
            },
        );
        true
    }

    /// Lays out a room of random size at a random place in the node's
    /// space, or none: a space of fewer than six rows or columns gets none,
    /// and a larger one gets none when the size that was drawn has fewer
    /// than four rows or columns. A space of at least eight rows and
    /// columns, all at coordinates that exist, always gets one. A room that
    /// is laid out is a room of the space as [`is_room_of`] says.
    pub fn add_room(&mut self)
        ensures
            final(self).space == old(self).space,
            final(self).left == old(self).left,
            final(self).right == old(self).right,
            final(self).room == old(self).room || (final(self).room matches Some(room)
                && is_room_of(old(self).space, room)),
            old(self).space.width < 6 || old(self).space.height < 6 ==> final(self).room == old(
                self,
            ).room,
            old(self).space.width >= 8 && old(self).space.height >= 8 && old(self).space.start.x
                + old(self).space.height <= usize::MAX && old(self).space.start.y + old(
                self,
            ).space.width <= usize::MAX ==> (final(self).room matches Some(room) && is_room_of(
                old(self).space,
                room,
            )),
    {
        let mut rng = thread_rng();

        let min_width = self.space.width / 2;
        let min_height = self.space.height / 2;

        if self.space.width <= min_width + 1 || self.space.height <= min_height + 1 {
            return;
        }
        let new_width = gen_range(&mut rng, min_width, self.space.width - 2);
        let new_height = gen_range(&mut rng, min_height, self.space.height - 2);

        if new_width < 4 || new_height < 4 {
            return;
        }
        let delta_x = gen_range(&mut rng, 1, self.space.height - new_height);
        let delta_y = gen_range(&mut rng, 1, self.space.width - new_width);

        self.place_room(new_width, new_height, delta_x, delta_y);
    }

    /// Whether the node is split no further: its space has at most ten
    /// columns or at most ten rows.
    pub fn is_leaf_sized(&self) -> (leaf: bool)
        ensures
            leaf == (self.space.width <= 10 || self.space.height <= 10),
    {
        self.space.width <= 10 || self.space.height <= 10
    }

    /// Two new nodes for the two parts that the node's space falls into
    /// when it is cut after `cut` columns (`vertical`) or after `cut` rows
    /// (not `vertical`), or `None` when the space cannot be cut there. Each
    /// of the two can be inserted into this node.
    pub fn halves(&self, vertical: bool, cut: usize) -> (parts: Option<(TreeNode, TreeNode)>)
        ensures
            parts.is_some() == can_cut(self.space, vertical, cut),
            parts matches Some((left, right)) ==> {
                &&& left.space == halves_of(self.space, vertical, cut).0
                &&& right.space == halves_of(self.space, vertical, cut).1
                &&& left.room.is_none() && left.left.is_none() && left.right.is_none()
                &&& right.room.is_none() && right.left.is_none() && right.right.is_none()
                &&& fit_outcome(self.space, left.space).is_ok()
                &&& fit_outcome(self.space, right.space).is_ok()
            },
    {
        let space = self.space;
        let left_width: usize;
        let left_height: usize;
        let right_width: usize;
        let right_height: usize;
        let x_delta: usize;
        let y_delta: usize;

        if vertical {
            if cut > space.width || cut > usize::MAX - space.start.y {
                return None;
            }
            left_width = cut;
            left_height = space.height;
            x_delta = 0;
            y_delta = left_width;
            right_width = space.width - left_width;
            right_height = space.height;
        } else {
            if cut > space.height || cut > usize::MAX - space.start.x {
                return None;
            }
            left_width = space.width;
            left_height = cut;
            x_delta = left_height;
            y_delta = 0;
            right_width = space.width;
            right_height = space.height - left_height;
        }
        let left = TreeNode {
            space: Dimensions {
                start: Position { x: space.start.x, y: space.start.y },
                width: left_width,
                height: left_height,
            },
            room: None,
            left: None,
            right: None,
        };

        let right = TreeNode {
            space: Dimensions {
                start: Position { x: space.start.x + x_delta, y: space.start.y + y_delta },
                width: right_width,
                height: right_height,
            },
            room: None,
            left: None,
            right: None,
        };
        Some((left, right))
    }
}

/// The tile at `column` of a row that is drawn from column `first` to
/// column `last`: `right` at the last column, `left` at the first, `fill`
/// between them.
pub open spec fn row_tile(column: int, first: int, last: int, left: Tile, fill: Tile, right: Tile) -> Tile {
    if column == last {
        right
    } else if column == first {
        left
    } else {
        fill
    }
}

/// The tile that a room puts at a place inside it: corners and walls on its
/// edge, all solid, and floor within.
pub open spec fn room_tile(room: Dimensions, row: int, column: int) -> Tile {
    let first = room.start.y as int;
    let last = room.start.y + room.width - 1;
    if row == room.start.x + room.height - 1 {
        row_tile(
            column,
            first,
            last,
            Tile { is_solid: true, display: '└' },
            Tile { is_solid: true, display: '─' },
            Tile { is_solid: true, display: '┘' },
        )
    } else if row == room.start.x {
        row_tile(
            column,
            first,
            last,
            Tile { is_solid: true, display: '┌' },
            Tile { is_solid: true, display: '─' },
            Tile { is_solid: true, display: '┐' },
        )
    } else {
        row_tile(
            column,
            first,
            last,
            Tile { is_solid: true, display: '│' },
            Tile { is_solid: false, display: '.' },
            Tile { is_solid: true, display: '│' },
        )
    }
}

/// Whether a place lies inside a room.
pub open spec fn in_room(room: Dimensions, row: int, column: int) -> bool {
    room.start.x <= row < room.start.x + room.height && room.start.y <= column < room.start.y
        + room.width
}

/// A room fits on a grid when it has a row and a column and every place
/// inside it is a place of the grid.
pub open spec fn room_fits(room: Dimensions, tiles: Seq<Seq<Tile>>) -> bool {
    &&& 1 <= room.height
    &&& 1 <= room.width
    &&& room.start.x + room.height <= tiles.len()
    &&& forall|row: int|
        room.start.x <= row < room.start.x + room.height ==> room.start.y + room.width
            <= (#[trigger] tiles[row]).len()
}

/// The grid with a room drawn on it.
pub open spec fn paint_room(room: Dimensions, tiles: Seq<Seq<Tile>>) -> Seq<Seq<Tile>> {
    Seq::new(
        tiles.len(),
        |row: int|
            Seq::new(
                tiles[row].len(),
                |column: int|
                    if in_room(room, row, column) {
                        room_tile(room, row, column)
                    } else {
                        tiles[row][column]
                    },
            ),
    )
}

/// Every room that would be drawn for a node fits on the grid: the room of
/// the node itself, or else the rooms of its parts.
pub open spec fn rooms_fit(node: TreeNode, tiles: Seq<Seq<Tile>>) -> bool
    decreases node,
{
    match node.room {
        Some(room) => room_fits(room, tiles),
        None => {
            &&& match node.left {
                Some(part) => rooms_fit(*part, tiles),
                None => true,
            }
            &&& match node.right {
                Some(part) => rooms_fit(*part, tiles),
                None => true,
            }
        },
    }
}

/// The grid with the rooms of a node drawn on it: the room of the node
/// itself, or else the rooms of its left part and then those of its right
/// part.
pub open spec fn painted(node: TreeNode, tiles: Seq<Seq<Tile>>) -> Seq<Seq<Tile>>
    decreases node,
{
    match node.room {
        Some(room) => paint_room(room, tiles),
        None => {
            let after_left = match node.left {
                Some(part) => painted(*part, tiles),
                None => tiles,
            };
            match node.right {
                Some(part) => painted(*part, after_left),
                None => after_left,
            }
        },
    }
}

/// Two grids have the same shape when they have as many rows and each row
/// is as long in one as in the other.
pub open spec fn same_shape(a: Seq<Seq<Tile>>, b: Seq<Seq<Tile>>) -> bool {
    a.len() == b.len() && forall|row: int| 0 <= row < a.len() ==> (#[trigger] a[row]).len() == b[row].len()
}

/// Drawing rooms leaves the shape of the grid as it was.
pub proof fn lemma_painted_keeps_shape(node: TreeNode, tiles: Seq<Seq<Tile>>)
    ensures
        same_shape(painted(node, tiles), tiles),
    decreases node,
{
    if node.room.is_none() {
        let after_left = match node.left {
            Some(part) => painted(*part, tiles),
            None => tiles,
        };
        if let Some(part) = node.left {
            lemma_painted_keeps_shape(*part, tiles);
        }
        if let Some(part) = node.right {
            lemma_painted_keeps_shape(*part, after_left);
        }
    }
}

/// Whether rooms fit depends on the shape of the grid alone.
pub proof fn lemma_rooms_fit_by_shape(node: TreeNode, a: Seq<Seq<Tile>>, b: Seq<Seq<Tile>>)
    requires
        same_shape(a, b),
    ensures
        rooms_fit(node, a) == rooms_fit(node, b),
    decreases node,
{
    match node.room {
        Some(room) => {
            assert(room_fits(room, a) == room_fits(room, b)) by {
                if room_fits(room, a) {
                    assert forall|row: int|
                        room.start.x <= row < room.start.x + room.height implies room.start.y
                        + room.width <= (#[trigger] b[row]).len() by {
                        assert(a[row].len() == b[row].len());
                    }
                }
                if room_fits(room, b) {
                    assert forall|row: int|
                        room.start.x <= row < room.start.x + room.height implies room.start.y
                        + room.width <= (#[trigger] a[row]).len() by {
                        assert(a[row].len() == b[row].len());
                    }
                }
            }
        },
        None => {
            if let Some(part) = node.left {
                lemma_rooms_fit_by_shape(*part, a, b);
            }
            if let Some(part) = node.right {
                lemma_rooms_fit_by_shape(*part, a, b);
            }
        },
    }
}

/// A space lies on a grid when every place inside it is a place of the
/// grid.
pub open spec fn space_lies_on(space: Dimensions, tiles: Seq<Seq<Tile>>) -> bool {
    &&& space.start.x + space.height <= tiles.len()
    &&& forall|row: int|
        space.start.x <= row < space.start.x + space.height ==> space.start.y + space.width
            <= (#[trigger] tiles[row]).len()
}

/// A tree is well nested when the room of every node is a room of the
/// node's space and the space of every part can be inserted into its node.
pub open spec fn well_nested(node: TreeNode) -> bool
    decreases node,
{
    &&& match node.room {
        Some(room) => is_room_of(node.space, room),
        None => true,
    }
    &&& match node.left {
        Some(part) => fit_outcome(node.space, part.space).is_ok() && well_nested(*part),
        None => true,
    }
    &&& match node.right {
        Some(part) => fit_outcome(node.space, part.space).is_ok() && well_nested(*part),
        None => true,
    }
}

/// The rooms of a well nested tree fit on every grid that the space of its
/// root lies on.
pub proof fn lemma_nested_rooms_fit(node: TreeNode, tiles: Seq<Seq<Tile>>)
    requires
        well_nested(node),
        space_lies_on(node.space, tiles),
    ensures
        rooms_fit(node, tiles),
    decreases node,
{
    match node.room {
        Some(room) => {
            assert forall|row: int|
                room.start.x <= row < room.start.x + room.height implies room.start.y + room.width
                <= (#[trigger] tiles[row]).len() by {
                assert(node.space.start.y + node.space.width <= tiles[row].len());
            }
        },
        None => {
            if node.left.is_some() {
                let part = *node.left.unwrap();
                lemma_part_lies_on(node.space, part.space, tiles);
                lemma_nested_rooms_fit(part, tiles);
            }
            if node.right.is_some() {
                let part = *node.right.unwrap();
                lemma_part_lies_on(node.space, part.space, tiles);
                lemma_nested_rooms_fit(part, tiles);
            }
        },
    }
}

/// A space that can be inserted below a space on the grid lies on the grid.
pub proof fn lemma_part_lies_on(whole: Dimensions, part: Dimensions, tiles: Seq<Seq<Tile>>)
    requires
        fit_outcome(whole, part).is_ok(),
        space_lies_on(whole, tiles),
    ensures
        space_lies_on(part, tiles),
{
    assert forall|row: int|
        part.start.x <= row < part.start.x + part.height implies part.start.y + part.width
        <= (#[trigger] tiles[row]).len() by {
        assert(whole.start.y + whole.width <= tiles[row].len());
    }
}

fn draw_row(
    tiles: &mut Vec<Vec<Tile>>,
    row: usize,
    start_y: usize,
    end_y: usize,
    left: Tile,
    fill: Tile,
    right: Tile,
)
    requires
        row < old(tiles).len(),
        start_y < end_y <= old(tiles)[row as int].len(),
    ensures
        same_shape(grid(*final(tiles)), grid(*old(tiles))),
        forall|r: int| 0 <= r < old(tiles).len() && r != row ==> final(tiles)@[r] == old(tiles)@[r],
        forall|c: int|
            0 <= c < old(tiles)[row as int].len() ==> #[trigger] final(tiles)@[row as int]@[c] == if start_y
                <= c < end_y {
                row_tile(c, start_y as int, end_y - 1, left, fill, right)
            } else {
                old(tiles)@[row as int]@[c]
            },
{
    tiles[row][start_y] = left;
    let mut tile_index = start_y + 1;
    while tile_index < end_y - 1
        invariant
            row < tiles.len(),
            tiles.len() == old(tiles).len(),
            start_y < tile_index,
            start_y < end_y <= tiles[row as int].len(),
            tiles[row as int].len() == old(tiles)[row as int].len(),
            forall|r: int| 0 <= r < tiles.len() && r != row ==> tiles@[r] == old(tiles)@[r],
            forall|c: int|
                0 <= c < tiles[row as int].len() ==> #[trigger] tiles@[row as int]@[c] == if c
                    == start_y {
                    left
                } else if start_y < c < tile_index && c < end_y - 1 {
                    fill
                } else {
                    old(tiles)@[row as int]@[c]
                },
        decreases end_y - tile_index,
    {
        tiles[row][tile_index] = fill;
        tile_index += 1;
    }
    tiles[row][end_y - 1] = right;
}

fn draw_room(room: &Dimensions, tiles: &mut Vec<Vec<Tile>>)
    requires
        room_fits(*room, grid(*old(tiles))),
    ensures
        grid(*final(tiles)) == paint_room(*room, grid(*old(tiles))),
{
    let ghost before = grid(*tiles);
    let start_x = room.start.x;
    let start_y = room.start.y;
    assert(before.len() == tiles.len());
    assert(before[start_x as int].len() == tiles[start_x as int].len());
    let end_x = start_x + room.height;
    let end_y = start_y + room.width;
    draw_row(
        tiles,
        start_x,
        start_y,
        end_y,
        Tile { is_solid: true, display: '┌' },
        Tile { is_solid: true, display: '─' },
        Tile { is_solid: true, display: '┐' },
    );
    let mut row_index = start_x + 1;
    while row_index < end_x - 1
        invariant
            room_fits(*room, before),
            start_x == room.start.x,
            start_y == room.start.y,
            end_x == start_x + room.height,
            end_y == start_y + room.width,
            start_x < row_index,
            same_shape(grid(*tiles), before),
            forall|r: int, c: int|
                0 <= r < before.len() && 0 <= c < before[r].len() ==> #[trigger] tiles@[r]@[c] == if r
                    == start_x && start_y <= c < end_y {
                    row_tile(
                        c,
                        start_y as int,
                        end_y - 1,
                        Tile { is_solid: true, display: '┌' },
                        Tile { is_solid: true, display: '─' },
                        Tile { is_solid: true, display: '┐' },
                    )
                } else if start_x < r < row_index && r < end_x - 1 && start_y <= c < end_y {
                    row_tile(
                        c,
                        start_y as int,
                        end_y - 1,
                        Tile { is_solid: true, display: '│' },
                        Tile { is_solid: false, display: '.' },
                        Tile { is_solid: true, display: '│' },
                    )
                } else {
                    before[r][c]
                },
        decreases end_x - row_index,
    {
        assert(before[row_index as int].len() >= end_y);
        assert(grid(*tiles)[row_index as int].len() == before[row_index as int].len());
        let ghost earlier = *tiles;
        draw_row(
            tiles,
            row_index,
            start_y,
            end_y,
            Tile { is_solid: true, display: '│' },
            Tile { is_solid: false, display: '.' },
            Tile { is_solid: true, display: '│' },
        );
        proof {
            assert forall|r: int| 0 <= r < before.len() implies (#[trigger] grid(*tiles)[r]).len()
                == before[r].len() by {
                assert(grid(earlier)[r].len() == before[r].len());
            }
        }
        row_index += 1;
    }
    assert(before[end_x - 1].len() >= end_y);
    assert(grid(*tiles)[end_x - 1].len() == before[end_x - 1].len());
    let ghost earlier = *tiles;
    draw_row(
        tiles,
        end_x - 1,
        start_y,
        end_y,
        Tile { is_solid: true, display: '└' },
        Tile { is_solid: true, display: '─' },
        Tile { is_solid: true, display: '┘' },
    );
    proof {
        let after = grid(*tiles);
        let goal = paint_room(*room, before);
        assert(after.len() == goal.len());
        assert forall|r: int| 0 <= r < after.len() implies after[r] =~= goal[r] by {
            assert(grid(earlier)[r].len() == before[r].len());
            assert(after[r].len() == grid(earlier)[r].len());
            assert forall|c: int| 0 <= c < after[r].len() implies after[r][c] == goal[r][c] by {
                if r == end_x - 1 {
                    assert(after[r][c] == tiles@[r]@[c]);
                } else {
                    assert(tiles@[r] == earlier@[r]);
                    assert(earlier@[r]@[c] == after[r][c]);
                }
            }
        }
        assert(after =~= goal);
    }
}

/// Draws the rooms of a node on a grid of tiles: the room of the node
/// itself, or else the rooms of its left part and then those of its right
/// part. Every such room has to fit on the grid.
pub fn draw_rooms(node: &TreeNode, tiles: &mut Vec<Vec<Tile>>)
    requires
        rooms_fit(*node, grid(*old(tiles))),
    ensures
        grid(*final(tiles)) == painted(*node, grid(*old(tiles))),
    decreases node,
{
    if let Some(room) = &node.room {
        draw_room(room, tiles);
        return;
    }
    let (left, right) = node.get_children();
    if let Some(part) = left {
        draw_rooms(part, tiles);
    }
    proof {
        let after_left = grid(*tiles);
        if node.left.is_some() {
            lemma_painted_keeps_shape(*node.left.unwrap(), grid(*old(tiles)));
        }
        if node.right.is_some() {
            lemma_rooms_fit_by_shape(*node.right.unwrap(), after_left, grid(*old(tiles)));
        }
    }
    if let Some(part) = right {
        draw_rooms(part, tiles);
    }
}

/// Tests whether every room that would be drawn for a node fits on a grid
/// of tiles.
pub fn check_rooms_fit(node: &TreeNode, tiles: &Vec<Vec<Tile>>) -> (fit: bool)
    ensures
        fit == rooms_fit(*node, grid(*tiles)),
    decreases node,
{
    if let Some(room) = &node.room {
        return check_room_fits(room, tiles);
    }
    let (left, right) = node.get_children();
    let left_fit = match left {
        Some(part) => check_rooms_fit(part, tiles),
        None => true,
    };
    let right_fit = match right {
        Some(part) => check_rooms_fit(part, tiles),
        None => true,
    };
    left_fit && right_fit
}

fn check_room_fits(room: &Dimensions, tiles: &Vec<Vec<Tile>>) -> (fit: bool)
    ensures
        fit == room_fits(*room, grid(*tiles)),
{
    if room.height < 1 || room.width < 1 {
        return false;
    }
    if room.start.x > tiles.len() || room.height > tiles.len() - room.start.x {
        return false;
    }
    let end_x = room.start.x + room.height;
    let mut row = room.start.x;
    while row < end_x
        invariant
            room.start.x <= row <= end_x,
            end_x == room.start.x + room.height,
            end_x <= tiles.len(),
            1 <= room.height,
            1 <= room.width,
            forall|r: int|
                room.start.x <= r < row ==> room.start.y + room.width <= (#[trigger] grid(
                    *tiles,
                )[r]).len(),
        decreases end_x - row,
    {
        let length = tiles[row].len();
        if room.start.y > length || room.width > length - room.start.y {
            assert(grid(*tiles)[row as int].len() == length);
            return false;
        }
        assert(grid(*tiles)[row as int].len() == length);
        row += 1;
    }
    true
}

} // verus!
