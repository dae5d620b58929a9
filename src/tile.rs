use vstd::prelude::*;

verus! {

/// One cell of the dungeon grid.
#[derive(Clone, Copy, Debug, PartialEq, Eq, Structural)]
pub struct Tile {
    pub blocked: bool,
    pub block_sight: bool,
    pub explored: bool,
}

pub open spec fn floor_tile() -> Tile {
    Tile { blocked: false, block_sight: false, explored: false }
}

pub open spec fn wall_tile() -> Tile {
    Tile { blocked: true, block_sight: true, explored: false }
}

impl Tile {
    /// An open floor cell.
    pub fn empty() -> (t: Tile)
        ensures
            t == floor_tile(),
    {
        Tile { blocked: false, block_sight: false, explored: false }
    }

    /// A solid wall cell.
    pub fn wall() -> (t: Tile)
        ensures
            t == wall_tile(),
    {
        Tile { blocked: true, block_sight: true, explored: false }
    }
}

/// The dungeon grid, indexed as `map[x][y]`.
pub type TileMap = Vec<Vec<Tile>>;

/// Which cells the player currently sees, indexed as `fov[x][y]`.
pub type Fov = Vec<Vec<bool>>;

/// `g` is a `width` by `height` grid of columns.
pub open spec fn is_grid<T>(g: Seq<Vec<T>>, width: int, height: int) -> bool {
    &&& g.len() == width
    &&& forall|x: int| 0 <= x < width ==> (#[trigger] g[x])@.len() == height
}

/// The map has at least one column, all its columns have the same height,
/// and every cell has coordinates that fit in an `i32`.
pub open spec fn map_wf(map: TileMap) -> bool {
    &&& map@.len() > 0
    &&& is_grid(map@, map@.len() as int, map@[0]@.len() as int)
    &&& map@.len() <= i32::MAX
    &&& map@[0]@.len() <= i32::MAX
}

pub open spec fn map_width(map: TileMap) -> int {
    map@.len() as int
}

pub open spec fn map_height(map: TileMap) -> int {
    map@[0]@.len() as int
}

pub open spec fn in_map(map: TileMap, x: int, y: int) -> bool {
    0 <= x < map_width(map) && 0 <= y < map_height(map)
}

pub open spec fn tile_at(map: TileMap, x: int, y: int) -> Tile {
    map@[x]@[y]
}

/// Cells outside the grid count as not visible.
pub open spec fn visible_at(fov: Fov, x: int, y: int) -> bool {
    0 <= x < fov@.len() && 0 <= y < fov@[x]@.len() && fov@[x]@[y]
}

/// A `width` by `height` map made only of walls.
pub fn new_map(width: usize, height: usize) -> (map: TileMap)
    requires
        0 < width <= i32::MAX,
        height <= i32::MAX,
    ensures
        map_wf(map),
        map_width(map) == width,
        map_height(map) == height,
        forall|x: int, y: int| in_map(map, x, y) ==> #[trigger] tile_at(map, x, y) == wall_tile(),
{
    let mut map: TileMap = Vec::new();
    let mut i: usize = 0;
    while i < width
        invariant
            i <= width,
            is_grid(map@, i as int, height as int),
            forall|x: int, y: int|
                0 <= x < i && 0 <= y < height ==> #[trigger] tile_at(map, x, y) == wall_tile(),
        decreases width - i,
    {
        let mut column: Vec<Tile> = Vec::new();
        let mut j: usize = 0;
        while j < height
            invariant
                j <= height,
                column@.len() == j,
                forall|y: int| 0 <= y < j ==> #[trigger] column@[y] == wall_tile(),
            decreases height - j,
        {
            column.push(Tile::wall());
            j = j + 1;
        }
        let ghost prev = map;
        map.push(column);
        i = i + 1;
        assert forall|x: int, y: int| 0 <= x < i && 0 <= y < height implies #[trigger] tile_at(
            map,
            x,
            y,
        ) == wall_tile() by {
            if x < i - 1 {
                assert(map@[x] == prev@[x]);
                assert(tile_at(map, x, y) == tile_at(prev, x, y));
            } else {
                assert(map@[x] == column);
                assert(column@[y] == wall_tile());
            }
        }
    }
    map
}

/// Replaces the cell at (`x`, `y`) with `t` and leaves every other cell alone.
pub fn set_tile(map: &mut TileMap, x: usize, y: usize, t: Tile)
    requires
        map_wf(*old(map)),
        in_map(*old(map), x as int, y as int),
    ensures
        map_wf(*final(map)),
        map_width(*final(map)) == map_width(*old(map)),
        map_height(*final(map)) == map_height(*old(map)),
        forall|i: int, j: int|
            in_map(*final(map), i, j) ==> #[trigger] tile_at(*final(map), i, j) == if i == x && j
                == y {
                t
            } else {
                tile_at(*old(map), i, j)
            },
{
    let ghost before = *map;
    map[x][y] = t;
    assert forall|i: int| 0 <= i < map_width(*map) implies (#[trigger] map@[i])@.len()
        == map_height(before) by {
        if i != x {
            assert(map@[i] == before@[i]);
        }
    }
    assert forall|i: int, j: int| in_map(*map, i, j) implies #[trigger] tile_at(*map, i, j) == if i
        == x && j == y {
        t
    } else {
        tile_at(before, i, j)
    } by {
        if i != x {
            assert(map@[i] == before@[i]);
        }
    }
}

/// Turns the cell at (`x`, `y`) into floor and leaves every other cell alone.
pub fn carve_tile(map: &mut TileMap, x: usize, y: usize)
    requires
        map_wf(*old(map)),
        in_map(*old(map), x as int, y as int),
    ensures
        map_wf(*final(map)),
        map_width(*final(map)) == map_width(*old(map)),
        map_height(*final(map)) == map_height(*old(map)),
        forall|i: int, j: int|
            in_map(*final(map), i, j) ==> #[trigger] tile_at(*final(map), i, j) == if i == x && j
                == y {
                floor_tile()
            } else {
                tile_at(*old(map), i, j)
            },
{
    set_tile(map, x, y, Tile::empty());
}

/// Is the cell at (`x`, `y`) in view? Cells outside the grid are not.
pub fn is_in_fov(fov: &Fov, x: i32, y: i32) -> (r: bool)
    ensures
        r == visible_at(*fov, x as int, y as int),
{
    if x < 0 || y < 0 {
        return false;
    }
    let xu = x as usize;
    let yu = y as usize;
    if xu >= fov.len() {
        return false;
    }
    if yu >= fov[xu].len() {
        return false;
    }
    fov[xu][yu]
}

/// Marks as explored every cell that is currently in view; an explored cell
/// stays explored.
pub fn update_explored(map: &mut TileMap, fov: &Fov)
    requires
        map_wf(*old(map)),
    ensures
        map_wf(*final(map)),
        map_width(*final(map)) == map_width(*old(map)),
        map_height(*final(map)) == map_height(*old(map)),
        forall|x: int, y: int|
            in_map(*final(map), x, y) ==> #[trigger] tile_at(*final(map), x, y) == (Tile {
                explored: tile_at(*old(map), x, y).explored || visible_at(*fov, x, y),
                ..tile_at(*old(map), x, y)
            }),
{
    let ghost start = *map;
    let width = map.len();
    let height = map[0].len();
    let mut i: usize = 0;
    while i < width
        invariant
            map_wf(*map),
            width == map_width(start),
            height == map_height(start),
            map_width(*map) == width,
            map_height(*map) == height,
            i <= width,
            forall|x: int, y: int|
                in_map(*map, x, y) ==> #[trigger] tile_at(*map, x, y) == if x < i {
                    Tile {
                        explored: tile_at(start, x, y).explored || visible_at(*fov, x, y),
                        ..tile_at(start, x, y)
                    }
                } else {
                    tile_at(start, x, y)
                },
        decreases width - i,
    {
        let mut j: usize = 0;
        while j < height
            invariant
                map_wf(*map),
                width == map_width(start),
                height == map_height(start),
                map_width(*map) == width,
                map_height(*map) == height,
                i < width,
                j <= height,
                forall|x: int, y: int|
                    in_map(*map, x, y) ==> #[trigger] tile_at(*map, x, y) == if x < i || (x == i
                        && y < j) {
                        Tile {
                            explored: tile_at(start, x, y).explored || visible_at(*fov, x, y),
                            ..tile_at(start, x, y)
                        }
                    } else {
                        tile_at(start, x, y)
                    },
            decreases height - j,
        {
            let ghost before = *map;
            let seen = i < fov.len() && j < fov[i].len() && fov[i][j];
            assert(seen == visible_at(*fov, i as int, j as int));
            assert(tile_at(before, i as int, j as int) == tile_at(start, i as int, j as int));
            if seen {
                let mut t = map[i][j];
                t.explored = true;
                set_tile(map, i, j, t);
            }
            assert forall|x: int, y: int| in_map(*map, x, y) implies #[trigger] tile_at(*map, x, y)
                == if x < i || (x == i && y <= j) {
                Tile {
                    explored: tile_at(start, x, y).explored || visible_at(*fov, x, y),
                    ..tile_at(start, x, y)
                }
            } else {
                tile_at(start, x, y)
            } by {
                if x != i || y != j {
                    assert(tile_at(before, x, y) == tile_at(*map, x, y));
                }
            }
            j = j + 1;
        }
        i = i + 1;
    }
}

} // verus!
