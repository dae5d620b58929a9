use vstd::prelude::*;

use crate::color::Color;
use crate::entity::{blocked_at, blocks_cell, is_blocked, occupied, relocated, DeathCallback, Entity, Fighter, Item, AI};
use crate::game::PLAYER_ID;
use crate::random::{coin_flip, random_range};
use crate::rect::{center_of, inside_room, intersects, Rect};
use crate::tile::{carve_tile, floor_tile, in_map, map_height, map_wf, map_width, new_map, tile_at, wall_tile, TileMap};

verus! {

pub const MAP_WIDTH: i32 = 80;
pub const MAP_HEIGHT: i32 = 43;
pub const ROOM_MAX_SIZE: i32 = 10;
pub const ROOM_MIN_SIZE: i32 = 6;
pub const MAX_ROOMS: i32 = 30;
pub const MAX_ROOM_MONSTERS: i32 = 3;
pub const MAX_ROOM_ITEMS: i32 = 2;

/// Out of 100, the draws below which a monster is an orc (else a troll).
pub const ORC_CHANCE: i32 = 80;
/// Out of 100, the draws below which an item is a healing potion.
pub const HEAL_CHANCE: i32 = 70;
/// Out of 100, the draws below which an item is a lightning scroll, when it
/// is no healing potion; the rest are confusion scrolls.
pub const LIGHTNING_CHANCE: i32 = 80;

/// The rectangle, walls included, lies on the map.
pub open spec fn fits(map: TileMap, r: Rect) -> bool {
    0 <= r.x1 <= r.x2 < map_width(map) && 0 <= r.y1 <= r.y2 < map_height(map)
}

/// Every cell strictly inside the rectangle lies on the map; its walls may
/// reach one past the right and bottom edges.
pub open spec fn interior_on_map(map: TileMap, r: Rect) -> bool {
    0 <= r.x1 <= r.x2 <= map_width(map) && 0 <= r.y1 <= r.y2 <= map_height(map)
}

/// The cell lies on the straight run between `x1` and `x2` in row `y`.
pub open spec fn on_h_tunnel(x1: int, x2: int, y: int, px: int, py: int) -> bool {
    py == y && (x1 <= px <= x2 || x2 <= px <= x1)
}

/// The cell lies on the straight run between `y1` and `y2` in column `x`.
pub open spec fn on_v_tunnel(y1: int, y2: int, x: int, px: int, py: int) -> bool {
    px == x && (y1 <= py <= y2 || y2 <= py <= y1)
}

/// The cell lies on the L-shaped corridor from the centre of `prev` to the
/// centre of `next`, which runs horizontally first when `horizontal_first`.
pub open spec fn on_corridor(prev: Rect, next: Rect, horizontal_first: bool, px: int, py: int) -> bool {
    let (ax, ay) = center_of(prev);
    let (bx, by) = center_of(next);
    if horizontal_first {
        on_h_tunnel(ax, bx, ay, px, py) || on_v_tunnel(ay, by, bx, px, py)
    } else {
        on_v_tunnel(ay, by, ax, px, py) || on_h_tunnel(ax, bx, by, px, py)
    }
}

/// The cell is floor once the rooms are carved in order, each joined to the
/// one before it by a corridor whose orientation `flips` gives.
pub open spec fn carved(rooms: Seq<Rect>, flips: Seq<bool>, x: int, y: int) -> bool
    decreases rooms.len(),
{
    if rooms.len() == 0 {
        false
    } else {
        let n = rooms.len() - 1;
        ||| carved(rooms.drop_last(), flips.drop_last(), x, y)
        ||| inside_room(rooms[n], x, y)
        ||| (n > 0 && on_corridor(rooms[n - 1], rooms[n], flips[n], x, y))
    }
}

/// No two of the rooms intersect.
pub open spec fn disjoint_rooms(rooms: Seq<Rect>) -> bool {
    forall|i: int, j: int|
        0 <= i < rooms.len() && 0 <= j < rooms.len() && i != j ==> !intersects(
            #[trigger] rooms[i],
            #[trigger] rooms[j],
        )
}

/// A room of the size the generator draws, lying on a generated map.
pub open spec fn room_ok(r: Rect) -> bool {
    &&& ROOM_MIN_SIZE <= r.x2 - r.x1 <= ROOM_MAX_SIZE
    &&& ROOM_MIN_SIZE <= r.y2 - r.y1 <= ROOM_MAX_SIZE
    &&& 0 <= r.x1
    &&& r.x2 < MAP_WIDTH
    &&& 0 <= r.y1
    &&& r.y2 < MAP_HEIGHT
}

/// `map` is the level that carving `rooms` and their corridors into solid
/// rock yields: a cell is floor exactly when a room or corridor covers it.
pub open spec fn level_layout(map: TileMap, rooms: Seq<Rect>, flips: Seq<bool>) -> bool {
    &&& map_wf(map)
    &&& map_width(map) == MAP_WIDTH
    &&& map_height(map) == MAP_HEIGHT
    &&& 1 <= rooms.len() <= MAX_ROOMS
    &&& flips.len() == rooms.len()
    &&& forall|i: int| 0 <= i < rooms.len() ==> room_ok(#[trigger] rooms[i])
    &&& disjoint_rooms(rooms)
    &&& forall|x: int, y: int|
        in_map(map, x, y) ==> #[trigger] tile_at(map, x, y) == if carved(rooms, flips, x, y) {
            floor_tile()
        } else {
            wall_tile()
        }
}

pub open spec fn is_orc(e: Entity) -> bool {
    &&& e.char == 'o'
    &&& e.name@ == "orc"@
    &&& e.color == Color::DesaturatedGreen
    &&& e.fighter == Some(
        Fighter { max_hp: 10, hp: 10, defense: 0, power: 3, on_death: DeathCallback::Monster },
    )
}

pub open spec fn is_troll(e: Entity) -> bool {
    &&& e.char == 'T'
    &&& e.name@ == "troll"@
    &&& e.color == Color::DarkerGreen
    &&& e.fighter == Some(
        Fighter { max_hp: 16, hp: 16, defense: 1, power: 4, on_death: DeathCallback::Monster },
    )
}

/// A freshly spawned monster of the kind that the draw `roll` out of 100
/// selects.
pub open spec fn monster_spawned(e: Entity, roll: int) -> bool {
    &&& if roll < ORC_CHANCE {
        is_orc(e)
    } else {
        is_troll(e)
    }
    &&& e.blocks
    &&& e.alive
    &&& e.ai == Some(AI::Basic)
    &&& e.item is None
}

pub open spec fn is_potion(e: Entity) -> bool {
    &&& e.char == '!'
    &&& e.name@ == "healing potion"@
    &&& e.color == Color::Violet
    &&& e.item == Some(Item::Heal)
}

pub open spec fn is_lightning_scroll(e: Entity) -> bool {
    &&& e.char == '#'
    &&& e.name@ == "scroll of lightning bolt"@
    &&& e.color == Color::LightYellow
    &&& e.item == Some(Item::Lightning)
}

pub open spec fn is_confusion_scroll(e: Entity) -> bool {
    &&& e.char == '#'
    &&& e.name@ == "scroll of confusion"@
    &&& e.color == Color::LightYellow
    &&& e.item == Some(Item::Confuse)
}

/// A freshly spawned item of the kind that the draw `roll` out of 100
/// selects.
pub open spec fn item_spawned(e: Entity, roll: int) -> bool {
    &&& if roll < HEAL_CHANCE {
        is_potion(e)
    } else if roll < LIGHTNING_CHANCE {
        is_lightning_scroll(e)
    } else {
        is_confusion_scroll(e)
    }
    &&& !e.blocks
    &&& !e.alive
    &&& e.fighter is None
    &&& e.ai is None
}

/// Any entity the level generator places.
pub open spec fn spawned(e: Entity) -> bool {
    ||| monster_spawned(e, 0)
    ||| monster_spawned(e, ORC_CHANCE as int)
    ||| item_spawned(e, 0)
    ||| item_spawned(e, HEAL_CHANCE as int)
    ||| item_spawned(e, LIGHTNING_CHANCE as int)
}

/// The monster at (`x`, `y`) that the draw `roll` out of 100 selects: an orc
/// below `ORC_CHANCE`, a troll otherwise.
pub fn spawn_monster(x: i32, y: i32, roll: i32) -> (e: Entity)
    ensures
        e.x == x,
        e.y == y,
        monster_spawned(e, roll as int),
{
    proof {
        reveal_strlit("orc");
        reveal_strlit("troll");
    }
    let mut monster = if roll < ORC_CHANCE {
        let mut orc = Entity::new(x, y, 'o', "orc", Color::DesaturatedGreen, true);
        orc.fighter = Some(
            Fighter { max_hp: 10, hp: 10, defense: 0, power: 3, on_death: DeathCallback::Monster },
        );
        orc.ai = Some(AI::Basic);
        orc
    } else {
        let mut troll = Entity::new(x, y, 'T', "troll", Color::DarkerGreen, true);
        troll.fighter = Some(
            Fighter { max_hp: 16, hp: 16, defense: 1, power: 4, on_death: DeathCallback::Monster },
        );
        troll.ai = Some(AI::Basic);
        troll
    };
    monster.alive = true;
    monster
}

/// The item at (`x`, `y`) that the draw `roll` out of 100 selects, by
/// cumulative thresholds: a healing potion, then a lightning scroll, then a
/// confusion scroll.
pub fn spawn_item(x: i32, y: i32, roll: i32) -> (e: Entity)
    ensures
        e.x == x,
        e.y == y,
        item_spawned(e, roll as int),
{
    if roll < HEAL_CHANCE {
        let mut potion = Entity::new(x, y, '!', "healing potion", Color::Violet, false);
        potion.item = Some(Item::Heal);
        potion
    } else if roll < LIGHTNING_CHANCE {
        let mut scroll = Entity::new(x, y, '#', "scroll of lightning bolt", Color::LightYellow, false);
        scroll.item = Some(Item::Lightning);
        scroll
    } else {
        let mut scroll = Entity::new(x, y, '#', "scroll of confusion", Color::LightYellow, false);
        scroll.item = Some(Item::Confuse);
        scroll
    }
}

proof fn lemma_carved_push(rooms: Seq<Rect>, flips: Seq<bool>, r: Rect, f: bool, x: int, y: int)
    requires
        flips.len() == rooms.len(),
    ensures
        carved(rooms.push(r), flips.push(f), x, y) == (carved(rooms, flips, x, y) || inside_room(r, x, y)
            || (rooms.len() > 0 && on_corridor(rooms.last(), r, f, x, y))),
{
    assert(rooms.push(r).drop_last() =~= rooms);
    assert(flips.push(f).drop_last() =~= flips);
}

/// Turns every cell strictly inside `room` into floor.
pub fn create_room(room: Rect, map: &mut TileMap)
    requires
        map_wf(*old(map)),
        interior_on_map(*old(map), room),
    ensures
        map_wf(*final(map)),
        map_width(*final(map)) == map_width(*old(map)),
        map_height(*final(map)) == map_height(*old(map)),
        forall|x: int, y: int|
            in_map(*final(map), x, y) ==> #[trigger] tile_at(*final(map), x, y) == if inside_room(
                room,
                x,
                y,
            ) {
                floor_tile()
            } else {
                tile_at(*old(map), x, y)
            },
{
    let ghost start = *map;
    if room.x1 >= room.x2 || room.y1 >= room.y2 {
        return;
    }
    let mut x = room.x1 + 1;
    while x < room.x2
        invariant
            map_wf(*map),
            map_width(*map) == map_width(start),
            map_height(*map) == map_height(start),
            interior_on_map(start, room),
            room.y1 < room.y2,
            room.x1 < x,
            x <= room.x2 || x == room.x1 + 1,
            forall|px: int, py: int|
                in_map(*map, px, py) ==> #[trigger] tile_at(*map, px, py) == if room.x1 < px < x
                    && room.y1 < py < room.y2 {
                    floor_tile()
                } else {
                    tile_at(start, px, py)
                },
        decreases room.x2 - x,
    {
        let mut y = room.y1 + 1;
        while y < room.y2
            invariant
                map_wf(*map),
                map_width(*map) == map_width(start),
                map_height(*map) == map_height(start),
                interior_on_map(start, room),
                room.x1 < x < room.x2,
                room.y1 < y,
                y <= room.y2 || y == room.y1 + 1,
                forall|px: int, py: int|
                    in_map(*map, px, py) ==> #[trigger] tile_at(*map, px, py) == if (room.x1 < px < x
                        && room.y1 < py < room.y2) || (px == x && room.y1 < py < y) {
                        floor_tile()
                    } else {
                        tile_at(start, px, py)
                    },
            decreases room.y2 - y,
        {
            carve_tile(map, x as usize, y as usize);
            y = y + 1;
        }
        x = x + 1;
    }
}

/// Turns the row `y` between `x1` and `x2`, both ends included, into floor.
pub fn create_horizontal_tunnel(x1: i32, x2: i32, y: i32, map: &mut TileMap)
    requires
        map_wf(*old(map)),
        0 <= x1 < map_width(*old(map)),
        0 <= x2 < map_width(*old(map)),
        0 <= y < map_height(*old(map)),
    ensures
        map_wf(*final(map)),
        map_width(*final(map)) == map_width(*old(map)),
        map_height(*final(map)) == map_height(*old(map)),
        forall|px: int, py: int|
            in_map(*final(map), px, py) ==> #[trigger] tile_at(*final(map), px, py) == if on_h_tunnel(
                x1 as int,
                x2 as int,
                y as int,
                px,
                py,
            ) {
                floor_tile()
            } else {
                tile_at(*old(map), px, py)
            },
{
    let ghost start = *map;
    let low = if x1 < x2 {
        x1
    } else {
        x2
    };
    let high = if x1 < x2 {
        x2
    } else {
        x1
    };
    let mut x = low;
    while x <= high
        invariant
            map_wf(*map),
            map_width(*map) == map_width(start),
            map_height(*map) == map_height(start),
            0 <= low <= high < map_width(start),
            0 <= y < map_height(start),
            low <= x <= high + 1,
            forall|px: int, py: int|
                in_map(*map, px, py) ==> #[trigger] tile_at(*map, px, py) == if py == y && low <= px
                    < x {
                    floor_tile()
                } else {
                    tile_at(start, px, py)
                },
        decreases high + 1 - x,
    {
        carve_tile(map, x as usize, y as usize);
        x = x + 1;
    }
}

/// Turns the column `x` between `y1` and `y2`, both ends included, into
/// floor.
pub fn create_vertical_tunnel(y1: i32, y2: i32, x: i32, map: &mut TileMap)
    requires
        map_wf(*old(map)),
        0 <= y1 < map_height(*old(map)),
        0 <= y2 < map_height(*old(map)),
        0 <= x < map_width(*old(map)),
    ensures
        map_wf(*final(map)),
        map_width(*final(map)) == map_width(*old(map)),
        map_height(*final(map)) == map_height(*old(map)),
        forall|px: int, py: int|
            in_map(*final(map), px, py) ==> #[trigger] tile_at(*final(map), px, py) == if on_v_tunnel(
                y1 as int,
                y2 as int,
                x as int,
                px,
                py,
            ) {
                floor_tile()
            } else {
                tile_at(*old(map), px, py)
            },
{
    let ghost start = *map;
    let low = if y1 < y2 {
        y1
    } else {
        y2
    };
    let high = if y1 < y2 {
        y2
    } else {
        y1
    };
    let mut y = low;
    while y <= high
        invariant
            map_wf(*map),
            map_width(*map) == map_width(start),
            map_height(*map) == map_height(start),
            0 <= low <= high < map_height(start),
            0 <= x < map_width(start),
            low <= y <= high + 1,
            forall|px: int, py: int|
                in_map(*map, px, py) ==> #[trigger] tile_at(*map, px, py) == if px == x && low <= py
                    < y {
                    floor_tile()
                } else {
                    tile_at(start, px, py)
                },
        decreases high + 1 - y,
    {
        carve_tile(map, x as usize, y as usize);
        y = y + 1;
    }
}

/// Carves the L-shaped corridor between the centres of `prev` and `next`,
/// horizontal leg first when `horizontal_first`.
pub fn create_corridor(prev: Rect, next: Rect, horizontal_first: bool, map: &mut TileMap)
    requires
        map_wf(*old(map)),
        fits(*old(map), prev),
        fits(*old(map), next),
    ensures
        map_wf(*final(map)),
        map_width(*final(map)) == map_width(*old(map)),
        map_height(*final(map)) == map_height(*old(map)),
        forall|px: int, py: int|
            in_map(*final(map), px, py) ==> #[trigger] tile_at(*final(map), px, py) == if on_corridor(
                prev,
                next,
                horizontal_first,
                px,
                py,
            ) {
                floor_tile()
            } else {
                tile_at(*old(map), px, py)
            },
{
    let (prev_x, prev_y) = prev.center();
    let (new_x, new_y) = next.center();
    if horizontal_first {
        create_horizontal_tunnel(prev_x, new_x, prev_y, map);
        create_vertical_tunnel(prev_y, new_y, new_x, map);
    } else {
        create_vertical_tunnel(prev_y, new_y, prev_x, map);
        create_horizontal_tunnel(prev_x, new_x, new_y, map);
    }
}

fn intersects_any(room: &Rect, rooms: &Vec<Rect>) -> (r: bool)
    ensures
        r == exists|j: int| 0 <= j < rooms@.len() && intersects(*room, #[trigger] rooms@[j]),
{
    let mut j: usize = 0;
    while j < rooms.len()
        invariant
            j <= rooms@.len(),
            forall|k: int| 0 <= k < j ==> !intersects(*room, #[trigger] rooms@[k]),
        decreases rooms@.len() - j,
    {
        if room.intersects_with(&rooms[j]) {
            return true;
        }
        j = j + 1;
    }
    false
}

/// The draw `d`, a cell and a roll, names the cell (`x`, `y`).
pub open spec fn at_cell(d: (i32, i32, i32), x: int, y: int) -> bool {
    d.0 == x && d.1 == y
}

/// One of the draws names the cell (`x`, `y`).
pub open spec fn cell_taken(draws: Seq<(i32, i32, i32)>, x: int, y: int) -> bool {
    exists|k: int| 0 <= k < draws.len() && #[trigger] at_cell(draws[k], x, y)
}

/// The draws, in order, whose cell is free when their turn comes: not
/// blocked on the map or by an entity of `before`, not among the cells
/// `taken`, and, for blocking entities, not one already kept.
pub open spec fn kept(
    map: TileMap,
    before: Seq<Entity>,
    taken: Seq<(i32, i32, i32)>,
    draws: Seq<(i32, i32, i32)>,
    blocking: bool,
) -> Seq<(i32, i32, i32)>
    decreases draws.len(),
{
    if draws.len() == 0 {
        Seq::empty()
    } else {
        let prev = kept(map, before, taken, draws.drop_last(), blocking);
        let d = draws.last();
        if blocked_at(map, before, d.0 as int, d.1 as int) || cell_taken(taken, d.0 as int, d.1 as int)
            || (blocking && cell_taken(prev, d.0 as int, d.1 as int)) {
            prev
        } else {
            prev.push(d)
        }
    }
}

/// The entity that the draw `d` spawns: a monster or an item on the draw's
/// cell, of the kind its roll selects.
pub open spec fn spawned_at(e: Entity, d: (i32, i32, i32), monster: bool) -> bool {
    &&& e.x == d.0
    &&& e.y == d.1
    &&& if monster {
        monster_spawned(e, d.2 as int)
    } else {
        item_spawned(e, d.2 as int)
    }
}

/// `after` is `before` with the monsters of the draws `monsters` appended,
/// then the items of the draws `items`, each draw spawning exactly when its
/// cell is free at that moment.
pub open spec fn populated(
    map: TileMap,
    before: Seq<Entity>,
    monsters: Seq<(i32, i32, i32)>,
    items: Seq<(i32, i32, i32)>,
    after: Seq<Entity>,
) -> bool {
    let km = kept(map, before, Seq::empty(), monsters, true);
    let ki = kept(map, before, km, items, false);
    &&& after.len() == before.len() + km.len() + ki.len()
    &&& forall|i: int| 0 <= i < before.len() ==> after[i] == before[i]
    &&& forall|k: int|
        0 <= k < km.len() ==> spawned_at(#[trigger] after[before.len() + k], km[k], true)
    &&& forall|k: int|
        0 <= k < ki.len() ==> spawned_at(
            #[trigger] after[before.len() + km.len() + k],
            ki[k],
            false,
        )
}

/// What populating `room` adds to the roster `before` to make `after`:
/// monsters and items strictly inside `room`, each on a cell that was
/// neither wall nor taken by a blocking entity when it was placed.
pub open spec fn placed_in(map: TileMap, room: Rect, before: Seq<Entity>, after: Seq<Entity>) -> bool {
    &&& before.len() <= after.len()
    &&& forall|i: int| 0 <= i < before.len() ==> after[i] == before[i]
    &&& forall|i: int|
        before.len() <= i < after.len() ==> {
            &&& inside_room(room, (#[trigger] after[i]).x as int, after[i].y as int)
            &&& spawned(after[i])
            &&& !tile_at(map, after[i].x as int, after[i].y as int).blocked
        }
    &&& forall|i: int, j: int|
        before.len() <= i < after.len() && 0 <= j < i ==> !#[trigger] blocks_cell(
            after[j],
            after[i].x as int,
            after[i].y as int,
        )
}

/// The draws lie inside `room`, have rolls out of 100, and number at most `n`.
pub open spec fn draws_in(room: Rect, draws: Seq<(i32, i32, i32)>, n: int) -> bool {
    &&& draws.len() <= n
    &&& forall|k: int|
        0 <= k < draws.len() ==> inside_room(room, (#[trigger] draws[k]).0 as int, draws[k].1 as int)
            && 0 <= draws[k].2 < 100
}

proof fn lemma_pushed_free(before: Seq<Entity>, e: Entity, map: TileMap, x: int, y: int)
    requires
        !blocked_at(map, before, x, y),
    ensures
        forall|j: int| 0 <= j < before.len() ==> !#[trigger] blocks_cell(before.push(e)[j], x, y),
{
    assert forall|j: int| 0 <= j < before.len() implies !#[trigger] blocks_cell(
        before.push(e)[j],
        x,
        y,
    ) by {
        if blocks_cell(before[j], x, y) {
            assert(occupied(before, x, y));
        }
    }
}

/// Appends to the roster the monsters of the draws `monsters` and then the
/// items of the draws `items`, each draw a cell and a roll out of 100, and
/// each spawning only if its cell is free at that moment.
pub fn populate(
    room: Rect,
    map: &TileMap,
    monsters: &Vec<(i32, i32, i32)>,
    items: &Vec<(i32, i32, i32)>,
    entities: &mut Vec<Entity>,
)
    requires
        map_wf(*map),
        forall|k: int|
            0 <= k < monsters@.len() ==> inside_room(
                room,
                (#[trigger] monsters@[k]).0 as int,
                monsters@[k].1 as int,
            ),
        forall|k: int|
            0 <= k < items@.len() ==> inside_room(
                room,
                (#[trigger] items@[k]).0 as int,
                items@[k].1 as int,
            ),
    ensures
        populated(*map, old(entities)@, monsters@, items@, final(entities)@),
        placed_in(*map, room, old(entities)@, final(entities)@),
{
    let ghost start = entities@;
    let ghost none: Seq<(i32, i32, i32)> = Seq::empty();
    let mut i: usize = 0;
    while i < monsters.len()
        invariant
            map_wf(*map),
            forall|k: int|
                0 <= k < monsters@.len() ==> inside_room(
                    room,
                    (#[trigger] monsters@[k]).0 as int,
                    monsters@[k].1 as int,
                ),
            i <= monsters@.len(),
            none == Seq::<(i32, i32, i32)>::empty(),
            entities@.len() == start.len() + kept(*map, start, none, monsters@.take(i as int), true).len(),
            forall|k: int|
                0 <= k < kept(*map, start, none, monsters@.take(i as int), true).len() ==> spawned_at(
                    #[trigger] entities@[start.len() + k],
                    kept(*map, start, none, monsters@.take(i as int), true)[k],
                    true,
                ),
            placed_in(*map, room, start, entities@),
        decreases monsters@.len() - i,
    {
        let ghost km = kept(*map, start, none, monsters@.take(i as int), true);
        let (x, y, roll) = monsters[i];
        assert(monsters@.take(i as int + 1).drop_last() =~= monsters@.take(i as int));
        assert(monsters@.take(i as int + 1).last() == monsters@[i as int]);
        assert(!cell_taken(none, x as int, y as int));
        assert(occupied(entities@, x as int, y as int) == (occupied(start, x as int, y as int)
            || cell_taken(km, x as int, y as int))) by {
            if occupied(entities@, x as int, y as int) {
                let j = choose|j: int|
                    0 <= j < entities@.len() && #[trigger] blocks_cell(entities@[j], x as int, y as int);
                if j < start.len() {
                    assert(blocks_cell(start[j], x as int, y as int));
                } else {
                    assert(spawned_at(entities@[start.len() + (j - start.len())], km[j - start.len()], true));
                    assert(at_cell(km[j - start.len()], x as int, y as int));
                }
            }
            if occupied(start, x as int, y as int) {
                let j = choose|j: int| 0 <= j < start.len() && #[trigger] blocks_cell(start[j], x as int, y as int);
                assert(blocks_cell(entities@[j], x as int, y as int));
            }
            if cell_taken(km, x as int, y as int) {
                let k = choose|k: int| 0 <= k < km.len() && #[trigger] at_cell(km[k], x as int, y as int);
                assert(spawned_at(entities@[start.len() + k], km[k], true));
                assert(blocks_cell(entities@[start.len() + k], x as int, y as int));
            }
        }
        if !is_blocked(x, y, map, entities.as_slice()) {
            let ghost before = entities@;
            entities.push(spawn_monster(x, y, roll));
            proof {
                lemma_pushed_free(before, entities@.last(), *map, x as int, y as int);
            }
        }
        i = i + 1;
    }
    assert(monsters@.take(monsters@.len() as int) =~= monsters@);
    let ghost km = kept(*map, start, none, monsters@, true);
    let mut i: usize = 0;
    while i < items.len()
        invariant
            map_wf(*map),
            forall|k: int|
                0 <= k < items@.len() ==> inside_room(
                    room,
                    (#[trigger] items@[k]).0 as int,
                    items@[k].1 as int,
                ),
            i <= items@.len(),
            none == Seq::<(i32, i32, i32)>::empty(),
            km == kept(*map, start, none, monsters@, true),
            entities@.len() == start.len() + km.len() + kept(*map, start, km, items@.take(i as int), false).len(),
            forall|k: int| 0 <= k < km.len() ==> spawned_at(#[trigger] entities@[start.len() + k], km[k], true),
            forall|k: int|
                0 <= k < kept(*map, start, km, items@.take(i as int), false).len() ==> spawned_at(
                    #[trigger] entities@[start.len() + km.len() + k],
                    kept(*map, start, km, items@.take(i as int), false)[k],
                    false,
                ),
            placed_in(*map, room, start, entities@),
        decreases items@.len() - i,
    {
        let ghost ki = kept(*map, start, km, items@.take(i as int), false);
        let (x, y, roll) = items[i];
        assert(items@.take(i as int + 1).drop_last() =~= items@.take(i as int));
        assert(items@.take(i as int + 1).last() == items@[i as int]);
        assert(occupied(entities@, x as int, y as int) == (occupied(start, x as int, y as int)
            || cell_taken(km, x as int, y as int))) by {
            if occupied(entities@, x as int, y as int) {
                let j = choose|j: int|
                    0 <= j < entities@.len() && #[trigger] blocks_cell(entities@[j], x as int, y as int);
                if j < start.len() {
                    assert(blocks_cell(start[j], x as int, y as int));
                } else if j < start.len() + km.len() {
                    assert(spawned_at(entities@[start.len() + (j - start.len())], km[j - start.len()], true));
                    assert(at_cell(km[j - start.len()], x as int, y as int));
                } else {
                    let k = j - start.len() - km.len();
                    assert(spawned_at(entities@[start.len() + km.len() + k], ki[k], false));
                }
            }
            if occupied(start, x as int, y as int) {
                let j = choose|j: int| 0 <= j < start.len() && #[trigger] blocks_cell(start[j], x as int, y as int);
                assert(blocks_cell(entities@[j], x as int, y as int));
            }
            if cell_taken(km, x as int, y as int) {
                let k = choose|k: int| 0 <= k < km.len() && #[trigger] at_cell(km[k], x as int, y as int);
                assert(spawned_at(entities@[start.len() + k], km[k], true));
                assert(blocks_cell(entities@[start.len() + k], x as int, y as int));
            }
        }
        if !is_blocked(x, y, map, entities.as_slice()) {
            let ghost before = entities@;
            entities.push(spawn_item(x, y, roll));
            proof {
                lemma_pushed_free(before, entities@.last(), *map, x as int, y as int);
            }
        }
        i = i + 1;
    }
    assert(items@.take(items@.len() as int) =~= items@);
}

/// Populates `room` with up to `MAX_ROOM_MONSTERS` monsters and up to
/// `MAX_ROOM_ITEMS` items: it draws their cells inside the room and their
/// rolls, and spawns each whose cell is free.
pub fn place_entities(room: Rect, map: &TileMap, entities: &mut Vec<Entity>)
    requires
        map_wf(*map),
        room.x1 + 1 < room.x2,
        room.y1 + 1 < room.y2,
    ensures
        exists|monsters: Seq<(i32, i32, i32)>, items: Seq<(i32, i32, i32)>|
            draws_in(room, monsters, MAX_ROOM_MONSTERS as int) && draws_in(room, items, MAX_ROOM_ITEMS as int)
                && #[trigger] populated(*map, old(entities)@, monsters, items, final(entities)@),
        placed_in(*map, room, old(entities)@, final(entities)@),
{
    let monsters = random_draws(room, random_range(0, MAX_ROOM_MONSTERS + 1));
    let items = random_draws(room, random_range(0, MAX_ROOM_ITEMS + 1));
    populate(room, map, &monsters, &items, entities);
}

/// `count` random cells strictly inside `room`, each with a roll out of 100.
fn random_draws(room: Rect, count: i32) -> (draws: Vec<(i32, i32, i32)>)
    requires
        room.x1 + 1 < room.x2,
        room.y1 + 1 < room.y2,
    ensures
        draws_in(room, draws@, if count < 0 { 0 } else { count as int }),
{
    let mut draws: Vec<(i32, i32, i32)> = Vec::new();
    let mut k: i32 = 0;
    while k < count
        invariant
            room.x1 + 1 < room.x2,
            room.y1 + 1 < room.y2,
            0 <= k,
            k <= count || k == 0,
            draws@.len() == k,
            draws_in(room, draws@, k as int),
        decreases count - k,
    {
        let x = random_range(room.x1 + 1, room.x2);
        let y = random_range(room.y1 + 1, room.y2);
        let roll = random_range(0, 100);
        draws.push((x, y, roll));
        k = k + 1;
    }
    draws
}

/// `room` intersects one of `rooms`.
pub open spec fn clashes(room: Rect, rooms: Seq<Rect>) -> bool {
    exists|j: int| 0 <= j < rooms.len() && intersects(room, #[trigger] rooms[j])
}

/// The attempted rooms that are accepted, in order: each one that intersects
/// none accepted before it.
pub open spec fn accepted(attempts: Seq<Rect>) -> Seq<Rect>
    decreases attempts.len(),
{
    if attempts.len() == 0 {
        Seq::empty()
    } else {
        let prev = accepted(attempts.drop_last());
        if clashes(attempts.last(), prev) {
            prev
        } else {
            prev.push(attempts.last())
        }
    }
}

/// The corridor orientations of the accepted rooms: `flips[i]` goes with
/// `attempts[i]`.
pub open spec fn accepted_flips(attempts: Seq<Rect>, flips: Seq<bool>) -> Seq<bool>
    decreases attempts.len(),
{
    if attempts.len() == 0 {
        Seq::empty()
    } else {
        let prev = accepted_flips(attempts.drop_last(), flips.drop_last());
        if clashes(attempts.last(), accepted(attempts.drop_last())) {
            prev
        } else {
            prev.push(flips.last())
        }
    }
}

/// Builds a level from the attempted rooms in order: each is rejected when it
/// intersects a room already accepted; each accepted one is carved,
/// populated, and joined to the previous accepted room by a corridor that
/// runs horizontally first when its entry of `flips` is true. The player, at
/// index 0 of the roster, starts at the centre of the first room.
pub fn build_level(attempts: &Vec<Rect>, flips: &Vec<bool>, entities: &mut Vec<Entity>) -> (map: TileMap)
    requires
        old(entities)@.len() > PLAYER_ID,
        1 <= attempts@.len() <= MAX_ROOMS,
        flips@.len() == attempts@.len(),
        forall|i: int| 0 <= i < attempts@.len() ==> room_ok(#[trigger] attempts@[i]),
    ensures
        level_layout(map, accepted(attempts@), accepted_flips(attempts@, flips@)),
        final(entities)@[PLAYER_ID as int] == relocated(
            old(entities)@[PLAYER_ID as int],
            center_of(accepted(attempts@)[0]).0,
            center_of(accepted(attempts@)[0]).1,
        ),
        !tile_at(
            map,
            final(entities)@[PLAYER_ID as int].x as int,
            final(entities)@[PLAYER_ID as int].y as int,
        ).blocked,
        old(entities)@.len() <= final(entities)@.len(),
        forall|i: int|
            PLAYER_ID < i < old(entities)@.len() ==> final(entities)@[i] == old(entities)@[i],
        forall|i: int|
            old(entities)@.len() <= i < final(entities)@.len() ==> spawned(
                #[trigger] final(entities)@[i],
            ) && !tile_at(map, final(entities)@[i].x as int, final(entities)@[i].y as int).blocked,
{
    let ghost start = entities@;
    let mut map = new_map(MAP_WIDTH as usize, MAP_HEIGHT as usize);
    let mut rooms: Vec<Rect> = Vec::new();
    let ghost mut kept_flips: Seq<bool> = Seq::empty();
    let mut attempt: usize = 0;
    while attempt < attempts.len()
        invariant
            0 <= attempt <= attempts@.len() <= MAX_ROOMS,
            flips@.len() == attempts@.len(),
            forall|i: int| 0 <= i < attempts@.len() ==> room_ok(#[trigger] attempts@[i]),
            rooms@ == accepted(attempts@.take(attempt as int)),
            kept_flips == accepted_flips(attempts@.take(attempt as int), flips@.take(attempt as int)),
            map_wf(map),
            map_width(map) == MAP_WIDTH,
            map_height(map) == MAP_HEIGHT,
            rooms@.len() <= attempt,
            attempt > 0 ==> rooms@.len() > 0,
            kept_flips.len() == rooms@.len(),
            forall|i: int| 0 <= i < rooms@.len() ==> room_ok(#[trigger] rooms@[i]),
            disjoint_rooms(rooms@),
            forall|x: int, y: int|
                in_map(map, x, y) ==> #[trigger] tile_at(map, x, y) == if carved(rooms@, kept_flips, x, y) {
                    floor_tile()
                } else {
                    wall_tile()
                },
            PLAYER_ID < start.len() <= entities@.len(),
            forall|i: int| PLAYER_ID < i < start.len() ==> entities@[i] == start[i],
            rooms@.len() == 0 ==> entities@[PLAYER_ID as int] == start[PLAYER_ID as int],
            rooms@.len() > 0 ==> entities@[PLAYER_ID as int] == relocated(
                start[PLAYER_ID as int],
                center_of(rooms@[0]).0,
                center_of(rooms@[0]).1,
            ),
            rooms@.len() > 0 ==> carved(
                rooms@,
                kept_flips,
                entities@[PLAYER_ID as int].x as int,
                entities@[PLAYER_ID as int].y as int,
            ) && in_map(
                map,
                entities@[PLAYER_ID as int].x as int,
                entities@[PLAYER_ID as int].y as int,
            ),
            forall|i: int|
                start.len() <= i < entities@.len() ==> spawned(#[trigger] entities@[i]) && carved(
                    rooms@,
                    kept_flips,
                    entities@[i].x as int,
                    entities@[i].y as int,
                ) && in_map(map, entities@[i].x as int, entities@[i].y as int),
        decreases attempts@.len() - attempt,
    {
        let new_room = attempts[attempt];
        proof {
            assert(attempts@.take(attempt as int + 1).drop_last() =~= attempts@.take(attempt as int));
            assert(flips@.take(attempt as int + 1).drop_last() =~= flips@.take(attempt as int));
            assert(attempts@.take(attempt as int + 1).last() == new_room);
            assert(flips@.take(attempt as int + 1).last() == flips@[attempt as int]);
        }
        if !intersects_any(&new_room, &rooms) {
            let ghost old_rooms = rooms@;
            let ghost old_entities = entities@;
            create_room(new_room, &mut map);
            place_entities(new_room, &map, entities);
            let ghost placed = entities@;
            let ghost flip: bool = flips@[attempt as int];
            if rooms.len() == 0 {
                let (new_x, new_y) = new_room.center();
                entities[PLAYER_ID].set_location(new_x, new_y);
            } else {
                let horizontal_first = flips[attempt];
                create_corridor(rooms[rooms.len() - 1], new_room, horizontal_first, &mut map);
            }
            rooms.push(new_room);
            proof {
                let ghost old_kept_flips = kept_flips;
                kept_flips = kept_flips.push(flip);
                assert(rooms@ == old_rooms.push(new_room));
                assert forall|px: int, py: int|
                    #![auto]
                    carved(old_rooms, old_kept_flips, px, py) || inside_room(new_room, px, py) ==> carved(
                        rooms@,
                        kept_flips,
                        px,
                        py,
                    ) by {
                    lemma_carved_push(old_rooms, old_kept_flips, new_room, flip, px, py);
                }
                assert forall|px: int, py: int| in_map(map, px, py) implies #[trigger] tile_at(
                    map,
                    px,
                    py,
                ) == if carved(rooms@, kept_flips, px, py) {
                    floor_tile()
                } else {
                    wall_tile()
                } by {
                    lemma_carved_push(old_rooms, old_kept_flips, new_room, flip, px, py);
                }
                assert forall|i: int, j: int|
                    0 <= i < rooms@.len() && 0 <= j < rooms@.len() && i != j implies !intersects(
                    #[trigger] rooms@[i],
                    #[trigger] rooms@[j],
                ) by {
                    if i == rooms@.len() - 1 {
                        assert(!intersects(new_room, old_rooms[j]));
                    } else if j == rooms@.len() - 1 {
                        assert(!intersects(new_room, old_rooms[i]));
                    } else {
                        assert(rooms@[i] == old_rooms[i] && rooms@[j] == old_rooms[j]);
                    }
                }
                assert forall|i: int| start.len() <= i < entities@.len() implies spawned(
                    #[trigger] entities@[i],
                ) && carved(rooms@, kept_flips, entities@[i].x as int, entities@[i].y as int) && in_map(
                    map,
                    entities@[i].x as int,
                    entities@[i].y as int,
                ) by {
                    assert(entities@[i] == placed[i]);
                    lemma_carved_push(
                        old_rooms,
                        old_kept_flips,
                        new_room,
                        flip,
                        entities@[i].x as int,
                        entities@[i].y as int,
                    );
                    if i < old_entities.len() {
                        assert(placed[i] == old_entities[i]);
                    } else {
                        assert(inside_room(new_room, placed[i].x as int, placed[i].y as int));
                    }
                }
                lemma_carved_push(
                    old_rooms,
                    old_kept_flips,
                    new_room,
                    flip,
                    entities@[PLAYER_ID as int].x as int,
                    entities@[PLAYER_ID as int].y as int,
                );
            }
        }
        attempt = attempt + 1;
    }
    proof {
        assert(attempts@.take(attempts@.len() as int) =~= attempts@);
        assert(flips@.take(flips@.len() as int) =~= flips@);
        assert(level_layout(map, rooms@, kept_flips));
    }
    map
}

/// Generates a level: up to `MAX_ROOMS` rooms of random size and place, each
/// rejected when it intersects one already accepted, each accepted one
/// populated and joined to the previous by a corridor. The player, at index
/// 0 of the roster, starts at the centre of the first room.
pub fn make_map(entities: &mut Vec<Entity>) -> (map: TileMap)
    requires
        old(entities)@.len() > PLAYER_ID,
    ensures
        exists|rooms: Seq<Rect>, flips: Seq<bool>|
            #[trigger] level_layout(map, rooms, flips) && final(entities)@[PLAYER_ID as int]
                == relocated(
                old(entities)@[PLAYER_ID as int],
                center_of(rooms[0]).0,
                center_of(rooms[0]).1,
            ),
        !tile_at(
            map,
            final(entities)@[PLAYER_ID as int].x as int,
            final(entities)@[PLAYER_ID as int].y as int,
        ).blocked,
        old(entities)@.len() <= final(entities)@.len(),
        forall|i: int|
            PLAYER_ID < i < old(entities)@.len() ==> final(entities)@[i] == old(entities)@[i],
        forall|i: int|
            old(entities)@.len() <= i < final(entities)@.len() ==> spawned(
                #[trigger] final(entities)@[i],
            ) && !tile_at(map, final(entities)@[i].x as int, final(entities)@[i].y as int).blocked,
{
    let mut attempts: Vec<Rect> = Vec::new();
    let mut flips: Vec<bool> = Vec::new();
    let mut attempt: i32 = 0;
    while attempt < MAX_ROOMS
        invariant
            0 <= attempt <= MAX_ROOMS,
            attempts@.len() == attempt,
            flips@.len() == attempt,
            forall|i: int| 0 <= i < attempts@.len() ==> room_ok(#[trigger] attempts@[i]),
        decreases MAX_ROOMS - attempt,
    {
        let w = random_range(ROOM_MIN_SIZE, ROOM_MAX_SIZE + 1);
        let h = random_range(ROOM_MIN_SIZE, ROOM_MAX_SIZE + 1);
        let x = random_range(0, MAP_WIDTH - w);
        let y = random_range(0, MAP_HEIGHT - h);
        attempts.push(Rect::new(x, y, w, h));
        flips.push(coin_flip());
        attempt = attempt + 1;
    }
    let map = build_level(&attempts, &flips, entities);
    proof {
        assert(level_layout(map, accepted(attempts@), accepted_flips(attempts@, flips@)));
    }
    map
}

} // verus!
