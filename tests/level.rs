use roguelike::color::Color;
use roguelike::entity::{DeathCallback, Entity, Fighter, Item, AI};
use roguelike::level::{
    build_level, create_corridor, create_horizontal_tunnel, create_room, create_vertical_tunnel, make_map,
    place_entities, populate, spawn_item, spawn_monster, MAP_HEIGHT, MAP_WIDTH,
};
use roguelike::rect::Rect;
use roguelike::tile::{new_map, update_explored, Tile};

fn player() -> Entity {
    let mut p = Entity::new(0, 0, '@', "player", Color::White, true);
    p.fighter = Some(Fighter { max_hp: 30, hp: 30, defense: 2, power: 5, on_death: DeathCallback::Player });
    p.alive = true;
    p
}

#[test]
fn generated_levels_start_the_player_on_floor() {
    for _ in 0..25 {
        let mut entities = vec![player()];
        let map = make_map(&mut entities);
        assert_eq!(map.len(), MAP_WIDTH as usize);
        assert!(map.iter().all(|column| column.len() == MAP_HEIGHT as usize));
        let (px, py) = entities[0].get_location();
        assert!(!map[px as usize][py as usize].blocked);
        for e in &entities[1..] {
            assert!(!map[e.x as usize][e.y as usize].blocked);
            assert!(e.item.is_some() || (e.fighter.is_some() && e.ai == Some(AI::Basic)));
        }
        for x in 0..MAP_WIDTH as usize {
            assert!(map[x][0].blocked && map[x][MAP_HEIGHT as usize - 1].blocked);
        }
        for y in 0..MAP_HEIGHT as usize {
            assert!(map[0][y].blocked && map[MAP_WIDTH as usize - 1][y].blocked);
        }
        for column in &map {
            for tile in column {
                assert_eq!(tile.blocked, tile.block_sight);
                assert!(!tile.explored);
            }
        }
    }
}

#[test]
fn generated_monsters_never_share_a_cell() {
    for _ in 0..25 {
        let mut entities = vec![player()];
        make_map(&mut entities);
        for i in 1..entities.len() {
            for j in 1..i {
                if entities[i].blocks && entities[j].blocks {
                    assert_ne!(entities[i].get_location(), entities[j].get_location());
                }
            }
        }
    }
}

#[test]
fn room_interior_becomes_floor() {
    let mut map = new_map(12, 12);
    let room = Rect::new(2, 3, 5, 4);
    create_room(room, &mut map);
    for x in 0..12 {
        for y in 0..12 {
            let inside = x > 2 && x < 7 && y > 3 && y < 7;
            assert_eq!(map[x][y].blocked, !inside);
        }
    }
    assert_eq!(map[3][4], Tile::empty());
    assert_eq!(map[2][4], Tile::wall());
}

#[test]
fn tunnels_include_both_ends() {
    let mut map = new_map(10, 10);
    create_horizontal_tunnel(7, 2, 4, &mut map);
    create_vertical_tunnel(1, 3, 8, &mut map);
    for x in 0..10 {
        assert_eq!(map[x][4].blocked, !(2..=7).contains(&x));
    }
    for y in 0..10 {
        assert_eq!(map[8][y].blocked, !(1..=3).contains(&y));
    }
    assert!(map[3][3].blocked);
}

#[test]
fn corridor_orientation_follows_the_flip() {
    let a = Rect::new(0, 0, 4, 4);
    let b = Rect::new(6, 6, 4, 4);
    let mut map = new_map(12, 12);
    create_corridor(a, b, true, &mut map);
    assert!(!map[8][2].blocked);
    assert!(map[2][8].blocked);
    let mut map = new_map(12, 12);
    create_corridor(a, b, false, &mut map);
    assert!(!map[2][8].blocked);
    assert!(map[8][2].blocked);
}

#[test]
fn placed_entities_stay_inside_the_room() {
    let mut map = new_map(20, 20);
    let room = Rect::new(3, 3, 8, 8);
    create_room(room, &mut map);
    for _ in 0..20 {
        let mut entities = vec![player()];
        place_entities(room, &map, &mut entities);
        assert!(entities.len() <= 6);
        for e in &entities[1..] {
            assert!(e.x > 3 && e.x < 11 && e.y > 3 && e.y < 11);
        }
    }
}

#[test]
fn monster_kind_follows_the_roll() {
    let orc = spawn_monster(4, 5, 79);
    assert_eq!(orc.name, "orc");
    assert_eq!(orc.char, 'o');
    assert_eq!(orc.fighter, Some(Fighter { max_hp: 10, hp: 10, defense: 0, power: 3, on_death: DeathCallback::Monster }));
    assert!(orc.alive && orc.blocks);
    assert_eq!(orc.get_location(), (4, 5));
    let troll = spawn_monster(4, 5, 80);
    assert_eq!(troll.name, "troll");
    assert_eq!(troll.color, Color::DarkerGreen);
    assert_eq!(troll.fighter, Some(Fighter { max_hp: 16, hp: 16, defense: 1, power: 4, on_death: DeathCallback::Monster }));
    assert_eq!(troll.ai, Some(AI::Basic));
}

#[test]
fn item_kind_follows_cumulative_thresholds() {
    assert_eq!(spawn_item(1, 1, 0).item, Some(Item::Heal));
    assert_eq!(spawn_item(1, 1, 69).item, Some(Item::Heal));
    assert_eq!(spawn_item(1, 1, 70).item, Some(Item::Lightning));
    assert_eq!(spawn_item(1, 1, 79).item, Some(Item::Lightning));
    assert_eq!(spawn_item(1, 1, 80).item, Some(Item::Confuse));
    assert_eq!(spawn_item(1, 1, 99).name, "scroll of confusion");
    assert!(!spawn_item(1, 1, 5).blocks);
}

#[test]
fn rect_geometry() {
    let r = Rect::new(1, 2, 6, 7);
    assert_eq!((r.x1, r.y1, r.x2, r.y2), (1, 2, 7, 9));
    assert_eq!(r.center(), (4, 5));
    let a = Rect::new(0, 0, 5, 5);
    assert!(a.intersects_with(&Rect::new(5, 0, 5, 5)));
    assert!(!a.intersects_with(&Rect::new(6, 0, 5, 5)));
    assert!(a.intersects_with(&Rect::new(2, 2, 1, 1)));
    assert_eq!(Rect::new(-5, -5, 2, 2).center(), (-4, -4));
}

#[test]
fn explored_is_set_by_view_and_kept() {
    let mut map = new_map(3, 3);
    let mut fov = vec![vec![false; 3]; 3];
    fov[1][2] = true;
    update_explored(&mut map, &fov);
    assert!(map[1][2].explored);
    assert!(!map[0][0].explored);
    update_explored(&mut map, &vec![vec![false; 3]; 3]);
    assert!(map[1][2].explored);
    assert!(map[1][2].blocked);
}

#[test]
fn generated_levels_differ() {
    let mut starts = Vec::new();
    let mut maps = Vec::new();
    for _ in 0..10 {
        let mut entities = vec![player()];
        maps.push(make_map(&mut entities));
        starts.push(entities[0].get_location());
    }
    assert!(maps.iter().any(|m| *m != maps[0]) || starts.iter().any(|s| *s != starts[0]));
}

#[test]
fn room_walls_may_reach_past_the_edge() {
    let mut map = new_map(10, 10);
    create_room(Rect::new(5, 5, 5, 5), &mut map);
    assert!(!map[9][9].blocked);
    assert!(!map[6][6].blocked);
    assert!(map[5][9].blocked);
}

#[test]
fn populate_spawns_each_draw_on_a_free_cell() {
    let mut map = new_map(20, 20);
    let room = Rect::new(3, 3, 8, 8);
    create_room(room, &mut map);
    let mut entities = vec![player()];
    entities[0].set_location(8, 8);
    let monsters = vec![(5, 5, 10), (5, 5, 90), (6, 6, 85), (8, 8, 0)];
    let items = vec![(5, 5, 50), (7, 7, 75), (7, 7, 99), (8, 8, 0), (4, 4, 0)];
    populate(room, &map, &monsters, &items, &mut entities);
    assert_eq!(entities.len(), 6);
    assert_eq!((entities[1].name.as_str(), entities[1].get_location()), ("orc", (5, 5)));
    assert_eq!((entities[2].name.as_str(), entities[2].get_location()), ("troll", (6, 6)));
    assert_eq!(entities[3].item, Some(Item::Lightning));
    assert_eq!(entities[3].get_location(), (7, 7));
    assert_eq!(entities[4].item, Some(Item::Confuse));
    assert_eq!(entities[4].get_location(), (7, 7));
    assert_eq!(entities[5].item, Some(Item::Heal));
    assert_eq!(entities[5].get_location(), (4, 4));
}

#[test]
fn build_level_rejects_overlapping_attempts() {
    let attempts = vec![Rect::new(1, 1, 6, 6), Rect::new(3, 3, 6, 6), Rect::new(20, 10, 8, 7)];
    let flips = vec![false, false, true];
    let mut entities = vec![player()];
    let map = build_level(&attempts, &flips, &mut entities);
    assert_eq!(entities[0].get_location(), (4, 4));
    assert!(!map[5][5].blocked);
    assert!(!map[24][13].blocked);
    assert!(!map[15][4].blocked);
    assert!(!map[24][8].blocked);
    assert!(map[8][8].blocked);
    assert!(map[4][10].blocked);
    for e in &entities[1..] {
        assert!(!map[e.x as usize][e.y as usize].blocked);
    }
}
