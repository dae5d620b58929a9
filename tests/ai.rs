use roguelike::ai::ai_take_turn;
use roguelike::color::Color;
use roguelike::entity::{DeathCallback, Entity, Fighter, AI};
use roguelike::game::Game;
use roguelike::messages::Messages;
use roguelike::tile::{carve_tile, new_map, Fov, TileMap};
use roguelike::turn::take_ai_turns;

fn monster(x: i32, y: i32, name: &str, hp: i32, defense: i32, power: i32) -> Entity {
    let mut e = Entity::new(x, y, 'o', name, Color::DesaturatedGreen, true);
    e.fighter = Some(Fighter { max_hp: hp, hp, defense, power, on_death: DeathCallback::Monster });
    e.ai = Some(AI::Basic);
    e.alive = true;
    e
}

fn player(x: i32, y: i32) -> Entity {
    let mut p = Entity::new(x, y, '@', "player", Color::White, true);
    p.fighter = Some(Fighter { max_hp: 30, hp: 30, defense: 2, power: 5, on_death: DeathCallback::Player });
    p.alive = true;
    p
}

fn open_map(width: usize, height: usize) -> TileMap {
    let mut map = new_map(width, height);
    for x in 1..width - 1 {
        for y in 1..height - 1 {
            carve_tile(&mut map, x, y);
        }
    }
    map
}

fn game() -> Game {
    Game { map: open_map(12, 12), messages: Messages::new(), inventory: vec![] }
}

fn fov(visible: bool) -> Fov {
    vec![vec![visible; 12]; 12]
}

#[test]
fn confused_ai_counts_down_then_restores() {
    let mut g = game();
    let mut entities = vec![player(1, 1), monster(5, 5, "orc", 10, 0, 3)];
    entities[1].ai = Some(AI::Confused { previous_ai: Box::new(AI::Basic), num_turns: 0 });
    ai_take_turn(1, &fov(true), &mut g, &mut entities);
    assert_eq!(entities[1].ai, Some(AI::Confused { previous_ai: Box::new(AI::Basic), num_turns: -1 }));
    assert!((entities[1].x - 5).abs() <= 1 && (entities[1].y - 5).abs() <= 1);
    assert_eq!(g.messages.len(), 0);
    let position = entities[1].get_location();
    ai_take_turn(1, &fov(true), &mut g, &mut entities);
    assert_eq!(entities[1].ai, Some(AI::Basic));
    assert_eq!(entities[1].get_location(), position);
    assert_eq!(g.messages.len(), 1);
    assert_eq!(g.messages.get(0), ("The orc is no longer confused!", Color::Red));
}

#[test]
fn confusion_restores_the_wrapped_state_exactly() {
    let mut g = game();
    let mut entities = vec![player(1, 1), monster(5, 5, "orc", 10, 0, 3)];
    let inner = AI::Confused { previous_ai: Box::new(AI::Basic), num_turns: 3 };
    entities[1].ai = Some(AI::Confused { previous_ai: Box::new(inner), num_turns: -1 });
    ai_take_turn(1, &fov(false), &mut g, &mut entities);
    assert_eq!(entities[1].ai, Some(AI::Confused { previous_ai: Box::new(AI::Basic), num_turns: 3 }));
}

#[test]
fn basic_ai_walks_toward_visible_player() {
    let mut g = game();
    let mut entities = vec![player(2, 5), monster(6, 5, "orc", 10, 0, 3)];
    ai_take_turn(1, &fov(true), &mut g, &mut entities);
    assert_eq!(entities[1].get_location(), (5, 5));
    assert_eq!(entities[1].ai, Some(AI::Basic));
    assert_eq!(g.messages.len(), 0);
}

#[test]
fn basic_ai_attacks_adjacent_player() {
    let mut g = game();
    let mut entities = vec![player(2, 5), monster(3, 6, "orc", 10, 0, 3)];
    ai_take_turn(1, &fov(true), &mut g, &mut entities);
    assert_eq!(entities[1].get_location(), (3, 6));
    assert_eq!(entities[0].fighter.unwrap().hp, 29);
    assert_eq!(g.messages.get(0).0, "orc attacks player for 1 hit points.");
}

#[test]
fn basic_ai_spares_a_player_without_hit_points() {
    let mut g = game();
    let mut entities = vec![player(2, 5), monster(3, 5, "orc", 10, 0, 3)];
    entities[0].fighter = Some(Fighter { max_hp: 30, hp: 0, defense: 2, power: 5, on_death: DeathCallback::Player });
    ai_take_turn(1, &fov(true), &mut g, &mut entities);
    assert_eq!(entities[0].fighter.unwrap().hp, 0);
    assert_eq!(g.messages.len(), 0);
}

#[test]
fn basic_ai_waits_out_of_view() {
    let mut g = game();
    let mut entities = vec![player(2, 5), monster(6, 5, "orc", 10, 0, 3)];
    ai_take_turn(1, &fov(false), &mut g, &mut entities);
    assert_eq!(entities[1].get_location(), (6, 5));
}

#[test]
fn entity_without_ai_does_nothing() {
    let mut g = game();
    let mut entities = vec![player(2, 5), Entity::new(6, 5, '!', "healing potion", Color::Violet, false)];
    ai_take_turn(1, &fov(true), &mut g, &mut entities);
    assert_eq!(entities[1].get_location(), (6, 5));
    assert!(entities[1].ai.is_none());
}

#[test]
fn sweep_gives_each_monster_one_turn() {
    let mut g = game();
    let mut entities = vec![player(2, 2), monster(6, 2, "orc", 10, 0, 3), monster(2, 8, "troll", 16, 1, 4)];
    take_ai_turns(&fov(true), &mut g, &mut entities);
    assert_eq!(entities[1].get_location(), (5, 2));
    assert_eq!(entities[2].get_location(), (2, 7));
    assert_eq!(entities[0].get_location(), (2, 2));
}

#[test]
fn confusion_wears_off_after_num_turns_plus_two() {
    let mut g = game();
    let mut entities = vec![player(1, 1), monster(5, 5, "orc", 10, 0, 3)];
    entities[1].ai = Some(AI::Confused { previous_ai: Box::new(AI::Basic), num_turns: 2 });
    for _ in 0..3 {
        ai_take_turn(1, &fov(false), &mut g, &mut entities);
        assert!(matches!(entities[1].ai, Some(AI::Confused { .. })));
    }
    ai_take_turn(1, &fov(false), &mut g, &mut entities);
    assert_eq!(entities[1].ai, Some(AI::Basic));
    assert_eq!(g.messages.len(), 1);
}
