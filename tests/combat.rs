use roguelike::color::Color;
use roguelike::entity::{is_blocked, move_by, move_towards, mut_two, DeathCallback, Entity, Fighter, AI};
use roguelike::game::Game;
use roguelike::messages::{append_decimal, Messages};
use roguelike::tile::{carve_tile, new_map, TileMap};

fn fighter(max_hp: i32, hp: i32, defense: i32, power: i32, on_death: DeathCallback) -> Fighter {
    Fighter { max_hp, hp, defense, power, on_death }
}

fn monster(x: i32, y: i32, name: &str, hp: i32, defense: i32, power: i32) -> Entity {
    let mut e = Entity::new(x, y, 'o', name, Color::DesaturatedGreen, true);
    e.fighter = Some(fighter(hp, hp, defense, power, DeathCallback::Monster));
    e.ai = Some(AI::Basic);
    e.alive = true;
    e
}

fn player(x: i32, y: i32) -> Entity {
    let mut p = Entity::new(x, y, '@', "player", Color::White, true);
    p.fighter = Some(fighter(30, 30, 2, 5, DeathCallback::Player));
    p.alive = true;
    p
}

fn open_map(width: usize, height: usize) -> TileMap {
    let mut map = new_map(width, height);
    for x in 1..width - 1 {
        for y in 1..height - 1 {
            carve_tile(&mut map, x, y);
        }
    }
    map
}

fn game() -> Game {
    Game { map: open_map(10, 10), messages: Messages::new(), inventory: vec![] }
}

fn last_line(game: &Game) -> (String, Color) {
    let (text, color) = game.messages.get(game.messages.len() - 1);
    (text.to_string(), color)
}

#[test]
fn attack_deals_power_minus_defense() {
    let mut g = game();
    let mut attacker = player(1, 1);
    let mut target = monster(2, 1, "orc", 10, 2, 3);
    attacker.attack(&mut target, &mut g);
    assert_eq!(target.fighter.unwrap().hp, 7);
    assert_eq!(g.messages.len(), 1);
    assert_eq!(last_line(&g), ("player attacks orc for 3 hit points.".to_string(), Color::White));
}

#[test]
fn attack_without_effect_keeps_hp() {
    let mut g = game();
    let mut attacker = monster(1, 1, "orc", 10, 0, 2);
    let mut target = monster(2, 1, "troll", 16, 5, 4);
    attacker.attack(&mut target, &mut g);
    assert_eq!(target.fighter.unwrap().hp, 16);
    assert!(target.alive);
    assert_eq!(last_line(&g), ("orc attacks troll but it has no effect!".to_string(), Color::White));
}

#[test]
fn monster_killed_becomes_remains() {
    let mut g = game();
    let mut orc = monster(3, 3, "orc", 1, 0, 3);
    orc.take_damage(1, &mut g);
    assert!(!orc.alive);
    assert!(orc.fighter.is_none());
    assert!(orc.ai.is_none());
    assert!(!orc.blocks);
    assert_eq!(orc.name, "remains of orc");
    assert_eq!(orc.color, Color::DarkRed);
    assert_eq!((orc.x, orc.y), (3, 3));
    assert_eq!(last_line(&g), ("orc is dead!".to_string(), Color::Orange));
}

#[test]
fn lethal_attack_logs_attack_then_death() {
    let mut g = game();
    let mut attacker = player(1, 1);
    let mut target = monster(2, 1, "orc", 3, 0, 3);
    attacker.attack(&mut target, &mut g);
    assert_eq!(g.messages.len(), 2);
    assert_eq!(g.messages.get(0).0, "player attacks orc for 5 hit points.");
    assert_eq!(g.messages.get(1).0, "orc is dead!");
    assert_eq!(target.name, "remains of orc");
}

#[test]
fn player_death_keeps_fighter() {
    let mut g = game();
    let mut p = player(1, 1);
    p.fighter = Some(fighter(30, 1, 2, 5, DeathCallback::Player));
    p.take_damage(5, &mut g);
    assert!(!p.alive);
    assert_eq!(p.char, '%');
    assert_eq!(p.color, Color::DarkRed);
    assert_eq!(p.fighter.unwrap().hp, -4);
    assert_eq!(p.name, "player");
    assert_eq!(last_line(&g), ("You died!".to_string(), Color::Red));
}

#[test]
fn non_positive_damage_changes_nothing() {
    let mut g = game();
    let mut orc = monster(3, 3, "orc", 10, 0, 3);
    orc.take_damage(0, &mut g);
    orc.take_damage(-5, &mut g);
    assert_eq!(orc.fighter.unwrap().hp, 10);
    assert!(orc.alive);
    assert_eq!(g.messages.len(), 0);
}

#[test]
fn damage_saturates_at_the_lowest_hp() {
    let mut g = game();
    let mut orc = monster(3, 3, "orc", 10, 0, 3);
    orc.fighter = Some(fighter(10, i32::MIN + 1, 0, 3, DeathCallback::Monster));
    let mut p = player(1, 1);
    p.fighter = Some(fighter(30, i32::MIN + 1, 2, 5, DeathCallback::Player));
    p.take_damage(5, &mut g);
    assert_eq!(p.fighter.unwrap().hp, i32::MIN);
    orc.take_damage(5, &mut g);
    assert!(!orc.alive);
    assert_eq!(orc.name, "remains of orc");
}

#[test]
fn heal_clamps_to_max() {
    let mut p = player(1, 1);
    p.fighter = Some(fighter(30, 28, 2, 5, DeathCallback::Player));
    p.heal(4);
    assert_eq!(p.fighter.unwrap().hp, 30);
    p.heal(4);
    assert_eq!(p.fighter.unwrap().hp, 30);
}

#[test]
fn heal_adds_amount_below_max() {
    let mut p = player(1, 1);
    p.fighter = Some(fighter(30, 10, 2, 5, DeathCallback::Player));
    p.heal(4);
    assert_eq!(p.fighter.unwrap().hp, 14);
}

#[test]
fn heal_without_fighter_changes_nothing() {
    let mut potion = Entity::new(1, 1, '!', "healing potion", Color::Violet, false);
    potion.heal(4);
    assert!(potion.fighter.is_none());
}

#[test]
fn squared_distance() {
    let a = player(1, 2);
    let b = monster(4, 6, "orc", 10, 0, 3);
    assert_eq!(a.distance_squared_to(&b), 25);
    assert_eq!(b.distance_squared_to(&a), 25);
}

#[test]
fn location_accessors() {
    let mut e = Entity::new(1, 2, 'o', "orc", Color::White, true);
    assert_eq!(e.get_location(), (1, 2));
    e.set_location(7, 8);
    assert_eq!(e.get_location(), (7, 8));
    assert!(!e.alive);
    assert!(e.fighter.is_none() && e.ai.is_none() && e.item.is_none());
}

#[test]
fn mut_two_gives_both_elements() {
    let mut v = vec![1, 2, 3];
    {
        let (a, b) = mut_two(2, 0, &mut v);
        assert_eq!((*a, *b), (3, 1));
        *a = 30;
        *b = 10;
    }
    assert_eq!(v, vec![10, 2, 30]);
    let (a, b) = mut_two(0, 1, &mut v);
    assert_eq!((*a, *b), (10, 2));
}

#[test]
fn walls_entities_and_outside_block() {
    let map = open_map(10, 10);
    let entities = vec![player(2, 2), Entity::new(3, 3, '!', "healing potion", Color::Violet, false)];
    assert!(is_blocked(0, 5, &map, &entities));
    assert!(is_blocked(2, 2, &map, &entities));
    assert!(!is_blocked(3, 3, &map, &entities));
    assert!(!is_blocked(4, 4, &map, &entities));
    assert!(is_blocked(-1, 4, &map, &entities));
    assert!(is_blocked(4, 10, &map, &entities));
}

#[test]
fn move_by_steps_unless_blocked() {
    let map = open_map(10, 10);
    let mut entities = vec![player(1, 1), monster(3, 1, "orc", 10, 0, 3)];
    move_by(0, 1, 0, &map, &mut entities);
    assert_eq!(entities[0].get_location(), (2, 1));
    move_by(0, 1, 0, &map, &mut entities);
    assert_eq!(entities[0].get_location(), (2, 1));
    move_by(0, 0, -1, &map, &mut entities);
    assert_eq!(entities[0].get_location(), (2, 1));
}

#[test]
fn move_towards_follows_rounded_direction() {
    let map = open_map(12, 12);
    let mut entities = vec![player(1, 1), monster(5, 5, "orc", 10, 0, 3)];
    move_towards(0, 4, 5, &map, &mut entities);
    assert_eq!(entities[0].get_location(), (2, 2));
    move_towards(0, 10, 3, &map, &mut entities);
    assert_eq!(entities[0].get_location(), (3, 2));
    move_towards(0, 3, 2, &map, &mut entities);
    assert_eq!(entities[0].get_location(), (3, 2));
    move_towards(0, 3, 9, &map, &mut entities);
    assert_eq!(entities[0].get_location(), (3, 3));
}

#[test]
fn decimal_text() {
    let mut s = String::from("n=");
    append_decimal(&mut s, 40);
    assert_eq!(s, "n=40");
    let mut s = String::new();
    append_decimal(&mut s, -120);
    assert_eq!(s, "-120");
    let mut s = String::new();
    append_decimal(&mut s, 0);
    assert_eq!(s, "0");
    let mut s = String::new();
    append_decimal(&mut s, i32::MIN);
    assert_eq!(s, "-2147483648");
}
