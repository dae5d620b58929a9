use roguelike::color::Color;
use roguelike::entity::{DeathCallback, Entity, Fighter, Item, AI};
use roguelike::game::Game;
use roguelike::messages::Messages;
use roguelike::tile::{carve_tile, new_map, Fov, TileMap};
use roguelike::turn::{get_names_under_mouse, handle_input, play_turn, player_move_or_attack, PlayerAction, PlayerInput};

fn monster(x: i32, y: i32, name: &str, hp: i32) -> Entity {
    let mut e = Entity::new(x, y, 'o', name, Color::DesaturatedGreen, true);
    e.fighter = Some(Fighter { max_hp: hp, hp, defense: 0, power: 3, on_death: DeathCallback::Monster });
    e.ai = Some(AI::Basic);
    e.alive = true;
    e
}

fn player(x: i32, y: i32) -> Entity {
    let mut p = Entity::new(x, y, '@', "player", Color::White, true);
    p.fighter = Some(Fighter { max_hp: 30, hp: 30, defense: 2, power: 5, on_death: DeathCallback::Player });
    p.alive = true;
    p
}

fn potion(x: i32, y: i32) -> Entity {
    let mut e = Entity::new(x, y, '!', "healing potion", Color::Violet, false);
    e.item = Some(Item::Heal);
    e
}

fn open_map(width: usize, height: usize) -> TileMap {
    let mut map = new_map(width, height);
    for x in 1..width - 1 {
        for y in 1..height - 1 {
            carve_tile(&mut map, x, y);
        }
    }
    map
}

fn game() -> Game {
    Game { map: open_map(12, 12), messages: Messages::new(), inventory: vec![] }
}

fn fov(visible: bool) -> Fov {
    vec![vec![visible; 12]; 12]
}

#[test]
fn move_into_free_cell_takes_turn() {
    let mut g = game();
    let mut entities = vec![player(5, 5)];
    assert_eq!(handle_input(PlayerInput::Up, &fov(true), &mut g, &mut entities), PlayerAction::TookTurn);
    assert_eq!(entities[0].get_location(), (5, 4));
    assert_eq!(handle_input(PlayerInput::Left, &fov(true), &mut g, &mut entities), PlayerAction::TookTurn);
    assert_eq!(entities[0].get_location(), (4, 4));
}

#[test]
fn move_into_wall_takes_no_turn() {
    let mut g = game();
    let mut entities = vec![player(1, 1)];
    assert_eq!(handle_input(PlayerInput::Left, &fov(true), &mut g, &mut entities), PlayerAction::DidntTakeTurn);
    assert_eq!(entities[0].get_location(), (1, 1));
}

#[test]
fn moving_onto_a_monster_attacks_it() {
    let mut g = game();
    let mut entities = vec![player(5, 5), monster(6, 5, "orc", 10)];
    assert!(player_move_or_attack(1, 0, &mut g, &mut entities));
    assert_eq!(entities[0].get_location(), (5, 5));
    assert_eq!(entities[1].fighter.unwrap().hp, 5);
    assert_eq!(g.messages.get(0).0, "player attacks orc for 5 hit points.");
}

#[test]
fn dead_player_cannot_act() {
    let mut g = game();
    let mut entities = vec![player(5, 5)];
    entities[0].alive = false;
    assert_eq!(handle_input(PlayerInput::Down, &fov(true), &mut g, &mut entities), PlayerAction::DidntTakeTurn);
    assert_eq!(entities[0].get_location(), (5, 5));
    assert_eq!(handle_input(PlayerInput::Exit, &fov(true), &mut g, &mut entities), PlayerAction::Exit);
}

#[test]
fn pick_up_takes_turn_and_moves_item() {
    let mut g = game();
    let mut entities = vec![player(5, 5), potion(5, 5)];
    assert_eq!(handle_input(PlayerInput::PickUp, &fov(true), &mut g, &mut entities), PlayerAction::TookTurn);
    assert_eq!(entities.len(), 1);
    assert_eq!(g.inventory.len(), 1);
}

#[test]
fn pick_up_with_nothing_here_takes_no_turn() {
    let mut g = game();
    let mut entities = vec![player(5, 5), potion(6, 5)];
    assert_eq!(handle_input(PlayerInput::PickUp, &fov(true), &mut g, &mut entities), PlayerAction::DidntTakeTurn);
    assert_eq!(entities.len(), 2);
}

#[test]
fn inventory_use_takes_turn_only_when_used_up() {
    let mut g = game();
    g.inventory.push(potion(0, 0));
    let mut entities = vec![player(5, 5)];
    let input = PlayerInput::Inventory(Some(0));
    assert_eq!(handle_input(input, &fov(true), &mut g, &mut entities), PlayerAction::DidntTakeTurn);
    assert_eq!(handle_input(PlayerInput::Inventory(None), &fov(true), &mut g, &mut entities), PlayerAction::DidntTakeTurn);
    assert_eq!(handle_input(PlayerInput::Inventory(Some(4)), &fov(true), &mut g, &mut entities), PlayerAction::DidntTakeTurn);
    entities[0].fighter = Some(Fighter { max_hp: 30, hp: 10, defense: 2, power: 5, on_death: DeathCallback::Player });
    assert_eq!(handle_input(input, &fov(true), &mut g, &mut entities), PlayerAction::TookTurn);
    assert!(g.inventory.is_empty());
}

#[test]
fn other_inputs_take_no_turn() {
    let mut g = game();
    let mut entities = vec![player(5, 5)];
    assert_eq!(handle_input(PlayerInput::ToggleFullscreen, &fov(true), &mut g, &mut entities), PlayerAction::DidntTakeTurn);
    assert_eq!(handle_input(PlayerInput::Other, &fov(true), &mut g, &mut entities), PlayerAction::DidntTakeTurn);
}

#[test]
fn monsters_act_only_after_a_turn() {
    let mut g = game();
    let mut entities = vec![player(1, 1), monster(8, 1, "orc", 10)];
    assert_eq!(play_turn(PlayerInput::Left, &fov(true), &mut g, &mut entities), PlayerAction::DidntTakeTurn);
    assert_eq!(entities[1].get_location(), (8, 1));
    assert_eq!(play_turn(PlayerInput::Down, &fov(true), &mut g, &mut entities), PlayerAction::TookTurn);
    assert_eq!(entities[0].get_location(), (1, 2));
    assert_eq!(entities[1].get_location(), (7, 1));
    assert_eq!(play_turn(PlayerInput::Exit, &fov(true), &mut g, &mut entities), PlayerAction::Exit);
    assert_eq!(entities[1].get_location(), (7, 1));
}

#[test]
fn names_of_visible_entities_on_a_cell() {
    let entities = vec![player(5, 5), potion(3, 3), monster(3, 3, "orc", 10), monster(4, 3, "troll", 10)];
    assert_eq!(get_names_under_mouse(3, 3, &entities, &fov(true)), "healing potion orc");
    assert_eq!(get_names_under_mouse(3, 3, &entities, &fov(false)), "");
    assert_eq!(get_names_under_mouse(9, 9, &entities, &fov(true)), "");
}
