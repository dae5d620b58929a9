use vstd::prelude::*;

use crate::color::Color;
use crate::entity::{damage_taken, entity_sq_dist, healed_hp, Entity, Fighter, Item, UseResult, AI};
use crate::game::{Game, INVENTORY_CAPACITY, PLAYER_ID};
use crate::messages::{append_decimal, decimal, LogLine};
use crate::tile::{is_in_fov, visible_at, Fov};

verus! {

pub const HEAL_AMOUNT: i32 = 4;
pub const LIGHTNING_DAMAGE: i32 = 40;
pub const LIGHTNING_RANGE: i32 = 5;
pub const CONFUSE_RANGE: i32 = 8;
pub const CONFUSE_NUM_TURNS: i32 = 10;

/// Entity `i` is a monster a spell can target: not the player, able to fight,
/// driven by an AI and in view.
pub open spec fn is_target(fov: Fov, entities: Seq<Entity>, i: int) -> bool {
    &&& i != PLAYER_ID
    &&& entities[i].fighter is Some
    &&& entities[i].ai is Some
    &&& visible_at(fov, entities[i].x as int, entities[i].y as int)
}

/// A squared distance `d` lies within `max_range`; nothing does when the
/// range is negative.
pub open spec fn within_range(d: int, max_range: int) -> bool {
    max_range >= 0 && d <= max_range * max_range
}

pub open spec fn target_dist(entities: Seq<Entity>, i: int) -> int {
    entity_sq_dist(entities[PLAYER_ID as int], entities[i])
}

/// Entity `m` is the target closest to the player within `max_range`, the
/// first in roster order among equally close ones.
pub open spec fn nearest_target(fov: Fov, entities: Seq<Entity>, max_range: int, m: int) -> bool {
    &&& 0 <= m < entities.len()
    &&& is_target(fov, entities, m)
    &&& within_range(target_dist(entities, m), max_range)
    &&& forall|j: int|
        0 <= j < entities.len() && is_target(fov, entities, j) && within_range(
            target_dist(entities, j),
            max_range,
        ) ==> target_dist(entities, m) <= #[trigger] target_dist(entities, j)
    &&& forall|j: int|
        0 <= j < m && is_target(fov, entities, j) && within_range(target_dist(entities, j), max_range)
            ==> target_dist(entities, m) < #[trigger] target_dist(entities, j)
}

/// Some target lies within `max_range` of the player.
pub open spec fn target_in_range(fov: Fov, entities: Seq<Entity>, max_range: int) -> bool {
    exists|j: int|
        0 <= j < entities.len() && is_target(fov, entities, j) && within_range(
            #[trigger] target_dist(entities, j),
            max_range,
        )
}

/// The monster in view closest to the player and at most `max_range` away,
/// by Euclidean distance; ties go to the earliest in the roster.
pub fn closest_monster(fov: &Fov, entities: &[Entity], max_range: i32) -> (r: Option<usize>)
    requires
        PLAYER_ID < entities@.len(),
    ensures
        match r {
            Some(m) => nearest_target(*fov, entities@, max_range as int, m as int),
            None => !target_in_range(*fov, entities@, max_range as int),
        },
{
    if max_range < 0 {
        return None;
    }
    let reach = max_range as i64;
    assert(0 <= reach * reach <= 0x4000_0000_0000_0000) by (nonlinear_arith)
        requires
            0 <= reach <= 0x8000_0000,
    ;
    let limit: u128 = (reach * reach) as u128;
    let mut closest_enemy: Option<usize> = None;
    let mut closest_dist: u128 = 0;
    let mut id: usize = 0;
    while id < entities.len()
        invariant
            PLAYER_ID < entities@.len(),
            id <= entities@.len(),
            max_range >= 0,
            limit == max_range * max_range,
            match closest_enemy {
                None => forall|j: int|
                    0 <= j < id && is_target(*fov, entities@, j) ==> !within_range(
                        #[trigger] target_dist(entities@, j),
                        max_range as int,
                    ),
                Some(c) => {
                    &&& c < id
                    &&& is_target(*fov, entities@, c as int)
                    &&& closest_dist == target_dist(entities@, c as int)
                    &&& closest_dist <= limit
                    &&& forall|j: int|
                        0 <= j < id && is_target(*fov, entities@, j) && within_range(
                            target_dist(entities@, j),
                            max_range as int,
                        ) ==> closest_dist <= #[trigger] target_dist(entities@, j)
                    &&& forall|j: int|
                        0 <= j < c && is_target(*fov, entities@, j) && within_range(
                            target_dist(entities@, j),
                            max_range as int,
                        ) ==> closest_dist < #[trigger] target_dist(entities@, j)
                },
            },
        decreases entities@.len() - id,
    {
        let object = &entities[id];
        if id != PLAYER_ID && object.fighter.is_some() && object.ai.is_some() && is_in_fov(
            fov,
            object.x,
            object.y,
        ) {
            let dist = entities[PLAYER_ID].distance_squared_to(object);
            if dist <= limit && (closest_enemy.is_none() || dist < closest_dist) {
                closest_enemy = Some(id);
                closest_dist = dist;
            }
        }
        id = id + 1;
    }
    closest_enemy
}

pub open spec fn unchanged_world(before: Game, after: Game) -> bool {
    after.map == before.map && after.inventory == before.inventory
}

/// What a healing potion does to the roster and the log: a player already at
/// full health is told so and the potion is kept; a wounded one heals.
pub open spec fn heal_effect(
    before: Seq<Entity>,
    log: Seq<LogLine>,
    after: Seq<Entity>,
    log_after: Seq<LogLine>,
    r: UseResult,
) -> bool {
    let p = before[PLAYER_ID as int];
    match p.fighter {
        Some(f) => if f.hp == f.max_hp {
            &&& r == UseResult::Cancelled
            &&& after == before
            &&& log_after == log.push(("You are already at full health."@, Color::Red))
        } else {
            &&& r == UseResult::UsedUp
            &&& after == before.update(
                PLAYER_ID as int,
                Entity {
                    fighter: Some(Fighter { hp: healed_hp(f, HEAL_AMOUNT as int) as i32, ..f }),
                    ..p
                },
            )
            &&& log_after == log.push(("Your wounds start to feel better!"@, Color::LightViolet))
        },
        None => r == UseResult::Cancelled && after == before && log_after == log,
    }
}

pub open spec fn no_enemy_line() -> LogLine {
    ("No enemy is close enough to strike."@, Color::Red)
}

pub open spec fn lightning_text(target: Entity) -> Seq<char> {
    "A lightning bolt strikes the "@ + target.name@ + " with a loud thunder! The damage is "@
        + decimal(LIGHTNING_DAMAGE as int) + " hit points."@
}

/// What a lightning scroll does: the nearest target within range takes the
/// full damage, defense notwithstanding; without a target nothing happens.
pub open spec fn lightning_effect(
    fov: Fov,
    before: Seq<Entity>,
    log: Seq<LogLine>,
    after: Seq<Entity>,
    log_after: Seq<LogLine>,
    r: UseResult,
) -> bool {
    if target_in_range(fov, before, LIGHTNING_RANGE as int) {
        &&& r == UseResult::UsedUp
        &&& after.len() == before.len()
        &&& exists|m: int|
            #[trigger] nearest_target(fov, before, LIGHTNING_RANGE as int, m) && after == before.update(
                m,
                after[m],
            ) && damage_taken(
                before[m],
                LIGHTNING_DAMAGE as int,
                after[m],
                log.push((lightning_text(before[m]), Color::LightBlue)),
                log_after,
            )
    } else {
        r == UseResult::Cancelled && after == before && log_after == log.push(no_enemy_line())
    }
}

pub open spec fn confusion_text(target: Entity) -> Seq<char> {
    "The eyes of "@ + target.name@ + " look vacant, as he starts to stumble around!"@
}

/// What a confusion scroll does: the nearest target within range gets its AI
/// wrapped in a confusion that lasts `CONFUSE_NUM_TURNS` turns.
pub open spec fn confuse_effect(
    fov: Fov,
    before: Seq<Entity>,
    log: Seq<LogLine>,
    after: Seq<Entity>,
    log_after: Seq<LogLine>,
    r: UseResult,
) -> bool {
    if target_in_range(fov, before, CONFUSE_RANGE as int) {
        &&& r == UseResult::UsedUp
        &&& exists|m: int|
            #[trigger] nearest_target(fov, before, CONFUSE_RANGE as int, m) && after == before.update(
                m,
                Entity {
                    ai: Some(
                        AI::Confused {
                            previous_ai: Box::new(before[m].ai.unwrap()),
                            num_turns: CONFUSE_NUM_TURNS,
                        },
                    ),
                    ..before[m]
                },
            ) && log_after == log.push((confusion_text(before[m]), Color::LightGreen))
    } else {
        r == UseResult::Cancelled && after == before && log_after == log.push(no_enemy_line())
    }
}

/// What using an item of kind `item` does to the roster and the log.
pub open spec fn item_effect(
    item: Item,
    fov: Fov,
    before: Seq<Entity>,
    log: Seq<LogLine>,
    after: Seq<Entity>,
    log_after: Seq<LogLine>,
    r: UseResult,
) -> bool {
    match item {
        Item::Heal => heal_effect(before, log, after, log_after, r),
        Item::Lightning => lightning_effect(fov, before, log, after, log_after, r),
        Item::Confuse => confuse_effect(fov, before, log, after, log_after, r),
    }
}

/// Heals the player by `HEAL_AMOUNT`, unless already at full health.
pub fn cast_heal(_inventory_id: usize, game: &mut Game, entities: &mut [Entity]) -> (r: UseResult)
    requires
        PLAYER_ID < old(entities)@.len(),
    ensures
        heal_effect(old(entities)@, old(game).messages@, final(entities)@, final(game).messages@, r),
        unchanged_world(*old(game), *final(game)),
{
    if let Some(fighter) = entities[PLAYER_ID].fighter {
        if fighter.hp == fighter.max_hp {
            game.messages.add(String::from_str("You are already at full health."), Color::Red);
            return UseResult::Cancelled;
        }
        game.messages.add(String::from_str("Your wounds start to feel better!"), Color::LightViolet);
        entities[PLAYER_ID].heal(HEAL_AMOUNT);
        return UseResult::UsedUp;
    }
    UseResult::Cancelled
}

/// Strikes the nearest monster within `LIGHTNING_RANGE` for
/// `LIGHTNING_DAMAGE`.
pub fn cast_lightning(_inventory_id: usize, fov: &Fov, game: &mut Game, entities: &mut [Entity]) -> (r:
    UseResult)
    requires
        PLAYER_ID < old(entities)@.len(),
    ensures
        lightning_effect(
            *fov,
            old(entities)@,
            old(game).messages@,
            final(entities)@,
            final(game).messages@,
            r,
        ),
        unchanged_world(*old(game), *final(game)),
{
    let monster_id = closest_monster(fov, entities, LIGHTNING_RANGE);
    if let Some(monster_id) = monster_id {
        let mut text = String::from_str("A lightning bolt strikes the ");
        text.append(entities[monster_id].name.as_str());
        text.append(" with a loud thunder! The damage is ");
        append_decimal(&mut text, LIGHTNING_DAMAGE);
        text.append(" hit points.");
        game.messages.add(text, Color::LightBlue);
        entities[monster_id].take_damage(LIGHTNING_DAMAGE, game);
        proof {
            let m = monster_id as int;
            assert(entities@ =~= old(entities)@.update(m, entities@[m]));
            assert(nearest_target(*fov, old(entities)@, LIGHTNING_RANGE as int, m));
        }
        UseResult::UsedUp
    } else {
        game.messages.add(String::from_str("No enemy is close enough to strike."), Color::Red);
        UseResult::Cancelled
    }
}

/// Confuses the nearest monster within `CONFUSE_RANGE` for
/// `CONFUSE_NUM_TURNS` turns.
pub fn cast_confuse(_inventory_id: usize, fov: &Fov, game: &mut Game, entities: &mut [Entity]) -> (r:
    UseResult)
    requires
        PLAYER_ID < old(entities)@.len(),
    ensures
        confuse_effect(
            *fov,
            old(entities)@,
            old(game).messages@,
            final(entities)@,
            final(game).messages@,
            r,
        ),
        unchanged_world(*old(game), *final(game)),
{
    let monster_id = closest_monster(fov, entities, CONFUSE_RANGE);
    if let Some(monster_id) = monster_id {
        let old_ai = match entities[monster_id].ai.take() {
            Some(ai) => ai,
            None => AI::Basic,
        };
        entities[monster_id].ai = Some(
            AI::Confused { previous_ai: Box::new(old_ai), num_turns: CONFUSE_NUM_TURNS },
        );
        let mut text = String::from_str("The eyes of ");
        text.append(entities[monster_id].name.as_str());
        text.append(" look vacant, as he starts to stumble around!");
        game.messages.add(text, Color::LightGreen);
        proof {
            let m = monster_id as int;
            assert(entities@ =~= old(entities)@.update(
                m,
                Entity {
                    ai: Some(
                        AI::Confused {
                            previous_ai: Box::new(old(entities)@[m].ai.unwrap()),
                            num_turns: CONFUSE_NUM_TURNS,
                        },
                    ),
                    ..old(entities)@[m]
                },
            ));
            assert(nearest_target(*fov, old(entities)@, CONFUSE_RANGE as int, m));
        }
        UseResult::UsedUp
    } else {
        game.messages.add(String::from_str("No enemy is close enough to strike."), Color::Red);
        UseResult::Cancelled
    }
}

pub open spec fn cannot_use_text(e: Entity) -> Seq<char> {
    "The "@ + e.name@ + " cannot be used."@
}

/// `after` and `game_after` are what using the item at `inventory_id` leaves
/// of the roster `before` and of `game`, the outcome being `r`.
pub open spec fn use_result(
    inventory_id: int,
    fov: Fov,
    before: Seq<Entity>,
    game: Game,
    after: Seq<Entity>,
    game_after: Game,
    r: UseResult,
) -> bool {
    &&& game_after.map == game.map
    &&& match game.inventory@[inventory_id].item {
        None => {
            &&& r == UseResult::Cancelled
            &&& after == before
            &&& game_after.inventory == game.inventory
            &&& game_after.messages@ == game.messages@.push(
                (cannot_use_text(game.inventory@[inventory_id]), Color::White),
            )
        },
        Some(item) => {
            &&& item_effect(
                item,
                fov,
                before,
                game.messages@,
                after,
                if r == UseResult::UsedUp {
                    game_after.messages@
                } else {
                    game_after.messages@.drop_last()
                },
                r,
            )
            &&& r == UseResult::UsedUp ==> game_after.inventory@ == game.inventory@.remove(
                inventory_id,
            )
            &&& r == UseResult::Cancelled ==> {
                &&& game_after.inventory == game.inventory
                &&& game_after.messages@.len() > 0
                &&& game_after.messages@.last() == ("Cancelled"@, Color::White)
            }
        },
    }
}

/// Uses the item at `inventory_id`: its effect runs, and the item leaves the
/// inventory when the effect used it up; a cancelled use is logged as such.
pub fn use_item(inventory_id: usize, fov: &Fov, game: &mut Game, entities: &mut [Entity]) -> (r:
    UseResult)
    requires
        inventory_id < old(game).inventory@.len(),
        PLAYER_ID < old(entities)@.len(),
    ensures
        use_result(
            inventory_id as int,
            *fov,
            old(entities)@,
            *old(game),
            final(entities)@,
            *final(game),
            r,
        ),
{
    if let Some(item) = game.inventory[inventory_id].item {
        let result = match item {
            Item::Heal => cast_heal(inventory_id, game, entities),
            Item::Lightning => cast_lightning(inventory_id, fov, game, entities),
            Item::Confuse => cast_confuse(inventory_id, fov, game, entities),
        };
        match result {
            UseResult::UsedUp => {
                game.inventory.remove(inventory_id);
            },
            UseResult::Cancelled => {
                let ghost effect_log = game.messages@;
                game.messages.add(String::from_str("Cancelled"), Color::White);
                assert(game.messages@.drop_last() =~= effect_log);
            },
        }
        result
    } else {
        let mut text = String::from_str("The ");
        text.append(game.inventory[inventory_id].name.as_str());
        text.append(" cannot be used.");
        game.messages.add(text, Color::White);
        UseResult::Cancelled
    }
}

pub open spec fn inventory_full_text(e: Entity) -> Seq<char> {
    "Your inventory is full, cannot pick up "@ + e.name@ + "."@
}

pub open spec fn picked_up_text(e: Entity) -> Seq<char> {
    "You picked up a "@ + e.name@ + "!"@
}

/// `after` and `game_after` are what picking up entity `object_id` leaves of
/// the roster `before` and of `game`.
pub open spec fn pick_up_result(
    object_id: int,
    before: Seq<Entity>,
    game: Game,
    after: Seq<Entity>,
    game_after: Game,
) -> bool {
    &&& game_after.map == game.map
    &&& if game.inventory@.len() >= INVENTORY_CAPACITY {
        &&& after == before
        &&& game_after.inventory == game.inventory
        &&& game_after.messages@ == game.messages@.push(
            (inventory_full_text(before[object_id]), Color::Red),
        )
    } else {
        &&& after == before.update(object_id, before.last()).drop_last()
        &&& game_after.inventory@ == game.inventory@.push(before[object_id])
        &&& game_after.messages@ == game.messages@.push(
            (picked_up_text(before[object_id]), Color::Green),
        )
    }
}

/// Moves entity `object_id` from the roster into the inventory, the last
/// entity of the roster taking its place; when the inventory is full nothing
/// moves and the failure is logged.
pub fn pick_item_up(object_id: usize, game: &mut Game, entities: &mut Vec<Entity>)
    requires
        object_id < old(entities)@.len(),
    ensures
        pick_up_result(object_id as int, old(entities)@, *old(game), final(entities)@, *final(game)),
{
    if game.inventory.len() >= INVENTORY_CAPACITY {
        let mut text = String::from_str("Your inventory is full, cannot pick up ");
        text.append(entities[object_id].name.as_str());
        text.append(".");
        game.messages.add(text, Color::Red);
    } else {
        let item = entities.swap_remove(object_id);
        let mut text = String::from_str("You picked up a ");
        text.append(item.name.as_str());
        text.append("!");
        game.messages.add(text, Color::Green);
        game.inventory.push(item);
    }
}

/// The position in the alphabet of an ASCII letter, either case; -1 for any
/// other character.
pub open spec fn letter_position(c: char) -> int {
    let code = c as u32 as int;
    if 97 <= code <= 122 {
        code - 97
    } else if 65 <= code <= 90 {
        code - 65
    } else {
        -1
    }
}

/// The option that the key `key` selects in a menu of `option_count`
/// options lettered from `a`: the letter's position, when it names an
/// option.
pub fn menu_choice(key: char, option_count: usize) -> (r: Option<usize>)
    requires
        option_count <= INVENTORY_CAPACITY,
    ensures
        r == if 0 <= letter_position(key) < option_count {
            Some(letter_position(key) as usize)
        } else {
            None::<usize>
        },
{
    let code = key as u32;
    let index: u32 = if 97 <= code && code <= 122 {
        code - 97
    } else if 65 <= code && code <= 90 {
        code - 65
    } else {
        return None;
    };
    if (index as usize) < option_count {
        Some(index as usize)
    } else {
        None
    }
}

/// The labels of the inventory menu: the item names in order, or a single
/// line saying that the inventory is empty.
pub fn inventory_options(inventory: &[Entity]) -> (r: Vec<String>)
    ensures
        inventory@.len() == 0 ==> r@.len() == 1 && r@[0]@ == "Inventory is empty."@,
        inventory@.len() > 0 ==> r@.len() == inventory@.len() && forall|i: int|
            0 <= i < r@.len() ==> (#[trigger] r@[i])@ == inventory@[i].name@,
{
    let mut options: Vec<String> = Vec::new();
    if inventory.len() == 0 {
        options.push(String::from_str("Inventory is empty."));
        return options;
    }
    let mut i: usize = 0;
    while i < inventory.len()
        invariant
            i <= inventory@.len(),
            options@.len() == i,
            forall|j: int| 0 <= j < i ==> (#[trigger] options@[j])@ == inventory@[j].name@,
        decreases inventory@.len() - i,
    {
        options.push(inventory[i].name.clone());
        i = i + 1;
    }
    options
}

} // verus!
