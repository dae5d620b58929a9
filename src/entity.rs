use vstd::prelude::*;

use crate::color::Color;
use crate::game::Game;
use crate::messages::{append_decimal, decimal, LogLine};
use crate::tile::{in_map, map_wf, tile_at, TileMap};

verus! {

/// Combat statistics of an entity that can fight.
#[derive(Clone, Copy, Debug, PartialEq, Eq, Structural)]
pub struct Fighter {
    pub max_hp: i32,
    pub hp: i32,
    pub defense: i32,
    pub power: i32,
    pub on_death: DeathCallback,
}

/// Which death transition runs when a fighter's hit points reach zero.
#[derive(Clone, Copy, Debug, PartialEq, Eq, Structural)]
pub enum DeathCallback {
    Player,
    Monster,
}

/// Behaviour of a computer-controlled entity. `Confused` wraps the
/// behaviour that comes back once the confusion wears off.
#[derive(Debug, PartialEq)]
pub enum AI {
    Basic,
    Confused { previous_ai: Box<AI>, num_turns: i32 },
}

/// The effect an item has when used.
#[derive(Clone, Copy, Debug, PartialEq, Eq, Structural)]
pub enum Item {
    Heal,
    Lightning,
    Confuse,
}

/// Whether using an item consumed it.
#[derive(Clone, Copy, Debug, PartialEq, Eq, Structural)]
pub enum UseResult {
    UsedUp,
    Cancelled,
}

/// The player, a monster or an item lying on the ground; which one it is
/// follows from the components it carries.
#[derive(Debug)]
pub struct Entity {
    pub x: i32,
    pub y: i32,
    pub char: char,
    pub color: Color,
    pub name: String,
    pub blocks: bool,
    pub alive: bool,
    pub fighter: Option<Fighter>,
    pub ai: Option<AI>,
    pub item: Option<Item>,
}

/// `v` clamped to the range of `i32`.
pub open spec fn saturate(v: int) -> int {
    if v < i32::MIN {
        i32::MIN as int
    } else if v > i32::MAX {
        i32::MAX as int
    } else {
        v
    }
}

fn saturating(v: i64) -> (r: i32)
    ensures
        r == saturate(v as int),
{
    if v < i32::MIN as i64 {
        i32::MIN
    } else if v > i32::MAX as i64 {
        i32::MAX
    } else {
        v as i32
    }
}

/// Squared Euclidean distance between two cells.
pub open spec fn sq_dist(x1: int, y1: int, x2: int, y2: int) -> int {
    (x2 - x1) * (x2 - x1) + (y2 - y1) * (y2 - y1)
}

pub open spec fn entity_sq_dist(a: Entity, b: Entity) -> int {
    sq_dist(a.x as int, a.y as int, b.x as int, b.y as int)
}

/// The fighter once `damage` is taken off its hit points; damage of zero or
/// less leaves it as it was.
pub open spec fn hurt(f: Option<Fighter>, damage: int) -> Option<Fighter> {
    match f {
        Some(g) => if damage > 0 {
            Some(Fighter { hp: saturate(g.hp - damage) as i32, ..g })
        } else {
            Some(g)
        },
        None => None,
    }
}

/// The entity has a fighter whose hit points are used up.
pub open spec fn is_fatal(f: Option<Fighter>) -> bool {
    match f {
        Some(g) => g.hp <= 0,
        None => false,
    }
}

/// What a dead monster leaves behind: inert, coloured remains.
pub open spec fn monster_remains(e: Entity, after: Entity) -> bool {
    &&& after.x == e.x
    &&& after.y == e.y
    &&& after.char == e.char
    &&& after.color == Color::DarkRed
    &&& after.name@ == "remains of "@ + e.name@
    &&& !after.blocks
    &&& after.alive == e.alive
    &&& after.fighter is None
    &&& after.ai is None
    &&& after.item == e.item
}

/// `after` and `log_after` are what the death transition of `e` leaves of it
/// and of the message log `log`.
pub open spec fn death_result(
    e: Entity,
    after: Entity,
    log: Seq<LogLine>,
    log_after: Seq<LogLine>,
) -> bool {
    match e.fighter.unwrap().on_death {
        DeathCallback::Player => {
            &&& after == Entity { char: '%', color: Color::DarkRed, ..e }
            &&& log_after == log.push(("You died!"@, Color::Red))
        },
        DeathCallback::Monster => {
            &&& monster_remains(e, after)
            &&& log_after == log.push((e.name@ + " is dead!"@, Color::Orange))
        },
    }
}

/// `after` and `log_after` are what taking `damage` leaves of `before` and
/// of the message log `log`: the hit points drop, and a fighter left with
/// none is marked dead and goes through its death transition.
pub open spec fn damage_taken(
    before: Entity,
    damage: int,
    after: Entity,
    log: Seq<LogLine>,
    log_after: Seq<LogLine>,
) -> bool {
    let f = hurt(before.fighter, damage);
    let e = Entity { fighter: f, ..before };
    if is_fatal(f) {
        death_result(Entity { alive: false, ..e }, after, log, log_after)
    } else {
        after == e && log_after == log
    }
}

pub open spec fn power_of(e: Entity) -> int {
    match e.fighter {
        Some(f) => f.power as int,
        None => 0,
    }
}

pub open spec fn defense_of(e: Entity) -> int {
    match e.fighter {
        Some(f) => f.defense as int,
        None => 0,
    }
}

/// Damage of an attack: the attacker's power less the target's defense.
pub open spec fn damage_of(attacker: Entity, target: Entity) -> int {
    saturate(power_of(attacker) - defense_of(target))
}

pub open spec fn attack_text(attacker: Entity, target: Entity, damage: int) -> Seq<char> {
    attacker.name@ + " attacks "@ + target.name@ + " for "@ + decimal(damage) + " hit points."@
}

pub open spec fn no_effect_text(attacker: Entity, target: Entity) -> Seq<char> {
    attacker.name@ + " attacks "@ + target.name@ + " but it has no effect!"@
}

/// `after` and `log_after` are what an attack by `attacker` leaves of the
/// target `before` and of the message log `log`.
pub open spec fn attack_result(
    attacker: Entity,
    before: Entity,
    after: Entity,
    log: Seq<LogLine>,
    log_after: Seq<LogLine>,
) -> bool {
    let d = damage_of(attacker, before);
    if d > 0 {
        damage_taken(before, d, after, log.push((attack_text(attacker, before, d), Color::White)), log_after)
    } else {
        after == before && log_after == log.push((no_effect_text(attacker, before), Color::White))
    }
}

/// The entity's hit points, if it has any, do not exceed its maximum.
pub open spec fn hp_within_max(e: Entity) -> bool {
    match e.fighter {
        Some(f) => f.hp <= f.max_hp,
        None => true,
    }
}

/// The hit points after healing by `amount`, never above the maximum.
pub open spec fn healed_hp(f: Fighter, amount: int) -> int {
    let raised = saturate(f.hp + amount);
    if raised > f.max_hp {
        f.max_hp as int
    } else {
        raised
    }
}

/// A blocking entity stands on the cell.
pub open spec fn occupied(entities: Seq<Entity>, x: int, y: int) -> bool {
    exists|i: int| 0 <= i < entities.len() && #[trigger] blocks_cell(entities[i], x, y)
}

pub open spec fn blocks_cell(e: Entity, x: int, y: int) -> bool {
    e.blocks && e.x == x && e.y == y
}

/// Nothing can enter the cell: it lies outside the map, is a wall, or holds a
/// blocking entity.
pub open spec fn blocked_at(map: TileMap, entities: Seq<Entity>, x: int, y: int) -> bool {
    !in_map(map, x, y) || tile_at(map, x, y).blocked || occupied(entities, x, y)
}

pub open spec fn relocated(e: Entity, x: int, y: int) -> Entity {
    Entity { x: x as i32, y: y as i32, ..e }
}

/// `after` is the roster once entity `id` has tried to step by (`dx`, `dy`):
/// it moves when the cell is free and stays put otherwise.
pub open spec fn move_result(
    map: TileMap,
    before: Seq<Entity>,
    id: int,
    dx: int,
    dy: int,
    after: Seq<Entity>,
) -> bool {
    let nx = before[id].x + dx;
    let ny = before[id].y + dy;
    if blocked_at(map, before, nx, ny) {
        after == before
    } else {
        after == before.update(id, relocated(before[id], nx, ny))
    }
}

/// One component of the unit vector (`d`, `other`) / length, rounded to the
/// nearest integer with halves away from zero: the sign of `d` when
/// |d| / length >= 1/2, that is when 3 d^2 >= other^2, and 0 otherwise.
pub open spec fn step_toward(d: int, other: int) -> int {
    if d != 0 && 3 * (d * d) >= other * other {
        if d > 0 {
            1
        } else {
            -1
        }
    } else {
        0
    }
}

fn step_component(d: i64, other: i64) -> (r: i32)
    requires
        -0x1_0000_0000 <= d <= 0x1_0000_0000,
        -0x1_0000_0000 <= other <= 0x1_0000_0000,
    ensures
        r == step_toward(d as int, other as int),
{
    let dd = d as i128;
    let oo = other as i128;
    assert(0 <= dd * dd <= 0x1_0000_0000_0000_0000) by (nonlinear_arith)
        requires
            -0x1_0000_0000 <= dd <= 0x1_0000_0000,
    ;
    assert(0 <= oo * oo <= 0x1_0000_0000_0000_0000) by (nonlinear_arith)
        requires
            -0x1_0000_0000 <= oo <= 0x1_0000_0000,
    ;
    if d != 0 && 3 * (dd * dd) >= oo * oo {
        if d > 0 {
            1
        } else {
            -1
        }
    } else {
        0
    }
}

impl Entity {
    pub fn new(x: i32, y: i32, char: char, name: &str, color: Color, blocks: bool) -> (e: Self)
        ensures
            e.x == x,
            e.y == y,
            e.char == char,
            e.color == color,
            e.name@ == name@,
            e.blocks == blocks,
            !e.alive,
            e.fighter is None,
            e.ai is None,
            e.item is None,
    {
        Entity {
            x: x,
            y: y,
            char: char,
            color: color,
            name: String::from_str(name),
            blocks: blocks,
            alive: false,
            fighter: None,
            ai: None,
            item: None,
        }
    }

    pub fn set_location(&mut self, x: i32, y: i32)
        ensures
            *final(self) == (Entity { x: x, y: y, ..*old(self) }),
    {
        self.x = x;
        self.y = y;
    }

    pub fn get_location(&self) -> (r: (i32, i32))
        ensures
            r == (self.x, self.y),
    {
        (self.x, self.y)
    }

    /// Squared Euclidean distance to `other`.
    pub fn distance_squared_to(&self, other: &Entity) -> (r: u128)
        ensures
            r == entity_sq_dist(*self, *other),
    {
        let dx = other.x as i128 - self.x as i128;
        let dy = other.y as i128 - self.y as i128;
        assert(0 <= dx * dx <= 0x1_0000_0000_0000_0000) by (nonlinear_arith)
            requires
                -0x1_0000_0000 <= dx <= 0x1_0000_0000,
        ;
        assert(0 <= dy * dy <= 0x1_0000_0000_0000_0000) by (nonlinear_arith)
            requires
                -0x1_0000_0000 <= dy <= 0x1_0000_0000,
        ;
        (dx * dx + dy * dy) as u128
    }

    /// Takes `damage` off the hit points (nothing when it is zero or less),
    /// then runs the death transition if no hit points are left.
    pub fn take_damage(&mut self, damage: i32, game: &mut Game)
        ensures
            damage_taken(
                *old(self),
                damage as int,
                *final(self),
                old(game).messages@,
                final(game).messages@,
            ),
            hp_within_max(*old(self)) ==> hp_within_max(*final(self)),
            final(game).map == old(game).map,
            final(game).inventory == old(game).inventory,
    {
        if let Some(fighter) = self.fighter {
            if damage > 0 {
                self.fighter = Some(
                    Fighter { hp: saturating(fighter.hp as i64 - damage as i64), ..fighter },
                );
            }
        }
        if let Some(fighter) = self.fighter {
            if fighter.hp <= 0 {
                self.alive = false;
                fighter.on_death.callback(self, game);
            }
        }
    }

    /// Raises the hit points by `amount`, never past the maximum.
    pub fn heal(&mut self, amount: i32)
        ensures
            match old(self).fighter {
                Some(f) => *final(self) == Entity {
                    fighter: Some(Fighter { hp: healed_hp(f, amount as int) as i32, ..f }),
                    ..*old(self)
                },
                None => *final(self) == *old(self),
            },
            hp_within_max(*final(self)),
    {
        if let Some(fighter) = self.fighter {
            let mut hp = saturating(fighter.hp as i64 + amount as i64);
            if hp > fighter.max_hp {
                hp = fighter.max_hp;
            }
            self.fighter = Some(Fighter { hp: hp, ..fighter });
        }
    }

    /// Attacks `target` for this entity's power less the target's defense,
    /// and logs the outcome.
    pub fn attack(&mut self, target: &mut Entity, game: &mut Game)
        ensures
            *final(self) == *old(self),
            attack_result(
                *old(self),
                *old(target),
                *final(target),
                old(game).messages@,
                final(game).messages@,
            ),
            final(game).map == old(game).map,
            final(game).inventory == old(game).inventory,
    {
        let power: i32 = match self.fighter {
            Some(f) => f.power,
            None => 0,
        };
        let defense: i32 = match target.fighter {
            Some(f) => f.defense,
            None => 0,
        };
        let damage = saturating(power as i64 - defense as i64);
        let mut text = self.name.clone();
        text.append(" attacks ");
        text.append(target.name.as_str());
        if damage > 0 {
            text.append(" for ");
            append_decimal(&mut text, damage);
            text.append(" hit points.");
            game.messages.add(text, Color::White);
            target.take_damage(damage, game);
        } else {
            text.append(" but it has no effect!");
            game.messages.add(text, Color::White);
        }
    }
}

impl DeathCallback {
    /// Runs the death transition that this variant names.
    fn callback(self, entity: &mut Entity, game: &mut Game)
        requires
            old(entity).fighter matches Some(f) && f.on_death == self,
        ensures
            death_result(*old(entity), *final(entity), old(game).messages@, final(game).messages@),
            final(game).map == old(game).map,
            final(game).inventory == old(game).inventory,
    {
        match self {
            DeathCallback::Player => player_death(entity, game),
            DeathCallback::Monster => monster_death(entity, game),
        }
    }
}

fn player_death(player: &mut Entity, game: &mut Game)
    ensures
        *final(player) == (Entity { char: '%', color: Color::DarkRed, ..*old(player) }),
        final(game).messages@ == old(game).messages@.push(("You died!"@, Color::Red)),
        final(game).map == old(game).map,
        final(game).inventory == old(game).inventory,
{
    game.messages.add(String::from_str("You died!"), Color::Red);
    player.char = '%';
    player.color = Color::DarkRed;
}

fn monster_death(monster: &mut Entity, game: &mut Game)
    ensures
        monster_remains(*old(monster), *final(monster)),
        final(game).messages@ == old(game).messages@.push(
            (old(monster).name@ + " is dead!"@, Color::Orange),
        ),
        final(game).map == old(game).map,
        final(game).inventory == old(game).inventory,
{
    let mut text = monster.name.clone();
    text.append(" is dead!");
    game.messages.add(text, Color::Orange);
    let mut remains = String::from_str("remains of ");
    remains.append(monster.name.as_str());
    monster.color = Color::DarkRed;
    monster.blocks = false;
    monster.fighter = None;
    monster.ai = None;
    monster.name = remains;
}

/// True when nothing can enter the cell (`x`, `y`): it lies outside the map,
/// is a wall, or holds a blocking entity.
pub fn is_blocked(x: i32, y: i32, map: &TileMap, entities: &[Entity]) -> (r: bool)
    requires
        map_wf(*map),
    ensures
        r == blocked_at(*map, entities@, x as int, y as int),
{
    if x < 0 || y < 0 || x as usize >= map.len() || y as usize >= map[0].len() {
        return true;
    }
    if map[x as usize][y as usize].blocked {
        return true;
    }
    let mut i: usize = 0;
    while i < entities.len()
        invariant
            i <= entities@.len(),
            forall|j: int| 0 <= j < i ==> !#[trigger] blocks_cell(entities@[j], x as int, y as int),
        decreases entities@.len() - i,
    {
        if entities[i].blocks && entities[i].x == x && entities[i].y == y {
            assert(blocks_cell(entities@[i as int], x as int, y as int));
            return true;
        }
        i = i + 1;
    }
    false
}

/// Moves entity `id` by (`x_amount`, `y_amount`) unless the destination is
/// blocked.
pub fn move_by(id: usize, x_amount: i32, y_amount: i32, map: &TileMap, entities: &mut [Entity])
    requires
        map_wf(*map),
        id < old(entities)@.len(),
    ensures
        move_result(*map, old(entities)@, id as int, x_amount as int, y_amount as int, final(entities)@),
{
    let move_x = entities[id].x as i64 + x_amount as i64;
    let move_y = entities[id].y as i64 + y_amount as i64;
    if move_x < 0 || move_y < 0 || move_x >= map.len() as i64 || move_y >= map[0].len() as i64 {
        return;
    }
    if !is_blocked(move_x as i32, move_y as i32, map, entities) {
        entities[id].set_location(move_x as i32, move_y as i32);
    }
}

/// Takes one step from entity `id` toward (`target_x`, `target_y`), along the
/// rounded unit vector, unless that cell is blocked.
pub fn move_towards(id: usize, target_x: i32, target_y: i32, map: &TileMap, entities: &mut [Entity])
    requires
        map_wf(*map),
        id < old(entities)@.len(),
    ensures
        ({
            let dx = target_x - old(entities)@[id as int].x;
            let dy = target_y - old(entities)@[id as int].y;
            move_result(
                *map,
                old(entities)@,
                id as int,
                step_toward(dx, dy),
                step_toward(dy, dx),
                final(entities)@,
            )
        }),
{
    let distance_x = target_x as i64 - entities[id].x as i64;
    let distance_y = target_y as i64 - entities[id].y as i64;
    let step_x = step_component(distance_x, distance_y);
    let step_y = step_component(distance_y, distance_x);
    move_by(id, step_x, step_y, map, entities);
}

/// Mutable access to two distinct elements of `items` at once.
pub fn mut_two<T>(first_index: usize, second_index: usize, items: &mut [T]) -> (r: (&mut T, &mut T))
    requires
        first_index != second_index,
        first_index < old(items)@.len(),
        second_index < old(items)@.len(),
    ensures
        *r.0 == old(items)@[first_index as int],
        *r.1 == old(items)@[second_index as int],
        final(items)@ == old(items)@.update(first_index as int, *final(r.0)).update(
            second_index as int,
            *final(r.1),
        ),
{
    if first_index < second_index {
        let (first_slice, second_slice) = items.split_at_mut(second_index);
        let (_, from_first) = first_slice.split_at_mut(first_index);
        (from_first.first_mut().unwrap(), second_slice.first_mut().unwrap())
    } else {
        let (first_slice, second_slice) = items.split_at_mut(first_index);
        let (_, from_second) = first_slice.split_at_mut(second_index);
        (second_slice.first_mut().unwrap(), from_second.first_mut().unwrap())
    }
}

} // verus!
