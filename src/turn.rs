use vstd::prelude::*;

use crate::ai::{ai_take_turn, ai_turn};
use crate::entity::{attack_result, blocked_at, move_by, move_result, mut_two, Entity, UseResult};
use crate::game::{Game, INVENTORY_CAPACITY, PLAYER_ID};
use crate::items::{pick_item_up, pick_up_result, use_item, use_result};
use crate::messages::LogLine;
use crate::tile::{is_in_fov, map_wf, visible_at, Fov, TileMap};

verus! {

/// One resolved action of the player, as the input layer reports it.
#[derive(Clone, Copy, Debug, PartialEq, Eq, Structural)]
pub enum PlayerInput {
    Up,
    Down,
    Left,
    Right,
    PickUp,
    /// The inventory was opened; the item chosen from it, if any.
    Inventory(Option<usize>),
    ToggleFullscreen,
    Exit,
    Other,
}

/// Whether the player's action used up the turn, or ends the game.
#[derive(Clone, Copy, Debug, PartialEq, Eq, Structural)]
pub enum PlayerAction {
    TookTurn,
    DidntTakeTurn,
    Exit,
}

pub open spec fn fighter_at(e: Entity, x: int, y: int) -> bool {
    e.fighter is Some && e.x == x && e.y == y
}

/// Entity `t` is the first in the roster that can fight and stands on the
/// cell.
pub open spec fn first_fighter_at(s: Seq<Entity>, x: int, y: int, t: int) -> bool {
    &&& 0 <= t < s.len()
    &&& fighter_at(s[t], x, y)
    &&& forall|j: int| 0 <= j < t ==> !#[trigger] fighter_at(s[j], x, y)
}

pub open spec fn has_fighter_at(s: Seq<Entity>, x: int, y: int) -> bool {
    exists|j: int| 0 <= j < s.len() && #[trigger] fighter_at(s[j], x, y)
}

/// `after` and `log_after` are what the player's move by (`dx`, `dy`)
/// leaves of `before` and `log`: an attack on the first fighter on the
/// destination, or else a step there if it is free.
pub open spec fn move_or_attack_result(
    dx: int,
    dy: int,
    map: TileMap,
    before: Seq<Entity>,
    log: Seq<LogLine>,
    after: Seq<Entity>,
    log_after: Seq<LogLine>,
) -> bool {
    let p = before[PLAYER_ID as int];
    let tx = p.x + dx;
    let ty = p.y + dy;
    if has_fighter_at(before, tx, ty) {
        exists|t: int|
            #[trigger] first_fighter_at(before, tx, ty, t) && after == before.update(t, after[t])
                && attack_result(p, before[t], after[t], log, log_after)
    } else {
        move_result(map, before, PLAYER_ID as int, dx, dy, after) && log_after == log
    }
}

/// The player's move by (`dx`, `dy`) has an effect on the world: it attacks,
/// or the destination is free.
pub open spec fn move_acts(map: TileMap, before: Seq<Entity>, dx: int, dy: int) -> bool {
    let p = before[PLAYER_ID as int];
    has_fighter_at(before, p.x + dx, p.y + dy) || !blocked_at(map, before, p.x + dx, p.y + dy)
}

/// Moves the player by (`x_amount`, `y_amount`), attacking instead whatever
/// fighter stands there. Returns whether anything happened.
pub fn player_move_or_attack(x_amount: i32, y_amount: i32, game: &mut Game, entities: &mut [Entity]) -> (acted: bool)
    requires
        map_wf(old(game).map),
        PLAYER_ID < old(entities)@.len(),
        x_amount != 0 || y_amount != 0,
    ensures
        move_or_attack_result(
            x_amount as int,
            y_amount as int,
            old(game).map,
            old(entities)@,
            old(game).messages@,
            final(entities)@,
            final(game).messages@,
        ),
        acted == move_acts(old(game).map, old(entities)@, x_amount as int, y_amount as int),
        final(game).map == old(game).map,
        final(game).inventory == old(game).inventory,
{
    let ghost start = entities@;
    let x = entities[PLAYER_ID].x as i64 + x_amount as i64;
    let y = entities[PLAYER_ID].y as i64 + y_amount as i64;
    let mut target_id: Option<usize> = None;
    let mut i: usize = 0;
    while i < entities.len()
        invariant
            entities@ == start,
            i <= entities@.len(),
            x == start[PLAYER_ID as int].x + x_amount,
            y == start[PLAYER_ID as int].y + y_amount,
            match target_id {
                Some(t) => first_fighter_at(start, x as int, y as int, t as int),
                None => forall|j: int| 0 <= j < i ==> !#[trigger] fighter_at(start[j], x as int, y as int),
            },
        decreases entities@.len() - i,
    {
        if target_id.is_none() && entities[i].fighter.is_some() && entities[i].x as i64 == x
            && entities[i].y as i64 == y {
            target_id = Some(i);
        }
        i = i + 1;
    }
    match target_id {
        Some(target_id) => {
            let (player, target) = mut_two(PLAYER_ID, target_id, entities);
            player.attack(target, game);
            assert(entities@ =~= start.update(target_id as int, entities@[target_id as int]));
            true
        },
        None => {
            let (old_x, old_y) = entities[PLAYER_ID].get_location();
            move_by(PLAYER_ID, x_amount, y_amount, &game.map, entities);
            entities[PLAYER_ID].x != old_x || entities[PLAYER_ID].y != old_y
        },
    }
}

/// Entity `i` is the first item, other than the player, on the player's
/// cell.
pub open spec fn first_item_here(s: Seq<Entity>, i: int) -> bool {
    &&& PLAYER_ID < i < s.len()
    &&& item_here(s, i)
    &&& forall|j: int| PLAYER_ID < j < i ==> !#[trigger] item_here(s, j)
}

pub open spec fn item_here(s: Seq<Entity>, i: int) -> bool {
    s[i].item is Some && s[i].x == s[PLAYER_ID as int].x && s[i].y == s[PLAYER_ID as int].y
}

pub open spec fn any_item_here(s: Seq<Entity>) -> bool {
    exists|i: int| PLAYER_ID < i < s.len() && #[trigger] item_here(s, i)
}

pub open spec fn turn_taken(b: bool) -> PlayerAction {
    if b {
        PlayerAction::TookTurn
    } else {
        PlayerAction::DidntTakeTurn
    }
}

/// `after`, `game_after` and `r` are what the input `input` makes of the
/// roster `before` and of `game`. A dead player can only quit or toggle the
/// display.
pub open spec fn input_result(
    input: PlayerInput,
    fov: Fov,
    before: Seq<Entity>,
    game: Game,
    after: Seq<Entity>,
    game_after: Game,
    r: PlayerAction,
) -> bool {
    let unchanged = after == before && game_after == game;
    let moved = |dx: int, dy: int|
        {
            &&& game_after.map == game.map
            &&& game_after.inventory == game.inventory
            &&& move_or_attack_result(dx, dy, game.map, before, game.messages@, after, game_after.messages@)
            &&& r == turn_taken(move_acts(game.map, before, dx, dy))
        };
    let idle = r == PlayerAction::DidntTakeTurn && unchanged;
    let alive = before[PLAYER_ID as int].alive;
    match input {
        PlayerInput::Exit => r == PlayerAction::Exit && unchanged,
        PlayerInput::ToggleFullscreen => idle,
        PlayerInput::Other => idle,
        PlayerInput::Up => if alive {
            moved(0, -1)
        } else {
            idle
        },
        PlayerInput::Down => if alive {
            moved(0, 1)
        } else {
            idle
        },
        PlayerInput::Left => if alive {
            moved(-1, 0)
        } else {
            idle
        },
        PlayerInput::Right => if alive {
            moved(1, 0)
        } else {
            idle
        },
        PlayerInput::PickUp => if alive && any_item_here(before) {
            &&& exists|i: int|
                #[trigger] first_item_here(before, i) && pick_up_result(i, before, game, after, game_after)
            &&& r == turn_taken(game.inventory@.len() < INVENTORY_CAPACITY)
        } else {
            idle
        },
        PlayerInput::Inventory(choice) => match choice {
            Some(i) => if alive && i < game.inventory@.len() {
                exists|u: UseResult|
                    #[trigger] use_result(i as int, fov, before, game, after, game_after, u) && r
                        == turn_taken(u == UseResult::UsedUp)
            } else {
                idle
            },
            None => idle,
        },
    }
}

/// Carries out one player input and reports whether it took a turn: a move
/// or attack with an effect, an item picked up, or an item used up.
pub fn handle_input(input: PlayerInput, fov: &Fov, game: &mut Game, entities: &mut Vec<Entity>) -> (r:
    PlayerAction)
    requires
        map_wf(old(game).map),
        PLAYER_ID < old(entities)@.len(),
    ensures
        input_result(input, *fov, old(entities)@, *old(game), final(entities)@, *final(game), r),
        PLAYER_ID < final(entities)@.len(),
        final(game).map == old(game).map,
{
    let ghost start = entities@;
    match input {
        PlayerInput::Exit => {
            return PlayerAction::Exit;
        },
        PlayerInput::ToggleFullscreen | PlayerInput::Other => {
            return PlayerAction::DidntTakeTurn;
        },
        _ => {},
    }
    if !entities[PLAYER_ID].alive {
        return PlayerAction::DidntTakeTurn;
    }
    match input {
        PlayerInput::Up => turn_of(player_move_or_attack(0, -1, game, entities)),
        PlayerInput::Down => turn_of(player_move_or_attack(0, 1, game, entities)),
        PlayerInput::Left => turn_of(player_move_or_attack(-1, 0, game, entities)),
        PlayerInput::Right => turn_of(player_move_or_attack(1, 0, game, entities)),
        PlayerInput::PickUp => {
            let mut item_id: Option<usize> = None;
            let mut i: usize = PLAYER_ID + 1;
            while i < entities.len()
                invariant
                    entities@ == start,
                    PLAYER_ID < i <= entities@.len(),
                    match item_id {
                        Some(t) => first_item_here(start, t as int),
                        None => forall|j: int| PLAYER_ID < j < i ==> !#[trigger] item_here(start, j),
                    },
                decreases entities@.len() - i,
            {
                if item_id.is_none() && entities[i].item.is_some() && entities[i].x
                    == entities[PLAYER_ID].x && entities[i].y == entities[PLAYER_ID].y {
                    item_id = Some(i);
                }
                i = i + 1;
            }
            match item_id {
                Some(item_id) => {
                    let room = game.inventory.len() < INVENTORY_CAPACITY;
                    pick_item_up(item_id, game, entities);
                    turn_of(room)
                },
                None => PlayerAction::DidntTakeTurn,
            }
        },
        PlayerInput::Inventory(choice) => match choice {
            Some(inventory_index) => {
                if inventory_index < game.inventory.len() {
                    let used = use_item(inventory_index, fov, game, entities);
                    turn_of(used == UseResult::UsedUp)
                } else {
                    PlayerAction::DidntTakeTurn
                }
            },
            None => PlayerAction::DidntTakeTurn,
        },
        _ => PlayerAction::DidntTakeTurn,
    }
}

fn turn_of(b: bool) -> (r: PlayerAction)
    ensures
        r == turn_taken(b),
{
    if b {
        PlayerAction::TookTurn
    } else {
        PlayerAction::DidntTakeTurn
    }
}

/// `trace` runs from the roster and log before the AI sweep to those after
/// it: step `k` is the turn of entity `k`, so every entity but the player
/// acts once, in roster order.
pub open spec fn ai_sweep(
    map: TileMap,
    fov: Fov,
    trace: Seq<(Seq<Entity>, Seq<LogLine>)>,
    before: Seq<Entity>,
    log: Seq<LogLine>,
    after: Seq<Entity>,
    log_after: Seq<LogLine>,
) -> bool {
    &&& trace.len() == before.len()
    &&& trace.len() > 0
    &&& trace[0] == (before, log)
    &&& trace.last() == (after, log_after)
    &&& forall|k: int|
        0 < k < trace.len() ==> #[trigger] ai_turn(
            map,
            fov,
            k,
            trace[k - 1].0,
            trace[k - 1].1,
            trace[k].0,
            trace[k].1,
        )
}

/// Gives every entity with an AI, the player excepted, one turn, in roster
/// order.
pub fn take_ai_turns(fov: &Fov, game: &mut Game, entities: &mut [Entity])
    requires
        map_wf(old(game).map),
        PLAYER_ID < old(entities)@.len(),
    ensures
        exists|trace: Seq<(Seq<Entity>, Seq<LogLine>)>|
            #[trigger] ai_sweep(
                old(game).map,
                *fov,
                trace,
                old(entities)@,
                old(game).messages@,
                final(entities)@,
                final(game).messages@,
            ),
        final(entities)@.len() == old(entities)@.len(),
        final(game).map == old(game).map,
        final(game).inventory == old(game).inventory,
{
    let ghost map = game.map;
    let ghost mut trace: Seq<(Seq<Entity>, Seq<LogLine>)> = seq![(entities@, game.messages@)];
    let mut id: usize = PLAYER_ID + 1;
    while id < entities.len()
        invariant
            PLAYER_ID < id <= entities@.len(),
            entities@.len() == old(entities)@.len(),
            game.map == map,
            map_wf(map),
            game.inventory == old(game).inventory,
            trace.len() == id,
            trace[0] == (old(entities)@, old(game).messages@),
            trace.last() == (entities@, game.messages@),
            forall|k: int|
                0 < k < trace.len() ==> #[trigger] ai_turn(
                    map,
                    *fov,
                    k,
                    trace[k - 1].0,
                    trace[k - 1].1,
                    trace[k].0,
                    trace[k].1,
                ),
        decreases entities@.len() - id,
    {
        if entities[id].ai.is_some() {
            ai_take_turn(id, fov, game, entities);
        }
        proof {
            let ghost prev = trace;
            trace = trace.push((entities@, game.messages@));
            assert forall|k: int|
                0 < k < trace.len() implies #[trigger] ai_turn(
                map,
                *fov,
                k,
                trace[k - 1].0,
                trace[k - 1].1,
                trace[k].0,
                trace[k].1,
            ) by {
                if k < trace.len() - 1 {
                    assert(trace[k - 1] == prev[k - 1] && trace[k] == prev[k]);
                }
            }
        }
        id = id + 1;
    }
    assert(ai_sweep(
        map,
        *fov,
        trace,
        old(entities)@,
        old(game).messages@,
        entities@,
        game.messages@,
    ));
}

/// One full turn: the player's input, then, when it took a turn and the
/// player still lives, one AI sweep.
pub fn play_turn(input: PlayerInput, fov: &Fov, game: &mut Game, entities: &mut Vec<Entity>) -> (r:
    PlayerAction)
    requires
        map_wf(old(game).map),
        PLAYER_ID < old(entities)@.len(),
    ensures
        exists|mid: Seq<Entity>, mid_game: Game|
            #[trigger] input_result(input, *fov, old(entities)@, *old(game), mid, mid_game, r) && if r
                == PlayerAction::TookTurn && mid[PLAYER_ID as int].alive {
                &&& final(game).map == mid_game.map
                &&& final(game).inventory == mid_game.inventory
                &&& exists|trace: Seq<(Seq<Entity>, Seq<LogLine>)>|
                    #[trigger] ai_sweep(
                        mid_game.map,
                        *fov,
                        trace,
                        mid,
                        mid_game.messages@,
                        final(entities)@,
                        final(game).messages@,
                    )
            } else {
                final(entities)@ == mid && *final(game) == mid_game
            },
        PLAYER_ID < final(entities)@.len(),
        final(game).map == old(game).map,
{
    let action = handle_input(input, fov, game, entities);
    let ghost mid = entities@;
    let ghost mid_game = *game;
    if action == PlayerAction::TookTurn && entities[PLAYER_ID].alive {
        take_ai_turns(fov, game, entities);
    }
    assert(input_result(input, *fov, old(entities)@, *old(game), mid, mid_game, action));
    action
}

/// The names of `e` to join, in roster order: those of the entities that
/// stand on (`x`, `y`) and are in view.
pub open spec fn names_at(s: Seq<Entity>, fov: Fov, x: int, y: int) -> Seq<Seq<char>>
    decreases s.len(),
{
    if s.len() == 0 {
        Seq::empty()
    } else {
        let e = s.last();
        let rest = names_at(s.drop_last(), fov, x, y);
        if e.x == x && e.y == y && visible_at(fov, x, y) {
            rest.push(e.name@)
        } else {
            rest
        }
    }
}

/// The parts joined with `sep` between neighbours.
pub open spec fn join(parts: Seq<Seq<char>>, sep: Seq<char>) -> Seq<char>
    decreases parts.len(),
{
    if parts.len() == 0 {
        Seq::empty()
    } else if parts.len() == 1 {
        parts[0]
    } else {
        join(parts.drop_last(), sep) + sep + parts.last()
    }
}

/// The names of the visible entities on the cell (`x`, `y`), separated by
/// spaces.
pub fn get_names_under_mouse(x: i32, y: i32, entities: &[Entity], fov: &Fov) -> (r: String)
    ensures
        r@ == join(names_at(entities@, *fov, x as int, y as int), " "@),
{
    let mut names = String::new();
    let mut count: usize = 0;
    let mut i: usize = 0;
    while i < entities.len()
        invariant
            i <= entities@.len(),
            count <= i,
            count == names_at(entities@.subrange(0, i as int), *fov, x as int, y as int).len(),
            names@ == join(names_at(entities@.subrange(0, i as int), *fov, x as int, y as int), " "@),
        decreases entities@.len() - i,
    {
        let ghost prefix = entities@.subrange(0, i as int);
        let ghost next = entities@.subrange(0, i as int + 1);
        assert(next.drop_last() =~= prefix);
        assert(next.last() == entities@[i as int]);
        if entities[i].x == x && entities[i].y == y && is_in_fov(fov, x, y) {
            let ghost rest = names_at(prefix, *fov, x as int, y as int);
            let ghost name = entities@[i as int].name@;
            assert(rest.push(name).drop_last() =~= rest);
            if count > 0 {
                names.append(" ");
            }
            names.append(entities[i].name.as_str());
            count = count + 1;
            assert(names@ =~= join(rest.push(name), " "@));
        }
        i = i + 1;
    }
    assert(entities@.subrange(0, entities@.len() as int) =~= entities@);
    names
}

} // verus!
