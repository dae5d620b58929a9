use vstd::prelude::*;

use crate::color::Color;
use crate::entity::{
    attack_result, entity_sq_dist, move_by, move_result, move_towards, mut_two, step_toward, Entity,
    AI,
};
use crate::game::{Game, PLAYER_ID};
use crate::messages::LogLine;
use crate::random::random_range;
use crate::tile::{is_in_fov, map_wf, visible_at, Fov, TileMap};

verus! {

/// The roster with the AI of entity `id` taken out.
pub open spec fn without_ai(s: Seq<Entity>, id: int) -> Seq<Entity> {
    s.update(id, Entity { ai: None, ..s[id] })
}

/// One turn of the basic AI of monster `id`, from `before` and `log` to
/// `after` and `log_after`: when the monster stands in view it walks toward
/// the player while two or more cells away, and otherwise attacks a player
/// who has hit points left.
pub open spec fn basic_turn(
    map: TileMap,
    fov: Fov,
    id: int,
    before: Seq<Entity>,
    log: Seq<LogLine>,
    after: Seq<Entity>,
    log_after: Seq<LogLine>,
) -> bool {
    let m = before[id];
    let p = before[PLAYER_ID as int];
    if !visible_at(fov, m.x as int, m.y as int) {
        after == before && log_after == log
    } else if entity_sq_dist(m, p) >= 4 {
        &&& move_result(
            map,
            before,
            id,
            step_toward(p.x - m.x, p.y - m.y),
            step_toward(p.y - m.y, p.x - m.x),
            after,
        )
        &&& log_after == log
    } else if p.fighter matches Some(f) && f.hp > 0 {
        &&& after.len() == before.len()
        &&& after == before.update(PLAYER_ID as int, after[PLAYER_ID as int])
        &&& attack_result(m, p, after[PLAYER_ID as int], log, log_after)
    } else {
        after == before && log_after == log
    }
}

pub open spec fn no_longer_confused_text(e: Entity) -> Seq<char> {
    "The "@ + e.name@ + " is no longer confused!"@
}

/// One turn of confusion with `num_turns` left: a random step to a
/// neighbouring cell or none while `num_turns >= 0`, and a log line once it
/// is below zero.
pub open spec fn confused_turn(
    map: TileMap,
    id: int,
    num_turns: int,
    before: Seq<Entity>,
    log: Seq<LogLine>,
    after: Seq<Entity>,
    log_after: Seq<LogLine>,
) -> bool {
    if num_turns >= 0 {
        &&& exists|dx: int, dy: int|
            -1 <= dx <= 1 && -1 <= dy <= 1 && #[trigger] move_result(map, before, id, dx, dy, after)
        &&& log_after == log
    } else {
        after == before && log_after == log.push((no_longer_confused_text(before[id]), Color::Red))
    }
}

/// The state an AI moves to after acting once.
pub open spec fn next_ai(ai: AI) -> AI {
    match ai {
        AI::Basic => AI::Basic,
        AI::Confused { previous_ai, num_turns } => if num_turns >= 0 {
            AI::Confused { previous_ai: previous_ai, num_turns: (num_turns - 1) as i32 }
        } else {
            *previous_ai
        },
    }
}

/// The AI state after `k` turns starting from `ai`.
pub open spec fn after_turns(ai: AI, k: nat) -> AI
    decreases k,
{
    if k == 0 {
        ai
    } else {
        after_turns(next_ai(ai), (k - 1) as nat)
    }
}

/// Confusion always wears off and restores exactly the state it wrapped:
/// with `num_turns` left, `num_turns + 2` turns bring back `previous`.
pub proof fn lemma_confusion_restores(previous: AI, num_turns: i32)
    requires
        num_turns >= -1,
    ensures
        after_turns(
            AI::Confused { previous_ai: Box::new(previous), num_turns: num_turns },
            (num_turns + 2) as nat,
        ) == previous,
    decreases num_turns + 1,
{
    let confused = AI::Confused { previous_ai: Box::new(previous), num_turns: num_turns };
    assert(after_turns(confused, (num_turns + 2) as nat) == after_turns(
        next_ai(confused),
        (num_turns + 1) as nat,
    ));
    if num_turns >= 0 {
        lemma_confusion_restores(previous, (num_turns - 1) as i32);
    } else {
        assert(after_turns(next_ai(confused), 0) == next_ai(confused));
    }
}

/// `after` and `log_after` are what one turn of entity `id` leaves of
/// `before` and `log`. The AI is taken out while the entity acts and the
/// next state is put back afterwards; an entity without AI does nothing.
pub open spec fn ai_turn(
    map: TileMap,
    fov: Fov,
    id: int,
    before: Seq<Entity>,
    log: Seq<LogLine>,
    after: Seq<Entity>,
    log_after: Seq<LogLine>,
) -> bool {
    match before[id].ai {
        None => after == before && log_after == log,
        Some(ai) => {
            &&& after.len() == before.len()
            &&& after[id].ai == Some(next_ai(ai))
            &&& match ai {
                AI::Basic => basic_turn(
                    map,
                    fov,
                    id,
                    without_ai(before, id),
                    log,
                    without_ai(after, id),
                    log_after,
                ),
                AI::Confused { previous_ai, num_turns } => confused_turn(
                    map,
                    id,
                    num_turns as int,
                    without_ai(before, id),
                    log,
                    without_ai(after, id),
                    log_after,
                ),
            }
        },
    }
}

/// Lets entity `monster_id` act once according to its AI, if it has one.
pub fn ai_take_turn(monster_id: usize, fov: &Fov, game: &mut Game, entities: &mut [Entity])
    requires
        map_wf(old(game).map),
        monster_id < old(entities)@.len(),
        PLAYER_ID < old(entities)@.len(),
        monster_id != PLAYER_ID,
    ensures
        ai_turn(
            old(game).map,
            *fov,
            monster_id as int,
            old(entities)@,
            old(game).messages@,
            final(entities)@,
            final(game).messages@,
        ),
        final(game).map == old(game).map,
        final(game).inventory == old(game).inventory,
{
    let ghost start = entities@;
    if let Some(ai) = entities[monster_id].ai.take() {
        let ghost taken = entities@;
        assert(taken =~= without_ai(start, monster_id as int));
        let new_ai = match ai {
            AI::Basic => ai_basic(monster_id, fov, game, entities),
            AI::Confused { previous_ai, num_turns } => ai_confused(
                monster_id,
                game,
                entities,
                previous_ai,
                num_turns,
            ),
        };
        let ghost mid = entities@;
        entities[monster_id].ai = Some(new_ai);
        assert(without_ai(entities@, monster_id as int) =~= mid);
    } else {
        assert(entities@ =~= start);
    }
}

fn ai_basic(monster_id: usize, fov: &Fov, game: &mut Game, entities: &mut [Entity]) -> (r: AI)
    requires
        map_wf(old(game).map),
        monster_id < old(entities)@.len(),
        PLAYER_ID < old(entities)@.len(),
        monster_id != PLAYER_ID,
        old(entities)@[monster_id as int].ai is None,
    ensures
        r == AI::Basic,
        basic_turn(
            old(game).map,
            *fov,
            monster_id as int,
            old(entities)@,
            old(game).messages@,
            final(entities)@,
            final(game).messages@,
        ),
        final(entities)@[monster_id as int].ai is None,
        final(game).map == old(game).map,
        final(game).inventory == old(game).inventory,
{
    let (monster_x, monster_y) = entities[monster_id].get_location();
    if is_in_fov(fov, monster_x, monster_y) {
        if entities[monster_id].distance_squared_to(&entities[PLAYER_ID]) >= 4 {
            let (player_x, player_y) = entities[PLAYER_ID].get_location();
            move_towards(monster_id, player_x, player_y, &game.map, entities);
        } else if match entities[PLAYER_ID].fighter {
            Some(f) => f.hp > 0,
            None => false,
        } {
            let ghost before = entities@;
            let (monster, player) = mut_two(monster_id, PLAYER_ID, entities);
            monster.attack(player, game);
            assert(entities@ =~= before.update(PLAYER_ID as int, entities@[PLAYER_ID as int]));
        }
    }
    AI::Basic
}

fn ai_confused(
    monster_id: usize,
    game: &mut Game,
    entities: &mut [Entity],
    previous_ai: Box<AI>,
    num_turns: i32,
) -> (r: AI)
    requires
        map_wf(old(game).map),
        monster_id < old(entities)@.len(),
        old(entities)@[monster_id as int].ai is None,
    ensures
        r == next_ai(AI::Confused { previous_ai: previous_ai, num_turns: num_turns }),
        confused_turn(
            old(game).map,
            monster_id as int,
            num_turns as int,
            old(entities)@,
            old(game).messages@,
            final(entities)@,
            final(game).messages@,
        ),
        final(entities)@[monster_id as int].ai is None,
        final(game).map == old(game).map,
        final(game).inventory == old(game).inventory,
{
    if num_turns >= 0 {
        let dx = random_range(-1, 2);
        let dy = random_range(-1, 2);
        move_by(monster_id, dx, dy, &game.map, entities);
        assert(move_result(
            game.map,
            old(entities)@,
            monster_id as int,
            dx as int,
            dy as int,
            entities@,
        ));
        AI::Confused { previous_ai: previous_ai, num_turns: num_turns - 1 }
    } else {
        let mut text = String::from_str("The ");
        text.append(entities[monster_id].name.as_str());
        text.append(" is no longer confused!");
        game.messages.add(text, Color::Red);
        *previous_ai
    }
}

} // verus!
