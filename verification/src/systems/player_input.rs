//! The player's turn: one key press becomes one committed action.
//!
//! The world is only read while intents are worked out; what has to change
//! in it is queued. The one direct change is the point of health that the
//! player regains on a turn spent standing.

use vstd::prelude::*;
use crate::commands::{Command, CommandBuffer, Intent};
use crate::components::{Entity, EntityRecord, TurnState};
use crate::geometry::Point;
use crate::input::{Action, Key};
use crate::world::{has_player, ids_where, lemma_player_index, player_index, Query, World};

verus! {

/// The player's entity.
pub open spec fn player_entity(w: Seq<EntityRecord>) -> Entity {
    w[player_index(w)].id
}

/// The cell the player stands on.
pub open spec fn player_position(w: Seq<EntityRecord>) -> Point {
    w[player_index(w)].position.unwrap()
}

/// The queued creation of an attack intent.
pub open spec fn attack_command(attacker: Entity, victim: Entity) -> Command {
    Command::Spawn { intent: Intent::WantsToAttack { attacker, victim } }
}

/// The queued creation of a move intent.
pub open spec fn move_command(entity: Entity, destination: Point) -> Command {
    Command::Spawn { intent: Intent::WantsToMove { entity, destination } }
}

/// The queued creation of an item-use intent.
pub open spec fn activate_command(used_by: Entity, item: Entity) -> Command {
    Command::Spawn { intent: Intent::ActivateItem { used_by, item } }
}

/// For every item picked up, in order: first the removal of its position,
/// then its hand-over to the player.
pub open spec fn pickup_commands(items: Seq<Entity>, player: Entity) -> Seq<Command> {
    Seq::new(
        2 * items.len(),
        |k: int|
            if k % 2 == 0 {
                Command::RemovePosition { entity: items[k / 2] }
            } else {
                Command::AddCarried { item: items[k / 2], owner: player }
            },
    )
}

/// One attack intent per victim, in order.
pub open spec fn attack_commands(victims: Seq<Entity>, player: Entity) -> Seq<Command> {
    Seq::new(
        victims.len(),
        |k: int| attack_command(player, victims[k]),
    )
}

/// What the pick-up key queues: every item on the player's cell changes
/// from lying there to being carried by the player.
pub open spec fn pick_up_commands(w: Seq<EntityRecord>) -> Seq<Command> {
    pickup_commands(ids_where(w, Query::ItemAt(player_position(w))), player_entity(w))
}

/// What a slot key queues: the use of the `n`-th item that the player
/// carries, counted from zero in iteration order, or nothing when the
/// player carries no more than `n` items.
pub open spec fn use_item_commands(w: Seq<EntityRecord>, n: int) -> Seq<Command> {
    let carried = ids_where(w, Query::CarriedBy(player_entity(w)));
    if 0 <= n < carried.len() {
        seq![activate_command(player_entity(w), carried[n])]
    } else {
        Seq::empty()
    }
}

/// What a displacement queues: nothing when it is zero; otherwise an attack
/// on every enemy that stands on the destination or, when none stands there,
/// one move to it.
pub open spec fn step_commands(w: Seq<EntityRecord>, delta: Point) -> Seq<Command> {
    let destination = player_position(w).offset_spec(delta);
    let enemies = ids_where(w, Query::EnemyAt(destination));
    if delta.is_zero_spec() {
        Seq::empty()
    } else if enemies.len() > 0 {
        attack_commands(enemies, player_entity(w))
    } else {
        seq![move_command(player_entity(w), destination)]
    }
}

/// Everything that one key press queues.
pub open spec fn turn_commands(w: Seq<EntityRecord>, key: Key) -> Seq<Command> {
    match key.decode_spec() {
        Action::Step(delta) => step_commands(w, delta),
        Action::PickUp => pick_up_commands(w),
        Action::UseItem(n) => use_item_commands(w, n as int),
        Action::Nothing => Seq::empty(),
    }
}

/// The world after the player has rested for a turn: the player regains one
/// point of health, up to its maximum; nothing else changes.
pub open spec fn rested_world(w: Seq<EntityRecord>) -> Seq<EntityRecord> {
    w.update(player_index(w), w[player_index(w)].rested_spec())
}

/// The world after one key press, before the queued changes are applied.
pub open spec fn turn_world(w: Seq<EntityRecord>, key: Key) -> Seq<EntityRecord> {
    if key.decode_spec().rests_spec() {
        rested_world(w)
    } else {
        w
    }
}

/// The worlds in which a key can be handled: there is exactly one player,
/// it has a position, and the cell that the key points at has coordinates
/// inside `i32`.
pub open spec fn accepts(w: Seq<EntityRecord>, key: Key) -> bool {
    has_player(w) && player_position(w).can_offset(key.decode_spec().delta_spec())
}

/// Tests whether `player_input` can handle `key` in this world.
pub fn can_resolve(ecs: &World, key: Key) -> (yes: bool)
    ensures
        yes == accepts(ecs@, key),
{
    match ecs.locate_player() {
        Some(_) => {
            let (_, _, position) = ecs.player();
            let delta = key.decode().delta();
            let x: i64 = position.x as i64 + delta.x as i64;
            let y: i64 = position.y as i64 + delta.y as i64;
            -2147483648 <= x && x <= 2147483647 && -2147483648 <= y && y <= 2147483647
        },
        None => false,
    }
}

/// Handles the pick-up key: queues, for every item that lies on the
/// player's cell, the removal of its position and its hand-over to the
/// player. The world itself is not touched.
pub fn pick_up(ecs: &World, commands: &mut CommandBuffer)
    requires
        has_player(ecs@),
    ensures
        final(commands)@ == old(commands)@ + pick_up_commands(ecs@),
{
    let ghost before = commands@;
    let (_, player, player_pos) = ecs.player();
    let items = ecs.find(Query::ItemAt(player_pos));
    let mut k: usize = 0;
    while k < items.len()
        invariant
            k <= items.len(),
            commands@ == before + pickup_commands(items@.take(k as int), player),
        decreases items.len() - k,
    {
        commands.remove_position(items[k]);
        commands.add_carried(items[k], player);
        proof {
            assert(commands@ =~= before + pickup_commands(items@.take(k + 1), player));
        }
        k += 1;
    }
    proof {
        assert(items@.take(k as int) =~= items@);
    }
}

/// Handles a slot key: queues the use of the `n`-th carried item, if the
/// player carries that many. The displacement returned is always zero.
pub fn use_item(n: usize, ecs: &World, commands: &mut CommandBuffer) -> (delta: Point)
    requires
        has_player(ecs@),
    ensures
        delta == (Point { x: 0, y: 0 }),
        final(commands)@ == old(commands)@ + use_item_commands(ecs@, n as int),
{
    let ghost before = commands@;
    let (_, player, _) = ecs.player();
    let carried = ecs.find(Query::CarriedBy(player));
    if n < carried.len() {
        commands.push(Intent::ActivateItem { used_by: player, item: carried[n] });
        proof {
            assert(commands@ =~= before + use_item_commands(ecs@, n as int));
        }
    } else {
        proof {
            assert(commands@ =~= before + use_item_commands(ecs@, n as int));
        }
    }
    Point::zero()
}

/// Resolves a displacement into intents: an attack on every enemy on the
/// destination, else one move. A zero displacement queues nothing. The
/// result tells whether an intent was queued.
pub fn move_or_attack(
    delta: Point,
    ecs: &World,
    commands: &mut CommandBuffer,
) -> (did_something: bool)
    requires
        has_player(ecs@),
        player_position(ecs@).can_offset(delta),
    ensures
        did_something == !delta.is_zero_spec(),
        final(commands)@ == old(commands)@ + step_commands(ecs@, delta),
{
    let ghost before = commands@;
    if delta.is_zero() {
        proof {
            assert(commands@ =~= before + step_commands(ecs@, delta));
        }
        return false;
    }
    let (_, player, player_pos) = ecs.player();
    let destination = player_pos.offset(delta);
    let enemies = ecs.find(Query::EnemyAt(destination));
    if enemies.len() == 0 {
        commands.push(Intent::WantsToMove { entity: player, destination });
        proof {
            assert(commands@ =~= before + step_commands(ecs@, delta));
        }
        return true;
    }
    let mut k: usize = 0;
    while k < enemies.len()
        invariant
            k <= enemies.len(),
            commands@ == before + attack_commands(enemies@.take(k as int), player),
        decreases enemies.len() - k,
    {
        commands.push(Intent::WantsToAttack { attacker: player, victim: enemies[k] });
        proof {
            assert(commands@ =~= before + attack_commands(enemies@.take(k + 1), player));
        }
        k += 1;
    }
    proof {
        assert(enemies@.take(k as int) =~= enemies@);
    }
    true
}

/// Lets the player rest: it regains one point of health, never more than
/// its maximum. A player without health is left as it is.
pub fn rest(ecs: &mut World)
    requires
        has_player(old(ecs)@),
    ensures
        final(ecs)@ == rested_world(old(ecs)@),
        old(ecs).wf() ==> final(ecs).wf(),
        has_player(final(ecs)@),
{
    let (i, _, _) = ecs.player();
    proof {
        lemma_player_index(ecs@);
    }
    let rested = ecs.entities[i].rested();
    ecs.entities.set(i, rested);
    proof {
        lemma_rest_keeps_player(old(ecs)@);
    }
}

/// Resting changes neither who the player is nor where anything stands.
pub proof fn lemma_rest_keeps_player(w: Seq<EntityRecord>)
    requires
        has_player(w),
    ensures
        has_player(rested_world(w)),
        player_index(rested_world(w)) == player_index(w),
        forall|i: int|
            0 <= i < w.len() ==> {
                &&& (#[trigger] rested_world(w)[i]).id == w[i].id
                &&& rested_world(w)[i].position == w[i].position
                &&& rested_world(w)[i].carried == w[i].carried
                &&& rested_world(w)[i].player == w[i].player
                &&& rested_world(w)[i].enemy == w[i].enemy
                &&& rested_world(w)[i].item == w[i].item
            },
{
    lemma_player_index(w);
    let p = player_index(w);
    let r = rested_world(w);
    assert(crate::world::is_player_index(r, p));
    assert forall|j: int| #[trigger] crate::world::is_player_index(r, j) implies j == p by {
        assert(crate::world::is_player_index(w, j));
    }
    assert(has_player(r));
    lemma_player_index(r);
}

/// Resolves one tick of input.
///
/// Without a key nothing happens. With a key, the action it stands for is
/// worked out against the world as it is, its intents are queued behind what
/// the buffer already holds, the player rests if the action left it standing,
/// and the turn passes to the next phase.
pub fn player_input(
    ecs: &mut World,
    commands: &mut CommandBuffer,
    key: &Option<Key>,
    turn_state: &mut TurnState,
)
    requires
        key.is_some() ==> accepts(old(ecs)@, key.unwrap()),
    ensures
        key.is_none() ==> {
            &&& final(ecs)@ == old(ecs)@
            &&& final(commands)@ == old(commands)@
            &&& *final(turn_state) == *old(turn_state)
        },
        key.is_some() ==> {
            &&& final(ecs)@ == turn_world(old(ecs)@, key.unwrap())
            &&& final(commands)@ == old(commands)@ + turn_commands(old(ecs)@, key.unwrap())
            &&& *final(turn_state) == TurnState::PlayerTurn
        },
        old(ecs).wf() ==> final(ecs).wf(),
{
    match *key {
        Some(key) => {
            let ghost before = commands@;
            let action = key.decode();
            let delta = match action {
                Action::Step(d) => d,
                Action::PickUp => {
                    pick_up(ecs, commands);
                    Point::zero()
                },
                Action::UseItem(n) => use_item(n, ecs, commands),
                Action::Nothing => Point::zero(),
            };
            let did_something = move_or_attack(delta, ecs, commands);
            proof {
                assert(commands@ =~= before + turn_commands(ecs@, key));
            }
            if !did_something && action.rests() {
                rest(ecs);
            }
            *turn_state = TurnState::PlayerTurn;
        },
        None => {},
    }
}

} // verus!
