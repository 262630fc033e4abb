//! What holds of every turn, proved from the definitions of the turn.

use vstd::prelude::*;
use crate::commands::{after, spawned, Command, Intent};
use crate::components::{Entity, EntityRecord, Health};
use crate::geometry::Point;
use crate::input::Key;
use crate::systems::player_input::{
    accepts, attack_command, attack_commands, move_command, pickup_commands,
    player_entity, player_position, rested_world, turn_commands, turn_world,
};
use crate::world::{
    distinct_ids, has_player, ids_where, lemma_player_index, player_index, Query,
};

verus! {

/// The record at index `i` is selected by `q` and has the identifier `id`.
pub open spec fn selected_at(w: Seq<EntityRecord>, q: Query, i: int, id: Entity) -> bool {
    0 <= i < w.len() && q.selects_spec(w[i]) && w[i].id == id
}

/// Some entity that `q` selects has the identifier `id`.
pub open spec fn is_selected(w: Seq<EntityRecord>, q: Query, id: Entity) -> bool {
    exists|i: int| selected_at(w, q, i, id)
}

/// The cell that a key points at from where the player stands.
pub open spec fn destination(w: Seq<EntityRecord>, key: Key) -> Point {
    player_position(w).offset_spec(key.decode_spec().delta_spec())
}

/// A query finds exactly the entities that it selects: every identifier
/// found belongs to a selected entity, every selected entity is found, and
/// where identifiers are unique none is found twice.
pub proof fn lemma_ids_where(w: Seq<EntityRecord>, q: Query)
    ensures
        ids_where(w, q).len() <= w.len(),
        forall|k: int|
            0 <= k < ids_where(w, q).len() ==> is_selected(w, q, #[trigger] ids_where(w, q)[k]),
        forall|i: int|
            0 <= i < w.len() && q.selects_spec(#[trigger] w[i]) ==> ids_where(w, q).contains(
                w[i].id,
            ),
        distinct_ids(w) ==> ids_where(w, q).no_duplicates(),
    decreases w.len(),
{
    let ids = ids_where(w, q);
    if w.len() > 0 {
        let v = w.drop_last();
        let sub = ids_where(v, q);
        let last = w.len() - 1;
        lemma_ids_where(v, q);
        assert forall|k: int| 0 <= k < ids.len() implies is_selected(w, q, #[trigger] ids[k]) by {
            if k < sub.len() {
                assert(ids[k] == sub[k]);
                assert(is_selected(v, q, sub[k]));
                let i = choose|i: int| selected_at(v, q, i, sub[k]);
                assert(v[i] == w[i]);
                assert(selected_at(w, q, i, ids[k]));
            } else {
                assert(selected_at(w, q, last, ids[k]));
            }
        }
        assert forall|i: int| 0 <= i < w.len() && q.selects_spec(#[trigger] w[i]) implies
            ids.contains(w[i].id) by {
            if i < v.len() {
                assert(v[i] == w[i]);
                assert(sub.contains(v[i].id));
                let k = choose|k: int| 0 <= k < sub.len() && sub[k] == v[i].id;
                assert(ids[k] == w[i].id);
            } else {
                assert(ids[ids.len() - 1] == w[i].id);
            }
        }
        if distinct_ids(w) {
            assert(distinct_ids(v)) by {
                assert forall|i: int, j: int| 0 <= i < j < v.len() implies
                    (#[trigger] v[i]).id != (#[trigger] v[j]).id by {
                    assert(v[i] == w[i] && v[j] == w[j]);
                }
            }
            assert forall|a: int, b: int|
                0 <= a < ids.len() && 0 <= b < ids.len() && a != b implies ids[a] != ids[b] by {
                let lo = if a < b { a } else { b };
                let hi = if a < b { b } else { a };
                if hi < sub.len() {
                    assert(ids[lo] == sub[lo] && ids[hi] == sub[hi]);
                } else {
                    assert(ids[lo] == sub[lo]);
                    assert(is_selected(v, q, sub[lo]));
                    let i = choose|i: int| selected_at(v, q, i, sub[lo]);
                    assert(v[i] == w[i]);
                    assert(w[i].id != w[last].id);
                    assert(ids[hi] == w[last].id);
                }
            }
        }
    }
}

/// A step onto a cell where no enemy stands queues exactly one intent, the
/// move to that cell, and so no attack. The player does not rest.
pub proof fn lemma_move_exclusive(w: Seq<EntityRecord>, key: Key)
    requires
        accepts(w, key),
        key.decode_spec() is Step,
        forall|i: int|
            0 <= i < w.len() ==> !Query::EnemyAt(destination(w, key)).selects_spec(#[trigger] w[i]),
    ensures
        turn_commands(w, key) == seq![move_command(player_entity(w), destination(w, key))],
        spawned(turn_commands(w, key)) == seq![
            Intent::WantsToMove { entity: player_entity(w), destination: destination(w, key) },
        ],
        turn_world(w, key) == w,
{
    let q = Query::EnemyAt(destination(w, key));
    lemma_ids_where(w, q);
    if ids_where(w, q).len() > 0 {
        assert(is_selected(w, q, ids_where(w, q)[0]));
        let i = choose|i: int| selected_at(w, q, i, ids_where(w, q)[0]);
        assert(q.selects_spec(w[i]));
    }
    let cmds = turn_commands(w, key);
    assert(cmds =~= seq![move_command(player_entity(w), destination(w, key))]);
    lemma_only_spawns(cmds, w[0]);
    assert(cmds[0] == (Command::Spawn { intent: spawned(cmds)[0] }));
    assert(spawned(cmds) =~= seq![
        Intent::WantsToMove { entity: player_entity(w), destination: destination(w, key) },
    ]);
}

/// A step onto a cell where an enemy stands queues no move. It queues
/// attacks by the player and nothing else: each on an enemy that stands on
/// that cell, one on every such enemy and, where identifiers are unique, no
/// two on the same enemy. The player does not rest.
pub proof fn lemma_attack_preempts(w: Seq<EntityRecord>, key: Key)
    requires
        accepts(w, key),
        key.decode_spec() is Step,
        exists|i: int|
            0 <= i < w.len() && Query::EnemyAt(destination(w, key)).selects_spec(#[trigger] w[i]),
    ensures
        turn_commands(w, key) == attack_commands(
            ids_where(w, Query::EnemyAt(destination(w, key))),
            player_entity(w),
        ),
        turn_commands(w, key).len() == ids_where(w, Query::EnemyAt(destination(w, key))).len(),
        turn_commands(w, key).len() >= 1,
        forall|k: int|
            0 <= k < turn_commands(w, key).len() ==> {
                &&& #[trigger] turn_commands(w, key)[k] == attack_command(
                    player_entity(w),
                    ids_where(w, Query::EnemyAt(destination(w, key)))[k],
                )
                &&& is_selected(
                    w,
                    Query::EnemyAt(destination(w, key)),
                    ids_where(w, Query::EnemyAt(destination(w, key)))[k],
                )
            },
        forall|i: int|
            0 <= i < w.len() && Query::EnemyAt(destination(w, key)).selects_spec(#[trigger] w[i])
                ==> turn_commands(w, key).contains(attack_command(player_entity(w), w[i].id)),
        distinct_ids(w) ==> turn_commands(w, key).no_duplicates(),
        spawned(turn_commands(w, key)).len() == turn_commands(w, key).len(),
        forall|k: int|
            0 <= k < turn_commands(w, key).len() ==> #[trigger] spawned(turn_commands(w, key))[k]
                == (Intent::WantsToAttack {
                attacker: player_entity(w),
                victim: ids_where(w, Query::EnemyAt(destination(w, key)))[k],
            }),
        turn_world(w, key) == w,
{
    let q = Query::EnemyAt(destination(w, key));
    let ids = ids_where(w, q);
    let cmds = turn_commands(w, key);
    let me = player_entity(w);
    lemma_ids_where(w, q);
    let i0 = choose|i: int| 0 <= i < w.len() && q.selects_spec(#[trigger] w[i]);
    assert(ids.contains(w[i0].id));
    assert(ids.len() > 0);
    assert(cmds == attack_commands(ids, me));
    assert forall|i: int| 0 <= i < w.len() && q.selects_spec(#[trigger] w[i]) implies cmds.contains(
        attack_command(me, w[i].id),
    ) by {
        assert(ids.contains(w[i].id));
        let k = choose|k: int| 0 <= k < ids.len() && ids[k] == w[i].id;
        assert(cmds[k] == attack_command(me, w[i].id));
    }
    if distinct_ids(w) {
        assert forall|a: int, b: int|
            0 <= a < cmds.len() && 0 <= b < cmds.len() && a != b implies cmds[a] != cmds[b] by {
            assert(ids[a] != ids[b]);
        }
    }
    lemma_only_spawns(cmds, w[0]);
    assert forall|k: int| 0 <= k < cmds.len() implies
        #[trigger] spawned(cmds)[k] == (Intent::WantsToAttack { attacker: me, victim: ids[k] }) by {
        assert(cmds[k] == (Command::Spawn { intent: spawned(cmds)[k] }));
        assert(cmds[k] == attack_command(me, ids[k]));
    }
}

/// A turn spent standing heals by one point, and never beyond the maximum:
/// a player one point short of its maximum reaches it, a player at its
/// maximum stays as it is. Nothing else in the world changes.
pub proof fn lemma_idle_regen_clamp(w: Seq<EntityRecord>, key: Key, health: Health)
    requires
        accepts(w, key),
        key.decode_spec().rests_spec(),
        w[player_index(w)].health == Some(health),
    ensures
        turn_world(w, key) == rested_world(w),
        turn_world(w, key).len() == w.len(),
        forall|i: int|
            0 <= i < w.len() && i != player_index(w) ==> #[trigger] turn_world(w, key)[i] == w[i],
        health.current < health.max ==> turn_world(w, key)[player_index(w)] == (EntityRecord {
            health: Some(Health { current: (health.current + 1) as i32, max: health.max }),
            ..w[player_index(w)]
        }),
        health.current == health.max - 1 ==> turn_world(w, key)[player_index(w)].health == Some(
            Health { current: health.max, max: health.max },
        ),
        health.current == health.max ==> turn_world(w, key) == w,
{
    lemma_player_index(w);
    if health.current == health.max {
        assert(turn_world(w, key) =~= w);
    }
}

/// This entity once it has been picked up by `owner`: it has no position and
/// is carried by `owner`.
pub open spec fn picked_up(r: EntityRecord, owner: Entity) -> EntityRecord {
    EntityRecord { position: None, carried: Some(owner), ..r }
}

/// Applying the changes that a pick-up of `items` queues turns each entity
/// named in `items` into one carried by `player`, and leaves every other
/// entity as it is.
pub proof fn lemma_after_pickup(items: Seq<Entity>, player: Entity, r: EntityRecord)
    ensures
        after(pickup_commands(items, player), r) == if items.contains(r.id) {
            picked_up(r, player)
        } else {
            r
        },
    decreases items.len(),
{
    let cmds = pickup_commands(items, player);
    if items.len() > 0 {
        let fewer = items.drop_last();
        let last = items.last();
        lemma_after_pickup(fewer, player, r);
        let shorter = cmds.drop_last();
        assert(shorter.drop_last() =~= pickup_commands(fewer, player));
        assert(after(cmds, r) == cmds.last().applied_spec(after(shorter, r)));
        assert(after(shorter, r) == shorter.last().applied_spec(after(shorter.drop_last(), r)));
        assert(cmds.last() == (Command::AddCarried { item: last, owner: player }));
        assert(cmds.drop_last().last() == (Command::RemovePosition { entity: last }));
        if last == r.id {
            assert(items[items.len() - 1] == r.id);
        } else if items.contains(r.id) {
            let k = choose|k: int| 0 <= k < items.len() && items[k] == r.id;
            assert(fewer[k] == r.id);
        } else if fewer.contains(r.id) {
            let k = choose|k: int| 0 <= k < fewer.len() && fewer[k] == r.id;
            assert(items[k] == r.id);
        }
    } else {
        assert(!items.contains(r.id));
    }
}

/// Once the changes queued by the pick-up key are applied, every item that
/// lay on the player's cell has lost its position and is carried by the
/// player, and every other entity is as it was.
pub proof fn lemma_pickup_transfers(w: Seq<EntityRecord>, i: int)
    requires
        has_player(w),
        distinct_ids(w),
        0 <= i < w.len(),
    ensures
        Query::ItemAt(player_position(w)).selects_spec(w[i]) ==> after(
            turn_commands(w, Key::G),
            w[i],
        ) == picked_up(w[i], player_entity(w)),
        !Query::ItemAt(player_position(w)).selects_spec(w[i]) ==> after(
            turn_commands(w, Key::G),
            w[i],
        ) == w[i],
{
    let q = Query::ItemAt(player_position(w));
    let items = ids_where(w, q);
    lemma_ids_where(w, q);
    lemma_after_pickup(items, player_entity(w), w[i]);
    if q.selects_spec(w[i]) {
        assert(items.contains(w[i].id));
    } else if items.contains(w[i].id) {
        let k = choose|k: int| 0 <= k < items.len() && items[k] == w[i].id;
        assert(is_selected(w, q, items[k]));
        let j = choose|j: int| selected_at(w, q, j, items[k]);
        if j < i {
            assert(w[j].id != w[i].id);
        } else if i < j {
            assert(w[i].id != w[j].id);
        }
    }
}

/// The queue holds nothing but creations of intents.
pub open spec fn only_spawns(commands: Seq<Command>) -> bool {
    forall|k: int| 0 <= k < commands.len() ==> #[trigger] commands[k] is Spawn
}

/// The queue holds no creation of an intent.
pub open spec fn no_spawns(commands: Seq<Command>) -> bool {
    forall|k: int| 0 <= k < commands.len() ==> !(#[trigger] commands[k] is Spawn)
}

/// A queue that only creates intents changes no entity that exists, and
/// hands back one intent per entry, in order.
pub proof fn lemma_only_spawns(commands: Seq<Command>, r: EntityRecord)
    requires
        only_spawns(commands),
    ensures
        after(commands, r) == r,
        spawned(commands).len() == commands.len(),
        forall|k: int|
            0 <= k < commands.len() ==> commands[k] == (Command::Spawn {
                intent: #[trigger] spawned(commands)[k],
            }),
    decreases commands.len(),
{
    if commands.len() > 0 {
        let shorter = commands.drop_last();
        assert(only_spawns(shorter)) by {
            assert forall|k: int| 0 <= k < shorter.len() implies #[trigger] shorter[k] is Spawn by {
                assert(shorter[k] == commands[k]);
            }
        }
        lemma_only_spawns(shorter, r);
        assert(commands[commands.len() - 1] is Spawn);
        assert forall|k: int| 0 <= k < commands.len() implies commands[k] == (Command::Spawn {
            intent: #[trigger] spawned(commands)[k],
        }) by {
            if k < shorter.len() {
                assert(shorter[k] == commands[k]);
                assert(spawned(commands)[k] == spawned(shorter)[k]);
            }
        }
    }
}

/// A queue that creates no intent hands none back.
pub proof fn lemma_no_spawns(commands: Seq<Command>)
    requires
        no_spawns(commands),
    ensures
        spawned(commands) == Seq::<Intent>::empty(),
    decreases commands.len(),
{
    if commands.len() > 0 {
        let shorter = commands.drop_last();
        assert(no_spawns(shorter)) by {
            assert forall|k: int| 0 <= k < shorter.len() implies !(#[trigger] shorter[k] is Spawn) by {
                assert(shorter[k] == commands[k]);
            }
        }
        lemma_no_spawns(shorter);
        assert(!(commands[commands.len() - 1] is Spawn));
    }
}

/// Every turn queues changes of one kind only: a pick-up creates no intent,
/// and every other key queues nothing but creations of intents, so that it
/// changes no entity that exists.
pub proof fn lemma_one_kind_of_change(w: Seq<EntityRecord>, key: Key)
    ensures
        key.decode_spec() is PickUp ==> no_spawns(turn_commands(w, key)) && spawned(
            turn_commands(w, key),
        ) == Seq::<Intent>::empty(),
        !(key.decode_spec() is PickUp) ==> only_spawns(turn_commands(w, key)),
        !(key.decode_spec() is PickUp) ==> forall|r: EntityRecord| #[trigger]
            after(turn_commands(w, key), r) == r,
{
    let cmds = turn_commands(w, key);
    if key.decode_spec() is PickUp {
        lemma_no_spawns(cmds);
    } else {
        assert(only_spawns(cmds));
        assert forall|r: EntityRecord| #[trigger] after(cmds, r) == r by {
            lemma_only_spawns(cmds, r);
        }
    }
}

/// A turn keeps every entity well formed and keeps its identifier, also once
/// the queued changes are applied: an item that is picked up is carried and
/// no longer has a position, and the player's health stays within its
/// maximum.
pub proof fn lemma_turn_keeps_entities_well_formed(w: Seq<EntityRecord>, key: Key, i: int)
    requires
        accepts(w, key),
        0 <= i < w.len(),
        w[i].wf(),
    ensures
        turn_world(w, key).len() == w.len(),
        turn_world(w, key)[i].wf(),
        turn_world(w, key)[i].id == w[i].id,
        after(turn_commands(w, key), turn_world(w, key)[i]).wf(),
        after(turn_commands(w, key), turn_world(w, key)[i]).id == w[i].id,
{
    lemma_player_index(w);
    let r = turn_world(w, key)[i];
    assert(r.wf() && r.id == w[i].id);
    if key.decode_spec() is PickUp {
        lemma_after_pickup(
            ids_where(w, Query::ItemAt(player_position(w))),
            player_entity(w),
            r,
        );
    } else {
        lemma_one_kind_of_change(w, key);
    }
}

/// A key without meaning changes nothing in the world and queues nothing.
pub proof fn lemma_unmapped_key_is_inert(w: Seq<EntityRecord>, key: Key)
    requires
        key.decode_spec() is Nothing,
    ensures
        turn_world(w, key) == w,
        turn_commands(w, key) == Seq::<Command>::empty(),
{
}

} // verus!
