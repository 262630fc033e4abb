//! Deferred changes to the world: queued while the world is read, applied
//! afterwards in the order in which they were queued.

use vstd::prelude::*;
use crate::components::{Entity, EntityRecord};
use crate::world::World;
use crate::geometry::Point;

verus! {

/// A one-turn record of what an entity wants to do, consumed by the systems
/// that run after the player's turn.
#[derive(Clone, Copy, Debug, PartialEq, Eq, Structural)]
pub enum Intent {
    WantsToMove { entity: Entity, destination: Point },
    WantsToAttack { attacker: Entity, victim: Entity },
    ActivateItem { used_by: Entity, item: Entity },
}

/// One queued change.
#[derive(Clone, Copy, Debug, PartialEq, Eq, Structural)]
pub enum Command {
    /// Take the position away from an entity.
    RemovePosition { entity: Entity },
    /// Record that `owner` now holds `item`.
    AddCarried { item: Entity, owner: Entity },
    /// Create a new entity that carries nothing but `intent`.
    Spawn { intent: Intent },
}

impl Command {
    /// What one queued change does to one entity: a change that names
    /// another entity, or that creates a new one, leaves it as it is.
    pub open spec fn applied_spec(self, r: EntityRecord) -> EntityRecord {
        match self {
            Command::RemovePosition { entity } => if r.id == entity {
                EntityRecord { position: None, ..r }
            } else {
                r
            },
            Command::AddCarried { item, owner } => if r.id == item {
                EntityRecord { carried: Some(owner), ..r }
            } else {
                r
            },
            Command::Spawn { intent } => r,
        }
    }

    #[verifier::when_used_as_spec(applied_spec)]
    pub fn applied(self, r: EntityRecord) -> (changed: EntityRecord)
        ensures
            changed == self.applied_spec(r),
    {
        match self {
            Command::RemovePosition { entity } => if r.id == entity {
                EntityRecord { position: None, ..r }
            } else {
                r
            },
            Command::AddCarried { item, owner } => if r.id == item {
                EntityRecord { carried: Some(owner), ..r }
            } else {
                r
            },
            Command::Spawn { intent } => r,
        }
    }
}

/// An entity after every queued change has been applied to it, oldest
/// first.
pub open spec fn after(commands: Seq<Command>, r: EntityRecord) -> EntityRecord
    decreases commands.len(),
{
    if commands.len() == 0 {
        r
    } else {
        commands.last().applied_spec(after(commands.drop_last(), r))
    }
}

/// The intents whose creation is queued, oldest first.
pub open spec fn spawned(commands: Seq<Command>) -> Seq<Intent>
    decreases commands.len(),
{
    if commands.len() == 0 {
        Seq::empty()
    } else {
        match commands.last() {
            Command::Spawn { intent } => spawned(commands.drop_last()).push(intent),
            _ => spawned(commands.drop_last()),
        }
    }
}

/// The queue of changes, oldest first.
#[derive(Clone, Debug, PartialEq, Eq)]
pub struct CommandBuffer {
    pub pending: Vec<Command>,
}

impl View for CommandBuffer {
    type V = Seq<Command>;

    open spec fn view(&self) -> Seq<Command> {
        self.pending@
    }
}

impl CommandBuffer {
    pub fn new() -> (buffer: CommandBuffer)
        ensures
            buffer@ == Seq::<Command>::empty(),
    {
        CommandBuffer { pending: Vec::new() }
    }

    /// Number of queued changes.
    pub fn len(&self) -> (n: usize)
        ensures
            n == self@.len(),
    {
        self.pending.len()
    }

    /// Queues the removal of an entity's position.
    pub fn remove_position(&mut self, entity: Entity)
        ensures
            final(self)@ == old(self)@.push(Command::RemovePosition { entity }),
    {
        self.pending.push(Command::RemovePosition { entity });
    }

    /// Queues the hand-over of `item` to `owner`.
    pub fn add_carried(&mut self, item: Entity, owner: Entity)
        ensures
            final(self)@ == old(self)@.push(Command::AddCarried { item, owner }),
    {
        self.pending.push(Command::AddCarried { item, owner });
    }

    /// Applies every queued change to the world, oldest first, and empties
    /// the queue. The intents that were to be created are handed back, in the
    /// order in which they were queued, for the systems that consume them.
    pub fn flush(&mut self, world: &mut World) -> (intents: Vec<Intent>)
        ensures
            final(self)@ == Seq::<Command>::empty(),
            final(world)@.len() == old(world)@.len(),
            forall|i: int|
                0 <= i < old(world)@.len() ==> #[trigger] final(world)@[i] == after(
                    old(self)@,
                    old(world)@[i],
                ),
            intents@ == spawned(old(self)@),
    {
        let ghost start = world@;
        let mut intents: Vec<Intent> = Vec::new();
        let n: usize = world.entities.len();
        let mut k: usize = 0;
        while k < self.pending.len()
            invariant
                k <= self@.len(),
                self@ == old(self)@,
                n == world@.len(),
                world@.len() == start.len(),
                forall|i: int|
                    0 <= i < start.len() ==> #[trigger] world@[i] == after(
                        self@.take(k as int),
                        start[i],
                    ),
                intents@ == spawned(self@.take(k as int)),
            decreases self@.len() - k,
        {
            let command = self.pending[k];
            let ghost previous = world@;
            proof {
                assert(self@.take(k + 1).drop_last() =~= self@.take(k as int));
                assert(self@.take(k + 1).last() == command);
            }
            if let Command::Spawn { intent } = command {
                intents.push(intent);
            }
            let mut i: usize = 0;
            while i < n
                invariant
                    i <= n,
                    n == world@.len(),
                    world@.len() == previous.len(),
                    forall|j: int| 0 <= j < i ==> #[trigger] world@[j] == command.applied_spec(previous[j]),
                    forall|j: int| i <= j < n ==> #[trigger] world@[j] == previous[j],
                decreases n - i,
            {
                let changed = command.applied(world.entities[i]);
                world.entities.set(i, changed);
                i += 1;
            }
            k += 1;
        }
        proof {
            assert(self@.take(k as int) =~= self@);
        }
        self.pending.clear();
        intents
    }

    /// Queues the creation of an entity that carries `intent`.
    pub fn push(&mut self, intent: Intent)
        ensures
            final(self)@ == old(self)@.push(Command::Spawn { intent }),
    {
        self.pending.push(Command::Spawn { intent });
    }
}

} // verus!
