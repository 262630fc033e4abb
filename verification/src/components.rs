//! The facts that can be attached to an entity, and the turn cycle.

use vstd::prelude::*;
use crate::geometry::Point;

verus! {

/// An opaque identifier of one thing in the world.
#[derive(Clone, Copy, Debug, PartialEq, Eq, Hash, Structural)]
pub struct Entity(pub u64);

/// Hit points of a creature.
#[derive(Clone, Copy, Debug, PartialEq, Eq, Structural)]
pub struct Health {
    pub current: i32,
    pub max: i32,
}

impl Health {
    /// Hit points never exceed their maximum.
    pub open spec fn wf(self) -> bool {
        self.current <= self.max
    }

    /// One point of passive regeneration, clamped to the maximum:
    /// `current` becomes `min(max, current + 1)`.
    pub open spec fn regenerated_spec(self) -> Health {
        Health {
            current: if self.current + 1 <= self.max { (self.current + 1) as i32 } else { self.max },
            max: self.max,
        }
    }

    #[verifier::when_used_as_spec(regenerated_spec)]
    pub fn regenerated(self) -> (healed: Health)
        ensures
            healed == self.regenerated_spec(),
            healed.wf(),
            healed.max == self.max,
            self.current < self.max ==> healed.current == self.current + 1,
            self.current >= self.max ==> healed.current == self.max,
    {
        if self.current < self.max {
            Health { current: self.current + 1, max: self.max }
        } else {
            Health { current: self.max, max: self.max }
        }
    }
}

/// The phase of the turn cycle.
#[derive(Clone, Copy, Debug, PartialEq, Eq, Structural)]
pub enum TurnState {
    AwaitingInput,
    PlayerTurn,
    EnemyTurn,
    GameOver,
    Victory,
}

/// Everything the world knows about one entity. A marker component is a
/// flag; a component with data is `Some` when the entity has it.
#[derive(Clone, Copy, Debug, PartialEq, Eq)]
pub struct EntityRecord {
    pub id: Entity,
    pub position: Option<Point>,
    pub player: bool,
    pub enemy: bool,
    pub item: bool,
    pub health: Option<Health>,
    /// The entity that holds this item, when it is not on the ground.
    pub carried: Option<Entity>,
}

impl EntityRecord {
    /// An item is on the ground or carried, never both, and hit points stay
    /// within their maximum.
    pub open spec fn wf(self) -> bool {
        &&& !(self.position.is_some() && self.carried.is_some())
        &&& self.health.is_some() ==> self.health.unwrap().wf()
    }

    #[verifier::when_used_as_spec(wf)]
    pub fn is_wf(self) -> (ok: bool)
        ensures
            ok == self.wf(),
    {
        let on_ground_or_carried = !(self.position.is_some() && self.carried.is_some());
        let health_in_range = match self.health {
            Some(h) => h.current <= h.max,
            None => true,
        };
        on_ground_or_carried && health_in_range
    }

    /// This record after one point of passive regeneration; a record
    /// without hit points is returned as it is.
    pub open spec fn rested_spec(self) -> EntityRecord {
        match self.health {
            Some(h) => EntityRecord { health: Some(h.regenerated_spec()), ..self },
            None => self,
        }
    }

    /// An entity with the given identifier and no component at all.
    pub fn bare(id: Entity) -> (r: EntityRecord)
        ensures
            r == (EntityRecord {
                id,
                position: None,
                player: false,
                enemy: false,
                item: false,
                health: None,
                carried: None,
            }),
    {
        EntityRecord {
            id,
            position: None,
            player: false,
            enemy: false,
            item: false,
            health: None,
            carried: None,
        }
    }

    #[verifier::when_used_as_spec(rested_spec)]
    pub fn rested(self) -> (r: EntityRecord)
        ensures
            r == self.rested_spec(),
            self.wf() ==> r.wf(),
    {
        match self.health {
            Some(h) => EntityRecord { health: Some(h.regenerated()), ..self },
            None => self,
        }
    }
}

} // verus!
