//! The world: every entity with its components, in a fixed iteration order.

use vstd::prelude::*;
use crate::components::{Entity, EntityRecord};
use crate::geometry::Point;

verus! {

/// A question that selects entities by their components.
#[derive(Clone, Copy, Debug, PartialEq, Eq, Structural)]
pub enum Query {
    /// Items that lie on the given cell.
    ItemAt(Point),
    /// Items held by the given entity.
    CarriedBy(Entity),
    /// Enemies that stand on the given cell.
    EnemyAt(Point),
}

impl Query {
    /// Whether the query selects an entity with these components.
    pub open spec fn selects_spec(self, r: EntityRecord) -> bool {
        match self {
            Query::ItemAt(cell) => r.item && r.position == Some(cell),
            Query::CarriedBy(owner) => r.item && r.carried == Some(owner),
            Query::EnemyAt(cell) => r.enemy && r.position == Some(cell),
        }
    }

    #[verifier::when_used_as_spec(selects_spec)]
    pub fn selects(self, r: EntityRecord) -> (yes: bool)
        ensures
            yes == self.selects_spec(r),
    {
        match self {
            Query::ItemAt(cell) => r.item && match r.position {
                Some(p) => p == cell,
                None => false,
            },
            Query::CarriedBy(owner) => r.item && match r.carried {
                Some(o) => o == owner,
                None => false,
            },
            Query::EnemyAt(cell) => r.enemy && match r.position {
                Some(p) => p == cell,
                None => false,
            },
        }
    }
}

/// The identifiers of the entities that `q` selects, in iteration order.
pub open spec fn ids_where(w: Seq<EntityRecord>, q: Query) -> Seq<Entity>
    decreases w.len(),
{
    if w.len() == 0 {
        Seq::empty()
    } else if q.selects_spec(w.last()) {
        ids_where(w.drop_last(), q).push(w.last().id)
    } else {
        ids_where(w.drop_last(), q)
    }
}

/// Index `i` holds an entity marked as the player.
pub open spec fn is_player_index(w: Seq<EntityRecord>, i: int) -> bool {
    0 <= i < w.len() && w[i].player
}

/// Exactly one entity is marked as the player, and it has a position.
pub open spec fn has_player(w: Seq<EntityRecord>) -> bool {
    exists|i: int|
        {
            &&& #[trigger] is_player_index(w, i)
            &&& w[i].position.is_some()
            &&& forall|j: int| #[trigger] is_player_index(w, j) ==> j == i
        }
}

/// Where the player's record stands in the world.
pub open spec fn player_index(w: Seq<EntityRecord>) -> int {
    choose|i: int| is_player_index(w, i)
}

/// No two entities share an identifier.
pub open spec fn distinct_ids(w: Seq<EntityRecord>) -> bool {
    forall|i: int, j: int| 0 <= i < j < w.len() ==> (#[trigger] w[i]).id != (#[trigger] w[j]).id
}

/// Some entity of the world has the identifier `id`.
pub open spec fn has_id(w: Seq<EntityRecord>, id: Entity) -> bool {
    exists|i: int| 0 <= i < w.len() && (#[trigger] w[i]).id == id
}

/// In a world with a player, `player_index` is the one index marked as the
/// player, and the record there has a position.
pub proof fn lemma_player_index(w: Seq<EntityRecord>)
    requires
        has_player(w),
    ensures
        is_player_index(w, player_index(w)),
        w[player_index(w)].position.is_some(),
        forall|j: int| #[trigger] is_player_index(w, j) ==> j == player_index(w),
{
    let i = choose|i: int|
        {
            &&& #[trigger] is_player_index(w, i)
            &&& w[i].position.is_some()
            &&& forall|j: int| #[trigger] is_player_index(w, j) ==> j == i
        };
    assert(is_player_index(w, i));
    assert(is_player_index(w, player_index(w)));
}

/// All entities, in the order in which every query walks them.
#[derive(Clone, Debug, PartialEq, Eq)]
pub struct World {
    pub entities: Vec<EntityRecord>,
}

impl View for World {
    type V = Seq<EntityRecord>;

    open spec fn view(&self) -> Seq<EntityRecord> {
        self.entities@
    }
}

impl World {
    /// Identifiers are unique and every record is well formed.
    pub open spec fn wf(&self) -> bool {
        &&& distinct_ids(self@)
        &&& forall|i: int| 0 <= i < self@.len() ==> (#[trigger] self@[i]).wf()
    }

    pub fn new() -> (world: World)
        ensures
            world@ == Seq::<EntityRecord>::empty(),
            world.wf(),
    {
        World { entities: Vec::new() }
    }

    /// Adds an entity at the end of the iteration order, whatever it holds.
    pub fn push(&mut self, record: EntityRecord)
        ensures
            final(self)@ == old(self)@.push(record),
    {
        self.entities.push(record);
    }

    /// Whether some entity has the identifier `id`.
    pub fn contains(&self, id: Entity) -> (yes: bool)
        ensures
            yes == has_id(self@, id),
    {
        let mut i: usize = 0;
        while i < self.entities.len()
            invariant
                i <= self.entities.len(),
                forall|j: int| 0 <= j < i ==> (#[trigger] self@[j]).id != id,
            decreases self.entities.len() - i,
        {
            if self.entities[i].id == id {
                return true;
            }
            i += 1;
        }
        false
    }

    /// Adds an entity at the end of the iteration order if it is well
    /// formed and its identifier is not in use; otherwise the world stays as
    /// it is. A well-formed world stays well formed.
    pub fn insert(&mut self, record: EntityRecord) -> (added: bool)
        ensures
            added == (record.wf() && !has_id(old(self)@, record.id)),
            added ==> final(self)@ == old(self)@.push(record),
            !added ==> final(self)@ == old(self)@,
            old(self).wf() ==> final(self).wf(),
    {
        if !record.is_wf() || self.contains(record.id) {
            return false;
        }
        self.entities.push(record);
        proof {
            if old(self).wf() {
                assert forall|i: int, j: int| 0 <= i < j < self@.len() implies (#[trigger] self@[i]).id
                    != (#[trigger] self@[j]).id by {
                    assert(self@[i] == old(self)@[i]);
                    if j < old(self)@.len() {
                        assert(self@[j] == old(self)@[j]);
                    }
                }
                assert forall|i: int| 0 <= i < self@.len() implies (#[trigger] self@[i]).wf() by {
                    if i < old(self)@.len() {
                        assert(self@[i] == old(self)@[i]);
                    }
                }
            }
        }
        true
    }

    /// Number of entities.
    pub fn len(&self) -> (n: usize)
        ensures
            n == self@.len(),
    {
        self.entities.len()
    }

    /// The record at a place of the iteration order.
    pub fn get(&self, index: usize) -> (r: Option<EntityRecord>)
        ensures
            index < self@.len() ==> r == Some(self@[index as int]),
            index >= self@.len() ==> r.is_none(),
    {
        if index < self.entities.len() {
            Some(self.entities[index])
        } else {
            None
        }
    }

    /// The entities that `q` selects, in iteration order.
    pub fn find(&self, q: Query) -> (ids: Vec<Entity>)
        ensures
            ids@ == ids_where(self@, q),
    {
        let mut ids: Vec<Entity> = Vec::new();
        let mut i: usize = 0;
        while i < self.entities.len()
            invariant
                i <= self.entities.len(),
                ids@ == ids_where(self@.take(i as int), q),
            decreases self.entities.len() - i,
        {
            proof {
                assert(self@.take(i + 1).drop_last() =~= self@.take(i as int));
            }
            if q.selects(self.entities[i]) {
                ids.push(self.entities[i].id);
            }
            i += 1;
        }
        proof {
            assert(self@.take(i as int) =~= self@);
        }
        ids
    }

    /// Looks for the player: the index of its record when exactly one
    /// entity is marked as the player and that entity has a position.
    pub fn locate_player(&self) -> (found: Option<usize>)
        ensures
            found.is_some() == has_player(self@),
            found.is_some() ==> found.unwrap() == player_index(self@),
    {
        let mut first: Option<usize> = None;
        let mut i: usize = 0;
        let mut many: bool = false;
        while i < self.entities.len()
            invariant
                i <= self.entities.len(),
                first.is_none() ==> !many && forall|j: int| 0 <= j < i ==> !is_player_index(self@, j),
                first.is_some() ==> first.unwrap() < i && is_player_index(
                    self@,
                    first.unwrap() as int,
                ),
                first.is_some() && !many ==> forall|j: int|
                    0 <= j < i && is_player_index(self@, j) ==> j == first.unwrap(),
                many ==> exists|a: int, b: int|
                    a != b && is_player_index(self@, a) && is_player_index(self@, b),
            decreases self.entities.len() - i,
        {
            if self.entities[i].player {
                match first {
                    Some(f) => {
                        many = true;
                        proof {
                            assert(is_player_index(self@, f as int) && is_player_index(
                                self@,
                                i as int,
                            ));
                        }
                    },
                    None => {
                        first = Some(i);
                    },
                }
            }
            i += 1;
        }
        match first {
            Some(f) => {
                if !many && self.entities[f].position.is_some() {
                    proof {
                        assert(is_player_index(self@, f as int));
                        assert(has_player(self@));
                        lemma_player_index(self@);
                    }
                    Some(f)
                } else {
                    proof {
                        if has_player(self@) {
                            lemma_player_index(self@);
                        }
                    }
                    None
                }
            },
            None => {
                proof {
                    if has_player(self@) {
                        lemma_player_index(self@);
                    }
                }
                None
            },
        }
    }

    /// The player's entity and the cell it stands on.
    pub fn player(&self) -> (found: (usize, Entity, Point))
        requires
            has_player(self@),
        ensures
            found.0 == player_index(self@),
            found.1 == self@[player_index(self@)].id,
            Some(found.2) == self@[player_index(self@)].position,
    {
        proof {
            lemma_player_index(self@);
        }
        let n: usize = self.entities.len();
        let mut i: usize = 0;
        while !self.entities[i].player
            invariant
                n == self@.len(),
                has_player(self@),
                0 <= i <= player_index(self@) < self@.len(),
                is_player_index(self@, player_index(self@)),
            decreases self@.len() - i,
        {
            assert(self@[player_index(self@)].player);
            assert(i < player_index(self@));
            i += 1;
        }
        proof {
            assert(is_player_index(self@, i as int));
        }
        let r = &self.entities[i];
        match r.position {
            Some(p) => (i, r.id, p),
            None => (i, r.id, Point { x: 0, y: 0 }),
        }
    }
}

} // verus!
