//! The rules of the game, as handlers of collisions:
//! * Bullet meets Enemy => Both destroyed
//! * Bullet meets Wall => Bullet destroyed
//! * Enemy meets Wall => Enemy bounces/reverses
//! * Enemy meets player => Player health decreases + enemy destroyed

use crate::entity::EntityId;
use crate::handler::{told_all, CollisionHandler};
use crate::shape::Shape;
use crate::world::{Health, Healths, Shapes};
use std::collections::HashSet;
use vstd::prelude::*;

verus! {

broadcast use vstd::std_specs::hash::group_hash_axioms;

/// The left entities of the pairs.
pub open spec fn lefts(pairs: Set<(EntityId, EntityId)>) -> Set<u32> {
    Set::new(|id: u32| exists|right: EntityId| pairs.contains((EntityId(id), right)))
}

/// The right entities of the pairs.
pub open spec fn rights(pairs: Set<(EntityId, EntityId)>) -> Set<u32> {
    Set::new(|id: u32| exists|left: EntityId| pairs.contains((left, EntityId(id))))
}

/// The velocity of the shape can be reversed.
pub open spec fn reversible(shape: Shape) -> bool {
    shape.vel.0 > i32::MIN && shape.vel.1 > i32::MIN
}

/// The shape after it has bounced: back where it was, and going the other
/// way.
pub open spec fn bounced(shape: Shape) -> Shape {
    Shape {
        center: shape.center_prev,
        center_prev: shape.center_prev,
        size: shape.size,
        vel: ((-shape.vel.0) as i32, (-shape.vel.1) as i32),
    }
}

/// Enemy meets wall: the enemy bounces. Holds the shapes while collisions
/// are handled.
pub struct Bounce {
    pub shapes: Shapes,
}

impl CollisionHandler for Bounce {
    type State = Map<u32, Shape>;

    open spec fn state(&self) -> Map<u32, Shape> {
        self.shapes@
    }

    open spec fn accepts(state: Map<u32, Shape>, left: EntityId, right: EntityId) -> bool {
        state.contains_key(left.0) && reversible(state[left.0])
    }

    open spec fn told(state: Map<u32, Shape>, left: EntityId, right: EntityId) -> Map<u32, Shape> {
        state.insert(left.0, bounced(state[left.0]))
    }

    fn handle(&mut self, baddie_id: EntityId, _wall_id: EntityId) {
        let mut baddie_shape = self.shapes.remove(&baddie_id.0).unwrap();
        baddie_shape.move_back();
        baddie_shape.reverse();
        self.shapes.insert(baddie_id.0, baddie_shape);
        proof {
            assert(baddie_shape == bounced(old(self).shapes@[baddie_id.0]));
            assert(self.shapes@ =~= old(self).shapes@.insert(baddie_id.0, baddie_shape));
        }
    }
}

/// Bullet meets wall: the bullet is destroyed. Collects the entities to
/// remove.
pub struct Destroy {
    pub to_remove: HashSet<u32>,
}

impl CollisionHandler for Destroy {
    type State = Set<u32>;

    open spec fn state(&self) -> Set<u32> {
        self.to_remove@
    }

    open spec fn accepts(state: Set<u32>, left: EntityId, right: EntityId) -> bool {
        true
    }

    open spec fn told(state: Set<u32>, left: EntityId, right: EntityId) -> Set<u32> {
        state.insert(left.0)
    }

    fn handle(&mut self, bullet_id: EntityId, _wall_id: EntityId) {
        self.to_remove.insert(bullet_id.0);
    }
}

/// Bullet meets enemy: both are destroyed. Collects the entities to remove.
pub struct DestroyBoth {
    pub to_remove: HashSet<u32>,
}

impl CollisionHandler for DestroyBoth {
    type State = Set<u32>;

    open spec fn state(&self) -> Set<u32> {
        self.to_remove@
    }

    open spec fn accepts(state: Set<u32>, left: EntityId, right: EntityId) -> bool {
        true
    }

    open spec fn told(state: Set<u32>, left: EntityId, right: EntityId) -> Set<u32> {
        state.insert(left.0).insert(right.0)
    }

    fn handle(&mut self, bullet_id: EntityId, baddie_id: EntityId) {
        self.to_remove.insert(bullet_id.0);
        self.to_remove.insert(baddie_id.0);
    }
}

/// A health one lower, but never below the least value there is.
pub open spec fn wounded(health: Health) -> Health {
    if health > i32::MIN {
        (health - 1) as i32
    } else {
        health
    }
}

/// Enemy meets player: the enemy is destroyed and the player's health
/// decreases. Collects the entities to remove, and holds the healths while
/// collisions are handled.
pub struct Wound {
    pub to_remove: HashSet<u32>,
    pub healths: Healths,
}

impl CollisionHandler for Wound {
    type State = (Set<u32>, Map<u32, Health>);

    open spec fn state(&self) -> (Set<u32>, Map<u32, Health>) {
        (self.to_remove@, self.healths@)
    }

    open spec fn accepts(
        state: (Set<u32>, Map<u32, Health>),
        left: EntityId,
        right: EntityId,
    ) -> bool {
        state.1.contains_key(right.0)
    }

    open spec fn told(state: (Set<u32>, Map<u32, Health>), left: EntityId, right: EntityId) -> (
        Set<u32>,
        Map<u32, Health>,
    ) {
        (state.0.insert(left.0), state.1.insert(right.0, wounded(state.1[right.0])))
    }

    fn handle(&mut self, baddie_id: EntityId, cannon_id: EntityId) {
        self.to_remove.insert(baddie_id.0);
        let cannon_health = *self.healths.get(&cannon_id.0).unwrap();
        let new_health = if cannon_health > i32::MIN {
            cannon_health - 1
        } else {
            cannon_health
        };
        self.healths.insert(cannon_id.0, new_health);
    }
}

/// `id` is the left entity of one of the calls.
pub open spec fn is_left_of(id: u32, calls: Seq<(EntityId, EntityId)>) -> bool {
    exists|k: int| 0 <= k < calls.len() && (#[trigger] calls[k]).0.0 == id
}

/// Bouncing keeps every shape there, with its size. A shape that does not
/// bounce stays as it is; one that does is where it was, or stays where it
/// is, and can be reversed again.
pub proof fn lemma_bounce_keeps(state: Map<u32, Shape>, calls: Seq<(EntityId, EntityId)>)
    requires
        forall|k: int| 0 <= k < calls.len() ==> state.contains_key((#[trigger] calls[k]).0.0),
    ensures
        told_all::<Bounce>(state, calls).dom() == state.dom(),
        forall|id: u32| #[trigger]
            state.contains_key(id) ==> {
                let shape = told_all::<Bounce>(state, calls)[id];
                &&& shape.size == state[id].size
                &&& shape.center_prev == state[id].center_prev
                &&& (shape.center == state[id].center || shape.center == state[id].center_prev)
                &&& reversible(state[id]) ==> reversible(shape)
                &&& !is_left_of(id, calls) ==> shape == state[id]
            },
    decreases calls.len(),
{
    if calls.len() > 0 {
        let rest = calls.drop_last();
        assert forall|k: int| 0 <= k < rest.len() implies state.contains_key(
            (#[trigger] rest[k]).0.0,
        ) by {
            assert(rest[k] == calls[k]);
        }
        lemma_bounce_keeps(state, rest);
        let last = calls[calls.len() - 1];
        assert(state.contains_key(last.0.0));
        assert(told_all::<Bounce>(state, calls).dom() =~= state.dom());
        assert forall|id: u32| #[trigger] state.contains_key(id) && !is_left_of(
            id,
            calls,
        ) implies told_all::<Bounce>(state, calls)[id] == state[id] by {
            assert(last.0.0 != id);
            if is_left_of(id, rest) {
                let k = choose|k: int| 0 <= k < rest.len() && (#[trigger] rest[k]).0.0 == id;
                assert(calls[k].0.0 == id);
            }
        }
    }
}

/// With one more call, the left entities are those of the calls before and
/// the left entity of the last, and so for the right entities.
pub proof fn lemma_sides_one_more(calls: Seq<(EntityId, EntityId)>)
    requires
        calls.len() > 0,
    ensures
        lefts(calls.to_set()) == lefts(calls.drop_last().to_set()).insert(calls.last().0.0),
        rights(calls.to_set()) == rights(calls.drop_last().to_set()).insert(calls.last().1.0),
{
    let rest = calls.drop_last();
    let last = calls.last();
    assert(calls[calls.len() - 1] == last);
    assert(calls.to_set().contains(last));
    assert forall|pair: (EntityId, EntityId)| calls.to_set().contains(pair) <==> (
    rest.to_set().contains(pair) || pair == last) by {
        if calls.to_set().contains(pair) {
            let k = choose|k: int| 0 <= k < calls.len() && calls[k] == pair;
            if k < calls.len() - 1 {
                assert(rest[k] == pair);
            }
        }
        if rest.to_set().contains(pair) {
            let k = choose|k: int| 0 <= k < rest.len() && rest[k] == pair;
            assert(calls[k] == pair);
        }
    }
    assert forall|id: u32| lefts(calls.to_set()).contains(id) <==> lefts(
        rest.to_set(),
    ).insert(last.0.0).contains(id) by {
        if lefts(calls.to_set()).contains(id) {
            let right = choose|right: EntityId| calls.to_set().contains((EntityId(id), right));
            if (EntityId(id), right) != last {
                assert(rest.to_set().contains((EntityId(id), right)));
            }
        }
        if lefts(rest.to_set()).contains(id) {
            let right = choose|right: EntityId| rest.to_set().contains((EntityId(id), right));
            assert(calls.to_set().contains((EntityId(id), right)));
        }
        if id == last.0.0 {
            assert(calls.to_set().contains((EntityId(id), last.1)));
        }
    }
    assert forall|id: u32| rights(calls.to_set()).contains(id) <==> rights(
        rest.to_set(),
    ).insert(last.1.0).contains(id) by {
        if rights(calls.to_set()).contains(id) {
            let left = choose|left: EntityId| calls.to_set().contains((left, EntityId(id)));
            if (left, EntityId(id)) != last {
                assert(rest.to_set().contains((left, EntityId(id))));
            }
        }
        if rights(rest.to_set()).contains(id) {
            let left = choose|left: EntityId| rest.to_set().contains((left, EntityId(id)));
            assert(calls.to_set().contains((left, EntityId(id))));
        }
        if id == last.1.0 {
            assert(calls.to_set().contains((last.0, EntityId(id))));
        }
    }
    assert(lefts(calls.to_set()) =~= lefts(rest.to_set()).insert(last.0.0));
    assert(rights(calls.to_set()) =~= rights(rest.to_set()).insert(last.1.0));
}

/// `Destroy` ends with the left entity of every pair it was handed.
pub proof fn lemma_destroy_collects(state: Set<u32>, calls: Seq<(EntityId, EntityId)>)
    ensures
        told_all::<Destroy>(state, calls) == state.union(lefts(calls.to_set())),
    decreases calls.len(),
{
    if calls.len() == 0 {
        assert(state.union(lefts(calls.to_set())) =~= state);
    } else {
        lemma_destroy_collects(state, calls.drop_last());
        lemma_sides_one_more(calls);
        assert(told_all::<Destroy>(state, calls) =~= state.union(lefts(calls.to_set())));
    }
}

/// `DestroyBoth` ends with both entities of every pair it was handed.
pub proof fn lemma_destroy_both_collects(state: Set<u32>, calls: Seq<(EntityId, EntityId)>)
    ensures
        told_all::<DestroyBoth>(state, calls) == state.union(lefts(calls.to_set())).union(
            rights(calls.to_set()),
        ),
    decreases calls.len(),
{
    if calls.len() == 0 {
        assert(state.union(lefts(calls.to_set())).union(rights(calls.to_set())) =~= state);
    } else {
        lemma_destroy_both_collects(state, calls.drop_last());
        lemma_sides_one_more(calls);
        assert(told_all::<DestroyBoth>(state, calls) =~= state.union(
            lefts(calls.to_set()),
        ).union(rights(calls.to_set())));
    }
}

/// `Wound` ends with the left entity of every pair it was handed, and with
/// a health for whatever had one.
pub proof fn lemma_wound_collects(
    state: (Set<u32>, Map<u32, Health>),
    calls: Seq<(EntityId, EntityId)>,
)
    requires
        forall|k: int| 0 <= k < calls.len() ==> state.1.contains_key((#[trigger] calls[k]).1.0),
    ensures
        told_all::<Wound>(state, calls).0 == state.0.union(lefts(calls.to_set())),
        told_all::<Wound>(state, calls).1.dom() == state.1.dom(),
    decreases calls.len(),
{
    if calls.len() == 0 {
        assert(state.0.union(lefts(calls.to_set())) =~= state.0);
    } else {
        let rest = calls.drop_last();
        assert forall|k: int| 0 <= k < rest.len() implies state.1.contains_key(
            (#[trigger] rest[k]).1.0,
        ) by {
            assert(rest[k] == calls[k]);
        }
        lemma_wound_collects(state, rest);
        lemma_sides_one_more(calls);
        assert(state.1.contains_key(calls[calls.len() - 1].1.0));
        assert(told_all::<Wound>(state, calls).0 =~= state.0.union(lefts(calls.to_set())));
        assert(told_all::<Wound>(state, calls).1.dom() =~= state.1.dom());
    }
}

} // verus!
