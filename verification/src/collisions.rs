//! Detected collisions: sets of pairs of identifiers, one set for each kind
//! of pair.

use crate::collision_system::CollisionKind;
use crate::entity::EntityId;
use crate::helpers::{lemma_take_one_more, set_members};
use std::collections::HashSet;
use vstd::prelude::*;

verus! {

broadcast use vstd::std_specs::hash::group_hash_axioms;

/// One number for a pair of identifiers: the left one in the upper half,
/// the right one in the lower half.
pub open spec fn spec_pair_key(left: EntityId, right: EntityId) -> u64 {
    (left.0 * 0x1_0000_0000 + right.0) as u64
}

/// The pair of identifiers that a number stands for.
pub open spec fn spec_key_pair(key: u64) -> (EntityId, EntityId) {
    (EntityId((key / 0x1_0000_0000) as u32), EntityId((key % 0x1_0000_0000) as u32))
}

/// Pairs and their numbers correspond one to one.
pub proof fn lemma_pair_key_round_trip(left: EntityId, right: EntityId, key: u64)
    ensures
        spec_key_pair(spec_pair_key(left, right)) == (left, right),
        spec_pair_key(spec_key_pair(key).0, spec_key_pair(key).1) == key,
{
}

fn pair_key(left: EntityId, right: EntityId) -> (key: u64)
    ensures
        key == spec_pair_key(left, right),
{
    (left.0 as u64) * 0x1_0000_0000 + (right.0 as u64)
}

fn key_pair(key: u64) -> (pair: (EntityId, EntityId))
    ensures
        pair == spec_key_pair(key),
{
    (EntityId((key / 0x1_0000_0000) as u32), EntityId((key % 0x1_0000_0000) as u32))
}

/// Colliding pairs of one kind: a set, so that a pair detected in several
/// bins is held once.
pub struct CollisionPairs {
    pub keys: HashSet<u64>,
}

impl View for CollisionPairs {
    type V = Set<(EntityId, EntityId)>;

    open spec fn view(&self) -> Set<(EntityId, EntityId)> {
        Set::new(|pair: (EntityId, EntityId)| self.keys@.contains(spec_pair_key(pair.0, pair.1)))
    }
}

impl CollisionPairs {
    pub fn new() -> (pairs: Self)
        ensures
            pairs@ == Set::<(EntityId, EntityId)>::empty(),
    {
        let pairs = CollisionPairs { keys: HashSet::new() };
        assert(pairs@ =~= Set::<(EntityId, EntityId)>::empty());
        pairs
    }

    /// Adds the pair; a pair that is already held stays held once.
    pub fn insert(&mut self, left: EntityId, right: EntityId)
        ensures
            final(self)@ == old(self)@.insert((left, right)),
    {
        self.keys.insert(pair_key(left, right));
        proof {
            assert forall|pair: (EntityId, EntityId)| #[trigger]
                self@.contains(pair) <==> old(self)@.insert((left, right)).contains(pair) by {
                lemma_pair_key_round_trip(pair.0, pair.1, 0);
                lemma_pair_key_round_trip(left, right, 0);
            }
            assert(self@ =~= old(self)@.insert((left, right)));
        }
    }

    pub fn contains(&self, left: EntityId, right: EntityId) -> (held: bool)
        ensures
            held == self@.contains((left, right)),
    {
        let key = pair_key(left, right);
        self.keys.contains(&key)
    }

    /// The pairs held, each once, in the order in which the set hands them
    /// out.
    pub fn to_vec(&self) -> (pairs: Vec<(EntityId, EntityId)>)
        ensures
            pairs@.no_duplicates(),
            pairs@.to_set() == self@,
    {
        let keys = set_members(&self.keys);
        let mut pairs: Vec<(EntityId, EntityId)> = Vec::new();
        let mut i: usize = 0;
        while i < keys.len()
            invariant
                i <= keys@.len(),
                pairs@.len() == i,
                forall|k: int| 0 <= k < i ==> pairs@[k] == spec_key_pair(#[trigger] keys@[k]),
            decreases keys@.len() - i,
        {
            pairs.push(key_pair(keys[i]));
            i += 1;
        }
        proof {
            assert forall|a: int, b: int| 0 <= a < b < pairs@.len() implies pairs@[a]
                != pairs@[b] by {
                lemma_pair_key_round_trip(EntityId(0), EntityId(0), keys@[a]);
                lemma_pair_key_round_trip(EntityId(0), EntityId(0), keys@[b]);
            }
            assert forall|pair: (EntityId, EntityId)| pairs@.to_set().contains(pair)
                <==> self@.contains(pair) by {
                lemma_pair_key_round_trip(pair.0, pair.1, 0);
                if pairs@.to_set().contains(pair) {
                    let k = choose|k: int| 0 <= k < pairs@.len() && pairs@[k] == pair;
                    lemma_pair_key_round_trip(pair.0, pair.1, keys@[k]);
                    assert(keys@.to_set().contains(keys@[k]));
                }
                if self@.contains(pair) {
                    let key = spec_pair_key(pair.0, pair.1);
                    assert(keys@.to_set().contains(key));
                    let k = choose|k: int| 0 <= k < keys@.len() && keys@[k] == key;
                    assert(pairs@[k] == pair);
                }
            }
            assert(pairs@.to_set() =~= self@);
        }
        pairs
    }
}

/// Detected collisions for each kind of pair.
pub struct Collisions {
    pub baddie_wall: CollisionPairs,
    pub bullet_wall: CollisionPairs,
    pub bullet_baddie: CollisionPairs,
    pub baddie_cannon: CollisionPairs,
}

impl Collisions {
    /// The pairs detected of the given kind.
    pub open spec fn pairs(&self, kind: CollisionKind) -> Set<(EntityId, EntityId)> {
        match kind {
            CollisionKind::BaddieWall => self.baddie_wall@,
            CollisionKind::BulletWall => self.bullet_wall@,
            CollisionKind::BulletBaddie => self.bullet_baddie@,
            CollisionKind::BaddieCannon => self.baddie_cannon@,
        }
    }

    /// No collisions of any kind.
    pub fn new() -> (collisions: Self)
        ensures
            forall|kind: CollisionKind| #[trigger]
                collisions.pairs(kind) == Set::<(EntityId, EntityId)>::empty(),
    {
        Collisions {
            baddie_wall: CollisionPairs::new(),
            bullet_wall: CollisionPairs::new(),
            bullet_baddie: CollisionPairs::new(),
            baddie_cannon: CollisionPairs::new(),
        }
    }

    /// The pairs detected of the given kind.
    pub fn get(&self, kind: &CollisionKind) -> (pairs: &CollisionPairs)
        ensures
            pairs@ == self.pairs(*kind),
    {
        match kind {
            CollisionKind::BaddieWall => &self.baddie_wall,
            CollisionKind::BulletWall => &self.bullet_wall,
            CollisionKind::BulletBaddie => &self.bullet_baddie,
            CollisionKind::BaddieCannon => &self.baddie_cannon,
        }
    }

    /// Adds a pair to those of the given kind.
    pub fn insert(&mut self, kind: &CollisionKind, left: EntityId, right: EntityId)
        ensures
            final(self).pairs(*kind) == old(self).pairs(*kind).insert((left, right)),
            forall|other: CollisionKind|
                other != *kind ==> #[trigger] final(self).pairs(other) == old(self).pairs(other),
    {
        match kind {
            CollisionKind::BaddieWall => self.baddie_wall.insert(left, right),
            CollisionKind::BulletWall => self.bullet_wall.insert(left, right),
            CollisionKind::BulletBaddie => self.bullet_baddie.insert(left, right),
            CollisionKind::BaddieCannon => self.baddie_cannon.insert(left, right),
        }
    }
}

impl CollisionPairs {
    /// Adds every pair of `other`.
    pub fn extend(&mut self, other: &CollisionPairs)
        ensures
            final(self)@ == old(self)@.union(other@),
    {
        let pairs = other.to_vec();
        let mut i: usize = 0;
        proof {
            assert(pairs@.take(0).to_set() =~= Set::<(EntityId, EntityId)>::empty());
            assert(self@.union(pairs@.take(0).to_set()) =~= self@);
        }
        while i < pairs.len()
            invariant
                i <= pairs@.len(),
                self@ == old(self)@.union(pairs@.take(i as int).to_set()),
            decreases pairs@.len() - i,
        {
            let (left, right) = pairs[i];
            self.insert(left, right);
            proof {
                lemma_take_one_more(pairs@, i as int);
                assert(self@ =~= old(self)@.union(pairs@.take(i + 1).to_set()));
            }
            i += 1;
        }
        proof {
            assert(pairs@.take(pairs@.len() as int) =~= pairs@);
        }
    }
}

} // verus!
