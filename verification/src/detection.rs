//! Detection: the narrow-phase test on every pair of entities that share a
//! bin.

use crate::collision_system::CollisionKind;
use crate::collisions::Collisions;
use crate::entity::EntityId;
use crate::geometry::{
    has_separating_axis, is_closed, is_collision, lemma_within_limit_fits, sat_fits,
    within_sat_limit, Geometry,
};
use crate::helpers::set_members;
use crate::spatial_hash::{
    bin_members, calc_bin_count, geometry_bins, maps_geometries, occupants, spec_calc_bin_count,
    GeomMap, SpatialMap,
};
use itertools::Itertools;
use std::collections::HashSet;
use vstd::prelude::*;

verus! {

broadcast use vstd::std_specs::hash::group_hash_axioms;

/// The narrow-phase test on two geometries: no edge of either gives a
/// separating axis.
pub open spec fn collides(left: Geometry, right: Geometry) -> bool {
    !has_separating_axis(left@, right@)
}

/// The narrow-phase test can be run on the two geometries: both are closed
/// loops, and every value of the test fits in an `i32`.
pub open spec fn can_test(left: Geometry, right: Geometry) -> bool {
    is_closed(left@) && is_closed(right@) && sat_fits(left@, right@)
}

/// A geometry that the narrow-phase test accepts with any other such: a
/// closed loop with every coordinate within `SAT_COORD_MAX` of zero.
pub open spec fn testable(geometry: Geometry) -> bool {
    is_closed(geometry@) && within_sat_limit(geometry@)
}

/// Every geometry of the map is testable.
pub open spec fn all_testable(geometries: Map<u32, Geometry>) -> bool {
    forall|id: u32| geometries.contains_key(id) ==> testable(#[trigger] geometries[id])
}

/// One entity kind as the engine sees it: the spatial map of the entities
/// of the kind, and their current geometry.
pub ghost struct Side {
    pub map: Map<i32, HashSet<u32>>,
    pub geometries: Map<u32, Geometry>,
}

pub open spec fn side_of(side: (&SpatialMap, &GeomMap)) -> Side {
    Side { map: side.0@, geometries: side.1@ }
}

impl Side {
    /// Every entity that the spatial map lists in `bin` has a geometry.
    pub open spec fn covers(self, bin: i32) -> bool {
        forall|id: u32| #[trigger]
            bin_members(self.map, bin).contains(id) ==> self.geometries.contains_key(id)
    }

    /// Every entity that the spatial map lists anywhere has a testable
    /// geometry.
    pub open spec fn all_testable(self) -> bool {
        forall|bin: i32, id: u32| #[trigger]
            bin_members(self.map, bin).contains(id) ==> self.geometries.contains_key(id)
                && testable(self.geometries[id])
    }
}

/// The bin can be gone through for the two kinds: every entity that the
/// spatial maps list in it has a geometry, and the narrow-phase test can be
/// run on every pair of a left and a right one.
pub open spec fn ready_in(left: Side, right: Side, bin: i32) -> bool {
    &&& left.covers(bin)
    &&& right.covers(bin)
    &&& forall|l: u32, r: u32|
        #![trigger bin_members(left.map, bin).contains(l), bin_members(right.map, bin).contains(r)]
        bin_members(left.map, bin).contains(l) && bin_members(right.map, bin).contains(r)
            ==> can_test(left.geometries[l], right.geometries[r])
}

/// Two kinds whose spatial maps list nothing but entities with a testable
/// geometry can be gone through in every bin.
pub proof fn lemma_testable_sides_ready(left: Side, right: Side, bin: i32)
    requires
        left.all_testable(),
        right.all_testable(),
    ensures
        ready_in(left, right, bin),
{
    assert forall|l: u32, r: u32|
        #![trigger bin_members(left.map, bin).contains(l), bin_members(right.map, bin).contains(r)]
        bin_members(left.map, bin).contains(l) && bin_members(right.map, bin).contains(
            r,
        ) implies can_test(left.geometries[l], right.geometries[r]) by {
        lemma_within_limit_fits(left.geometries[l]@, right.geometries[r]@);
    }
}

/// The colliding pairs that one bin gives: a left entity and a right entity
/// that the spatial maps both list in the bin, and whose geometries collide.
pub open spec fn bin_collisions(left: Side, right: Side, bin: i32) -> Set<(EntityId, EntityId)> {
    Set::new(
        |pair: (EntityId, EntityId)|
            {
                &&& bin_members(left.map, bin).contains(pair.0.0)
                &&& bin_members(right.map, bin).contains(pair.1.0)
                &&& collides(left.geometries[pair.0.0], right.geometries[pair.1.0])
            },
    )
}

/// The colliding pairs that the bins of the set `bins` give.
pub open spec fn collisions_over(left: Side, right: Side, bins: Set<i32>) -> Set<
    (EntityId, EntityId),
> {
    Set::new(
        |pair: (EntityId, EntityId)|
            exists|bin: i32|
                bins.contains(bin) && #[trigger] bin_collisions(left, right, bin).contains(pair),
    )
}

/// The bins `0 .. count`.
pub open spec fn first_bins(count: int) -> Set<i32> {
    Set::new(|bin: i32| 0 <= bin < count)
}

/// The colliding pairs that the bins `0 .. count` give.
pub open spec fn collisions_in_bins(left: Side, right: Side, count: int) -> Set<
    (EntityId, EntityId),
> {
    collisions_over(left, right, first_bins(count))
}

/// The four entity kinds as the engine sees them.
pub ghost struct Sides {
    pub walls: Side,
    pub baddies: Side,
    pub bullets: Side,
    pub cannons: Side,
}

pub open spec fn sides_of(
    walls: (&SpatialMap, &GeomMap),
    baddies: (&SpatialMap, &GeomMap),
    bullets: (&SpatialMap, &GeomMap),
    cannons: (&SpatialMap, &GeomMap),
) -> Sides {
    Sides {
        walls: side_of(walls),
        baddies: side_of(baddies),
        bullets: side_of(bullets),
        cannons: side_of(cannons),
    }
}

impl Sides {
    /// The entity kind on the left of a pair of the given kind.
    pub open spec fn left(self, kind: CollisionKind) -> Side {
        match kind {
            CollisionKind::BaddieWall => self.baddies,
            CollisionKind::BulletWall => self.bullets,
            CollisionKind::BulletBaddie => self.bullets,
            CollisionKind::BaddieCannon => self.baddies,
        }
    }

    /// The entity kind on the right of a pair of the given kind.
    pub open spec fn right(self, kind: CollisionKind) -> Side {
        match kind {
            CollisionKind::BaddieWall => self.walls,
            CollisionKind::BulletWall => self.walls,
            CollisionKind::BulletBaddie => self.baddies,
            CollisionKind::BaddieCannon => self.cannons,
        }
    }

    /// The bin can be gone through for the pairs of the given kind.
    pub open spec fn ready_in(self, kind: CollisionKind, bin: i32) -> bool {
        ready_in(self.left(kind), self.right(kind), bin)
    }

    /// Every bin can be gone through for the pairs of every kind.
    pub open spec fn ready(self) -> bool {
        forall|kind: CollisionKind, bin: i32| #[trigger] self.ready_in(kind, bin)
    }

    /// Every entity that any of the spatial maps lists has a testable
    /// geometry.
    pub open spec fn all_testable(self) -> bool {
        &&& self.walls.all_testable()
        &&& self.baddies.all_testable()
        &&& self.bullets.all_testable()
        &&& self.cannons.all_testable()
    }

    /// The colliding pairs of the given kind that one bin gives.
    pub open spec fn bin_collisions(self, kind: CollisionKind, bin: i32) -> Set<
        (EntityId, EntityId),
    > {
        bin_collisions(self.left(kind), self.right(kind), bin)
    }

    /// The colliding pairs of the given kind that the bins `0 .. count` give.
    pub open spec fn collisions(self, kind: CollisionKind, count: int) -> Set<
        (EntityId, EntityId),
    > {
        collisions_in_bins(self.left(kind), self.right(kind), count)
    }
}

/// What a set of bins gives is what its parts give, put together: the bins
/// can be shared out in any way and the partial results united.
pub proof fn lemma_collisions_of_parts(left: Side, right: Side, part1: Set<i32>, part2: Set<i32>)
    ensures
        collisions_over(left, right, part1.union(part2)) == collisions_over(
            left,
            right,
            part1,
        ).union(collisions_over(left, right, part2)),
{
    let whole = collisions_over(left, right, part1.union(part2));
    let united = collisions_over(left, right, part1).union(collisions_over(left, right, part2));
    assert forall|pair: (EntityId, EntityId)| whole.contains(pair) <==> united.contains(pair) by {
        if whole.contains(pair) {
            let bin = choose|bin: i32|
                part1.union(part2).contains(bin) && #[trigger] bin_collisions(
                    left,
                    right,
                    bin,
                ).contains(pair);
            if part1.contains(bin) {
                assert(collisions_over(left, right, part1).contains(pair));
            } else {
                assert(collisions_over(left, right, part2).contains(pair));
            }
        }
        if collisions_over(left, right, part1).contains(pair) {
            let bin = choose|bin: i32|
                part1.contains(bin) && #[trigger] bin_collisions(left, right, bin).contains(pair);
            assert(part1.union(part2).contains(bin));
        }
        if collisions_over(left, right, part2).contains(pair) {
            let bin = choose|bin: i32|
                part2.contains(bin) && #[trigger] bin_collisions(left, right, bin).contains(pair);
            assert(part1.union(part2).contains(bin));
        }
    }
    assert(whole =~= united);
}

/// One more bin adds what that bin gives.
pub proof fn lemma_collisions_one_more_bin(left: Side, right: Side, count: i32)
    requires
        0 <= count < i32::MAX,
    ensures
        collisions_in_bins(left, right, count + 1) == collisions_in_bins(
            left,
            right,
            count as int,
        ).union(bin_collisions(left, right, count)),
{
    let one = set![count];
    assert(first_bins(count + 1) =~= first_bins(count as int).union(one));
    lemma_collisions_of_parts(left, right, first_bins(count as int), one);
    let single = collisions_over(left, right, one);
    assert forall|pair: (EntityId, EntityId)| single.contains(pair) <==> bin_collisions(
        left,
        right,
        count,
    ).contains(pair) by {
        if single.contains(pair) {
            let bin = choose|bin: i32|
                one.contains(bin) && #[trigger] bin_collisions(left, right, bin).contains(pair);
            assert(bin == count);
        }
        if bin_collisions(left, right, count).contains(pair) {
            assert(one.contains(count));
        }
    }
    assert(single =~= bin_collisions(left, right, count));
}

/// The pairs of a left and a right entity whose geometries collide and
/// occupy a common bin among those that are walked for the bin size.
pub open spec fn collisions_between(
    left: Map<u32, Geometry>,
    right: Map<u32, Geometry>,
    bin_size: int,
) -> Set<(EntityId, EntityId)> {
    Set::new(
        |pair: (EntityId, EntityId)|
            {
                &&& left.contains_key(pair.0.0)
                &&& right.contains_key(pair.1.0)
                &&& collides(left[pair.0.0], right[pair.1.0])
                &&& exists|bin: i32|
                    0 <= bin < spec_calc_bin_count(bin_size) && #[trigger] geometry_bins(
                        left[pair.0.0]@,
                        bin_size,
                    ).contains(bin) && geometry_bins(right[pair.1.0]@, bin_size).contains(bin)
            },
    )
}

/// For spatial maps built from the geometries they are used with, the
/// colliding pairs that the walked bins give are the pairs of a left and a
/// right entity whose geometries collide and which occupy a common bin
/// among those. A pair that shares several bins still is one pair.
pub proof fn lemma_collisions_of_built_maps(left: Side, right: Side, bin_size: int)
    requires
        maps_geometries(left.map, left.geometries, bin_size),
        maps_geometries(right.map, right.geometries, bin_size),
    ensures
        collisions_in_bins(left, right, spec_calc_bin_count(bin_size)) == collisions_between(
            left.geometries,
            right.geometries,
            bin_size,
        ),
{
    let count = spec_calc_bin_count(bin_size);
    let walked = collisions_in_bins(left, right, count);
    let between = collisions_between(left.geometries, right.geometries, bin_size);
    assert forall|pair: (EntityId, EntityId)| walked.contains(pair) <==> between.contains(
        pair,
    ) by {
        if walked.contains(pair) {
            let bin = choose|bin: i32|
                first_bins(count).contains(bin) && #[trigger] bin_collisions(
                    left,
                    right,
                    bin,
                ).contains(pair);
            assert(bin_members(left.map, bin) == occupants(left.geometries, bin_size, bin));
            assert(bin_members(right.map, bin) == occupants(right.geometries, bin_size, bin));
            assert(geometry_bins(left.geometries[pair.0.0]@, bin_size).contains(bin));
        }
        if between.contains(pair) {
            let bin = choose|bin: i32|
                0 <= bin < count && #[trigger] geometry_bins(
                    left.geometries[pair.0.0]@,
                    bin_size,
                ).contains(bin) && geometry_bins(right.geometries[pair.1.0]@, bin_size).contains(
                    bin,
                );
            assert(bin_members(left.map, bin) == occupants(left.geometries, bin_size, bin));
            assert(bin_members(right.map, bin) == occupants(right.geometries, bin_size, bin));
            assert(first_bins(count).contains(bin));
            assert(bin_collisions(left, right, bin).contains(pair));
        }
    }
    assert(walked =~= between);
}

/// A spatial map that was built from testable geometry lists nothing but
/// entities with a testable geometry.
pub proof fn lemma_built_side_testable(side: Side, bin_size: int)
    requires
        maps_geometries(side.map, side.geometries, bin_size),
        all_testable(side.geometries),
    ensures
        side.all_testable(),
{
    assert forall|bin: i32, id: u32| #[trigger]
        bin_members(side.map, bin).contains(id) implies side.geometries.contains_key(id)
        && testable(side.geometries[id]) by {
        assert(bin_members(side.map, bin) == occupants(side.geometries, bin_size, bin));
    }
}

/// Kinds whose spatial maps list nothing but entities with a testable
/// geometry are ready for detection.
pub proof fn lemma_testable_sides_are_ready(sides: Sides)
    requires
        sides.all_testable(),
    ensures
        sides.ready(),
{
    assert forall|kind: CollisionKind, bin: i32| #[trigger] sides.ready_in(kind, bin) by {
        lemma_testable_sides_ready(sides.left(kind), sides.right(kind), bin);
    }
}

/// `pairs` lists the pairs of a member of `left` and a member of `right` row
/// by row: all pairs of the first member of `left` in the order of `right`,
/// then all pairs of the second, and so on.
pub open spec fn is_product(pairs: Seq<(u32, u32)>, left: Seq<u32>, right: Seq<u32>) -> bool {
    &&& pairs.len() == left.len() * right.len()
    &&& forall|k: int|
        0 <= k < pairs.len() ==> #[trigger] pairs[k] == (
            left[k / right.len() as int],
            right[k % right.len() as int],
        )
}

/// Calls `Itertools::cartesian_product` on the two lists. The contract takes
/// from its documentation that the adaptor yields every pair of an item of
/// the first iterator and an item of the second, the first iterator's items
/// in order and, for each of them, the second's in order.
#[verifier::external_body]
fn cartesian_product(left: &Vec<u32>, right: &Vec<u32>) -> (pairs: Vec<(u32, u32)>)
    ensures
        is_product(pairs@, left@, right@),
{
    left.iter().cartesian_product(right.iter()).map(|pair| (*pair.0, *pair.1)).collect()
}

/// A row-by-row product holds exactly the pairs of a member of each list.
pub proof fn lemma_product_members(pairs: Seq<(u32, u32)>, left: Seq<u32>, right: Seq<u32>)
    requires
        is_product(pairs, left, right),
    ensures
        forall|pair: (u32, u32)|
            pairs.contains(pair) <==> (left.contains(pair.0) && right.contains(pair.1)),
{
    let n = right.len() as int;
    let m = left.len() as int;
    assert forall|pair: (u32, u32)| pairs.contains(pair) implies left.contains(pair.0)
        && right.contains(pair.1) by {
        let k = choose|k: int| 0 <= k < pairs.len() && pairs[k] == pair;
        assert(n > 0) by (nonlinear_arith)
            requires
                0 <= k < m * n,
                0 <= m,
                0 <= n,
        ;
        vstd::arithmetic::div_mod::lemma_fundamental_div_mod(k, n);
        vstd::arithmetic::div_mod::lemma_mod_bound(k, n);
        let q = k / n;
        assert(0 <= q < m) by (nonlinear_arith)
            requires
                0 <= k < m * n,
                n > 0,
                k == n * q + k % n,
                0 <= k % n < n,
        ;
        assert(left[q] == pair.0);
        assert(right[k % n] == pair.1);
    }
    assert forall|pair: (u32, u32)| left.contains(pair.0) && right.contains(
        pair.1,
    ) implies pairs.contains(pair) by {
        let i = choose|i: int| 0 <= i < left.len() && left[i] == pair.0;
        let j = choose|j: int| 0 <= j < right.len() && right[j] == pair.1;
        let k = i * n + j;
        assert(0 <= k < m * n) by (nonlinear_arith)
            requires
                0 <= i < m,
                0 <= j < n,
                k == i * n + j,
        ;
        vstd::arithmetic::div_mod::lemma_fundamental_div_mod_converse(k, n, i, j);
        assert(pairs[k] == pair);
    }
}

/// The colliding pairs among the first `upto` candidates.
pub open spec fn hits_among(candidates: Seq<(u32, u32)>, upto: int, left: Side, right: Side) -> Set<
    (EntityId, EntityId),
> {
    Set::new(
        |pair: (EntityId, EntityId)|
            {
                &&& exists|k: int| 0 <= k < upto && candidates[k] == (pair.0.0, pair.1.0)
                &&& collides(left.geometries[pair.0.0], right.geometries[pair.1.0])
            },
    )
}

/// The members that a spatial map lists for `bin`, each once. A bin that
/// the map does not hold gives none: that is no error.
fn members_in_bin(map: &SpatialMap, bin: i32) -> (members: Vec<u32>)
    ensures
        members@.no_duplicates(),
        members@.to_set() == bin_members(map@, bin),
{
    match map.get(&bin) {
        Some(ids) => set_members(ids),
        None => {
            let none: Vec<u32> = Vec::new();
            assert(none@.to_set() =~= Set::<u32>::empty());
            none
        },
    }
}

/// Accumulate the collision pairs that one bin gives for one kind: every
/// pair of a left and a right entity of the bin goes through the
/// narrow-phase test, and those that collide are added to `collisions_acc`.
pub fn add_collisions(
    collisions_acc: &mut Collisions,
    kind: &CollisionKind,
    left: (&SpatialMap, &GeomMap),
    right: (&SpatialMap, &GeomMap),
    bin: i32,
)
    requires
        ready_in(side_of(left), side_of(right), bin),
    ensures
        final(collisions_acc).pairs(*kind) == old(collisions_acc).pairs(*kind).union(
            bin_collisions(side_of(left), side_of(right), bin),
        ),
        forall|other: CollisionKind|
            other != *kind ==> #[trigger] final(collisions_acc).pairs(other) == old(
                collisions_acc,
            ).pairs(other),
{
    let (left_map, left_geoms) = left;
    let (right_map, right_geoms) = right;
    let left_ids = members_in_bin(left_map, bin);
    let right_ids = members_in_bin(right_map, bin);
    let candidates = cartesian_product(&left_ids, &right_ids);
    let ghost lside = side_of(left);
    let ghost rside = side_of(right);
    proof {
        lemma_product_members(candidates@, left_ids@, right_ids@);
        assert(hits_among(candidates@, 0, lside, rside) =~= Set::<(EntityId, EntityId)>::empty());
        assert(collisions_acc.pairs(*kind).union(Set::<(EntityId, EntityId)>::empty())
            =~= collisions_acc.pairs(*kind));
    }
    let mut i: usize = 0;
    while i < candidates.len()
        invariant
            i <= candidates@.len(),
            lside == side_of(left),
            rside == side_of(right),
            left_geoms == left.1,
            right_geoms == right.1,
            ready_in(lside, rside, bin),
            left_ids@.to_set() == bin_members(lside.map, bin),
            right_ids@.to_set() == bin_members(rside.map, bin),
            forall|pair: (u32, u32)|
                candidates@.contains(pair) <==> (left_ids@.contains(pair.0) && right_ids@.contains(
                    pair.1,
                )),
            collisions_acc.pairs(*kind) == old(collisions_acc).pairs(*kind).union(
                hits_among(candidates@, i as int, lside, rside),
            ),
            forall|other: CollisionKind|
                other != *kind ==> #[trigger] collisions_acc.pairs(other) == old(
                    collisions_acc,
                ).pairs(other),
        decreases candidates@.len() - i,
    {
        let (left_id, right_id) = candidates[i];
        proof {
            assert(candidates@.contains((left_id, right_id)));
            assert(left_ids@.to_set().contains(left_id));
            assert(right_ids@.to_set().contains(right_id));
            assert(bin_members(lside.map, bin).contains(left_id));
            assert(bin_members(rside.map, bin).contains(right_id));
        }
        let left_geom = left_geoms.get(&left_id).unwrap();
        let right_geom = right_geoms.get(&right_id).unwrap();
        let hit = is_collision(left_geom.as_slice(), right_geom.as_slice());
        let ghost before = collisions_acc.pairs(*kind);
        if hit {
            collisions_acc.insert(kind, EntityId(left_id), EntityId(right_id));
        }
        proof {
            let sofar = hits_among(candidates@, i as int, lside, rside);
            let next = hits_among(candidates@, i + 1, lside, rside);
            let this = (EntityId(left_id), EntityId(right_id));
            assert forall|pair: (EntityId, EntityId)| next.contains(pair) <==> (sofar.contains(pair)
                || (hit && pair == this)) by {
                if next.contains(pair) {
                    let k = choose|k: int|
                        0 <= k < i + 1 && candidates@[k] == (pair.0.0, pair.1.0);
                    if k < i {
                        assert(sofar.contains(pair));
                    } else {
                        assert(pair == this);
                    }
                }
                if sofar.contains(pair) {
                    let k = choose|k: int| 0 <= k < i && candidates@[k] == (pair.0.0, pair.1.0);
                    assert(0 <= k < i + 1);
                }
                if hit && pair == this {
                    assert(candidates@[i as int] == (pair.0.0, pair.1.0));
                }
            }
            if hit {
                assert(next =~= sofar.insert(this));
                assert(collisions_acc.pairs(*kind) =~= old(collisions_acc).pairs(*kind).union(
                    next,
                ));
            } else {
                assert(next =~= sofar);
            }
        }
        i += 1;
    }
    proof {
        let all = hits_among(candidates@, candidates@.len() as int, lside, rside);
        let wanted = bin_collisions(lside, rside, bin);
        assert forall|pair: (EntityId, EntityId)| all.contains(pair) <==> wanted.contains(
            pair,
        ) by {
            let raw = (pair.0.0, pair.1.0);
            if all.contains(pair) {
                let k = choose|k: int| 0 <= k < candidates@.len() && candidates@[k] == raw;
                assert(candidates@.contains(raw));
                assert(left_ids@.to_set().contains(raw.0));
                assert(right_ids@.to_set().contains(raw.1));
            }
            if wanted.contains(pair) {
                assert(left_ids@.to_set().contains(raw.0));
                assert(right_ids@.to_set().contains(raw.1));
                assert(candidates@.contains(raw));
            }
        }
        assert(all =~= wanted);
    }
}

/// Accumulate the collision pairs that one bin gives, for every kind.
pub fn scan_bin(
    collisions_acc: &mut Collisions,
    walls: (&SpatialMap, &GeomMap),
    baddies: (&SpatialMap, &GeomMap),
    bullets: (&SpatialMap, &GeomMap),
    cannons: (&SpatialMap, &GeomMap),
    bin: i32,
)
    requires
        forall|kind: CollisionKind| #[trigger]
            sides_of(walls, baddies, bullets, cannons).ready_in(kind, bin),
    ensures
        forall|kind: CollisionKind| #[trigger]
            final(collisions_acc).pairs(kind) == old(collisions_acc).pairs(kind).union(
                sides_of(walls, baddies, bullets, cannons).bin_collisions(kind, bin),
            ),
{
    proof {
        let sides = sides_of(walls, baddies, bullets, cannons);
        assert(sides.ready_in(CollisionKind::BaddieWall, bin));
        assert(sides.ready_in(CollisionKind::BulletWall, bin));
        assert(sides.ready_in(CollisionKind::BulletBaddie, bin));
        assert(sides.ready_in(CollisionKind::BaddieCannon, bin));
    }
    add_collisions(collisions_acc, &CollisionKind::BaddieWall, baddies, walls, bin);
    add_collisions(collisions_acc, &CollisionKind::BulletWall, bullets, walls, bin);
    add_collisions(collisions_acc, &CollisionKind::BulletBaddie, bullets, baddies, bin);
    add_collisions(collisions_acc, &CollisionKind::BaddieCannon, baddies, cannons, bin);
}

/// Stitch two partial results together: `collisions_acc` takes up every
/// pair of `part`, kind by kind.
pub fn merge_collisions(collisions_acc: &mut Collisions, part: &Collisions)
    ensures
        forall|kind: CollisionKind| #[trigger]
            final(collisions_acc).pairs(kind) == old(collisions_acc).pairs(kind).union(
                part.pairs(kind),
            ),
{
    collisions_acc.baddie_wall.extend(&part.baddie_wall);
    collisions_acc.bullet_wall.extend(&part.bullet_wall);
    collisions_acc.bullet_baddie.extend(&part.bullet_baddie);
    collisions_acc.baddie_cannon.extend(&part.baddie_cannon);
}

/// Walks the bins `0 .. calc_bin_count(grid_bin_size)` and collects, for
/// every kind, the colliding pairs that they give. Nothing but the bins of
/// that range is looked at.
pub fn detect_collisions(
    walls: (&SpatialMap, &GeomMap),
    baddies: (&SpatialMap, &GeomMap),
    bullets: (&SpatialMap, &GeomMap),
    cannons: (&SpatialMap, &GeomMap),
    grid_bin_size: i32,
) -> (collisions: Collisions)
    requires
        grid_bin_size > 0,
        sides_of(walls, baddies, bullets, cannons).ready(),
    ensures
        forall|kind: CollisionKind| #[trigger]
            collisions.pairs(kind) == sides_of(walls, baddies, bullets, cannons).collisions(
                kind,
                spec_calc_bin_count(grid_bin_size as int),
            ),
{
    let bin_count = calc_bin_count(grid_bin_size);
    let mut collisions = Collisions::new();
    let ghost sides = sides_of(walls, baddies, bullets, cannons);
    let mut bin: i32 = 0;
    proof {
        assert forall|kind: CollisionKind| #[trigger]
            collisions.pairs(kind) == sides.collisions(kind, 0) by {
            assert(sides.collisions(kind, 0) =~= Set::<(EntityId, EntityId)>::empty());
        }
    }
    while bin < bin_count
        invariant
            0 <= bin <= bin_count,
            sides == sides_of(walls, baddies, bullets, cannons),
            sides.ready(),
            forall|kind: CollisionKind| #[trigger]
                collisions.pairs(kind) == sides.collisions(kind, bin as int),
        decreases bin_count - bin,
    {
        proof {
            assert forall|kind: CollisionKind| #[trigger] sides.ready_in(kind, bin) by {
            }
        }
        scan_bin(&mut collisions, walls, baddies, bullets, cannons, bin);
        proof {
            assert forall|kind: CollisionKind| #[trigger]
                collisions.pairs(kind) == sides.collisions(kind, bin + 1) by {
                lemma_collisions_one_more_bin(sides.left(kind), sides.right(kind), bin);
            }
        }
        bin += 1;
    }
    collisions
}

} // verus!
