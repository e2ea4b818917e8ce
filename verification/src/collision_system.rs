//! The collision engine: spatial maps of the four kinds of entity,
//! detection on them, and the handlers that are told of what is detected.

use crate::bin_size::{
    all_sizable, calc_bin_size, is_bin_size_of, lemma_bin_size_at_least, MIN_BIN_SIZE,
};
use crate::detection::{
    all_testable, collisions_between, detect_collisions, lemma_built_side_testable,
    lemma_collisions_of_built_maps, lemma_testable_sides_are_ready, Side, Sides,
};
use crate::geometry::Geometry;
use crate::handler::{accepts_each, dispatch, dispatched, CollisionHandler};
use crate::spatial_hash::{
    all_bins_fit, all_within_limit, build_map, indexes_geometries,
    lemma_all_bins_fit_within_limit, maps_geometries, spec_calc_bin_count, GeomMap,
    SpatialIndex, SpatialMap,
};
use vstd::prelude::*;

verus! {

broadcast use vstd::std_specs::hash::group_hash_axioms;

/// Represents the different pairs of entity kinds whose collisions are
/// observed. The first kind named is the left entity of a pair, the second
/// the right one.
#[derive(PartialEq, Eq, Hash, Clone, Copy, Debug, Structural)]
pub enum CollisionKind {
    BaddieWall,
    BulletWall,
    BulletBaddie,
    BaddieCannon,
}

/// Detects collisions and runs handlers as appropriate.
///
/// The spatial maps are built once, from the geometry given to `new`, with a
/// bin size found from that geometry. The handlers are held by value and
/// given back by `into_handlers`.
pub struct CollisionSystem<BW, UW, UB, BC> {
    pub wall_map: SpatialMap,
    pub wall_index: SpatialIndex,
    pub baddie_map: SpatialMap,
    pub baddie_index: SpatialIndex,
    pub bullet_map: SpatialMap,
    pub bullet_index: SpatialIndex,
    pub cannon_map: SpatialMap,
    pub cannon_index: SpatialIndex,
    pub baddie_wall_handler: BW,
    pub bullet_wall_handler: UW,
    pub bullet_baddie_handler: UB,
    pub baddie_cannon_handler: BC,
    /// Bin size of the spatial maps, for a square grid.
    pub grid_bin_size: i32,
}

impl<
    BW: CollisionHandler,
    UW: CollisionHandler,
    UB: CollisionHandler,
    BC: CollisionHandler,
> CollisionSystem<BW, UW, UB, BC> {
    /// The maps and the index of each kind are those of the geometry that
    /// the system was built from, for the system's bin size.
    pub open spec fn built_from(
        self,
        walls: Map<u32, Geometry>,
        baddies: Map<u32, Geometry>,
        bullets: Map<u32, Geometry>,
        cannons: Map<u32, Geometry>,
    ) -> bool {
        let size = self.grid_bin_size as int;
        &&& maps_geometries(self.wall_map@, walls, size)
        &&& indexes_geometries(self.wall_index@, walls, size)
        &&& maps_geometries(self.baddie_map@, baddies, size)
        &&& indexes_geometries(self.baddie_index@, baddies, size)
        &&& maps_geometries(self.bullet_map@, bullets, size)
        &&& indexes_geometries(self.bullet_index@, bullets, size)
        &&& maps_geometries(self.cannon_map@, cannons, size)
        &&& indexes_geometries(self.cannon_index@, cannons, size)
    }

    /// The four kinds as the system sees them when it is given this
    /// geometry: its own spatial maps beside the geometry.
    pub open spec fn sides(
        self,
        walls: Map<u32, Geometry>,
        baddies: Map<u32, Geometry>,
        bullets: Map<u32, Geometry>,
        cannons: Map<u32, Geometry>,
    ) -> Sides {
        Sides {
            walls: Side { map: self.wall_map@, geometries: walls },
            baddies: Side { map: self.baddie_map@, geometries: baddies },
            bullets: Side { map: self.bullet_map@, geometries: bullets },
            cannons: Side { map: self.cannon_map@, geometries: cannons },
        }
    }

    /// Each handler can be handed the pairs of its kind that `process`
    /// detects on this geometry.
    pub open spec fn handlers_accept(
        self,
        walls: Map<u32, Geometry>,
        baddies: Map<u32, Geometry>,
        bullets: Map<u32, Geometry>,
        cannons: Map<u32, Geometry>,
    ) -> bool {
        let sides = self.sides(walls, baddies, bullets, cannons);
        let count = spec_calc_bin_count(self.grid_bin_size as int);
        &&& accepts_each::<BW>(
            self.baddie_wall_handler.state(),
            sides.collisions(CollisionKind::BaddieWall, count),
        )
        &&& accepts_each::<UB>(
            self.bullet_baddie_handler.state(),
            sides.collisions(CollisionKind::BulletBaddie, count),
        )
        &&& accepts_each::<UW>(
            self.bullet_wall_handler.state(),
            sides.collisions(CollisionKind::BulletWall, count),
        )
        &&& accepts_each::<BC>(
            self.baddie_cannon_handler.state(),
            sides.collisions(CollisionKind::BaddieCannon, count),
        )
    }

    /// The spatial maps, the indices and the bin size are the same in both.
    pub open spec fn same_maps(self, other: Self) -> bool {
        &&& self.wall_map == other.wall_map
        &&& self.wall_index == other.wall_index
        &&& self.baddie_map == other.baddie_map
        &&& self.baddie_index == other.baddie_index
        &&& self.bullet_map == other.bullet_map
        &&& self.bullet_index == other.bullet_index
        &&& self.cannon_map == other.cannon_map
        &&& self.cannon_index == other.cannon_index
        &&& self.grid_bin_size == other.grid_bin_size
    }

    /// A system can be built from the geometry: every size can be taken,
    /// and for whichever bin size is found the bins of every geometry fit
    /// in an `i32`.
    pub open spec fn can_build(
        walls: Map<u32, Geometry>,
        baddies: Map<u32, Geometry>,
        bullets: Map<u32, Geometry>,
        cannons: Map<u32, Geometry>,
    ) -> bool {
        &&& all_sizable(walls)
        &&& all_sizable(baddies)
        &&& all_sizable(bullets)
        &&& all_sizable(cannons)
        &&& forall|size: int| #[trigger]
            is_bin_size_of(size, walls, baddies, bullets, cannons) ==> {
                &&& all_bins_fit(walls, size)
                &&& all_bins_fit(baddies, size)
                &&& all_bins_fit(bullets, size)
                &&& all_bins_fit(cannons, size)
            }
    }

    /// A system can be built from geometry whose sizes can be taken and
    /// whose coordinates are all within `SAT_COORD_MAX` of zero.
    pub proof fn lemma_can_build_within_limit(
        walls: Map<u32, Geometry>,
        baddies: Map<u32, Geometry>,
        bullets: Map<u32, Geometry>,
        cannons: Map<u32, Geometry>,
    )
        requires
            all_sizable(walls) && all_within_limit(walls),
            all_sizable(baddies) && all_within_limit(baddies),
            all_sizable(bullets) && all_within_limit(bullets),
            all_sizable(cannons) && all_within_limit(cannons),
        ensures
            Self::can_build(walls, baddies, bullets, cannons),
    {
        assert forall|size: int| #[trigger]
            is_bin_size_of(size, walls, baddies, bullets, cannons) implies all_bins_fit(
            walls,
            size,
        ) && all_bins_fit(baddies, size) && all_bins_fit(bullets, size) && all_bins_fit(
            cannons,
            size,
        ) by {
            lemma_bin_size_at_least(size, walls, baddies, bullets, cannons);
            lemma_all_bins_fit_within_limit(walls, size);
            lemma_all_bins_fit_within_limit(baddies, size);
            lemma_all_bins_fit_within_limit(bullets, size);
            lemma_all_bins_fit_within_limit(cannons, size);
        }
    }

    /// Builds the spatial maps from the geometry of each kind and takes the
    /// four handlers.
    pub fn new(
        walls: &GeomMap,
        baddies: &GeomMap,
        bullets: &GeomMap,
        cannons: &GeomMap,
        baddie_wall_handler: BW,
        bullet_wall_handler: UW,
        bullet_baddie_handler: UB,
        baddie_cannon_handler: BC,
    ) -> (system: Self)
        requires
            Self::can_build(walls@, baddies@, bullets@, cannons@),
        ensures
            system.grid_bin_size >= MIN_BIN_SIZE,
            is_bin_size_of(system.grid_bin_size as int, walls@, baddies@, bullets@, cannons@),
            system.built_from(walls@, baddies@, bullets@, cannons@),
            system.baddie_wall_handler == baddie_wall_handler,
            system.bullet_wall_handler == bullet_wall_handler,
            system.bullet_baddie_handler == bullet_baddie_handler,
            system.baddie_cannon_handler == baddie_cannon_handler,
    {
        let grid_bin_size = calc_bin_size(walls, baddies, bullets, cannons);
        let (wall_map, wall_index) = build_map(walls, grid_bin_size);
        let (baddie_map, baddie_index) = build_map(baddies, grid_bin_size);
        let (bullet_map, bullet_index) = build_map(bullets, grid_bin_size);
        let (cannon_map, cannon_index) = build_map(cannons, grid_bin_size);

        CollisionSystem {
            wall_map,
            wall_index,
            baddie_map,
            baddie_index,
            bullet_map,
            bullet_index,
            cannon_map,
            cannon_index,
            baddie_wall_handler,
            bullet_wall_handler,
            bullet_baddie_handler,
            baddie_cannon_handler,
            grid_bin_size,
        }
    }

    /// Check collisions and run the handlers.
    ///
    /// All detection is done first, on the geometry as it is given. Then
    /// each handler is handed the pairs of its kind, each pair exactly
    /// once, the left entity first: the baddie of a baddie and a wall, the
    /// bullet of a bullet and a wall or a baddie, the baddie of a baddie and
    /// a cannon. The kinds are served in the order baddie and wall, bullet
    /// and baddie, bullet and wall, baddie and cannon.
    pub fn process(
        &mut self,
        wall_geoms: &GeomMap,
        baddie_geoms: &GeomMap,
        bullet_geoms: &GeomMap,
        cannon_geoms: &GeomMap,
    )
        requires
            old(self).grid_bin_size > 0,
            old(self).sides(wall_geoms@, baddie_geoms@, bullet_geoms@, cannon_geoms@).ready(),
            old(self).handlers_accept(wall_geoms@, baddie_geoms@, bullet_geoms@, cannon_geoms@),
        ensures
            final(self).same_maps(*old(self)),
            ({
                let sides = old(self).sides(
                    wall_geoms@,
                    baddie_geoms@,
                    bullet_geoms@,
                    cannon_geoms@,
                );
                let count = spec_calc_bin_count(old(self).grid_bin_size as int);
                &&& dispatched::<BW>(
                    old(self).baddie_wall_handler.state(),
                    final(self).baddie_wall_handler.state(),
                    sides.collisions(CollisionKind::BaddieWall, count),
                )
                &&& dispatched::<UB>(
                    old(self).bullet_baddie_handler.state(),
                    final(self).bullet_baddie_handler.state(),
                    sides.collisions(CollisionKind::BulletBaddie, count),
                )
                &&& dispatched::<UW>(
                    old(self).bullet_wall_handler.state(),
                    final(self).bullet_wall_handler.state(),
                    sides.collisions(CollisionKind::BulletWall, count),
                )
                &&& dispatched::<BC>(
                    old(self).baddie_cannon_handler.state(),
                    final(self).baddie_cannon_handler.state(),
                    sides.collisions(CollisionKind::BaddieCannon, count),
                )
            }),
    {
        let collisions = detect_collisions(
            (&self.wall_map, wall_geoms),
            (&self.baddie_map, baddie_geoms),
            (&self.bullet_map, bullet_geoms),
            (&self.cannon_map, cannon_geoms),
            self.grid_bin_size,
        );
        proof {
            let sides = old(self).sides(wall_geoms@, baddie_geoms@, bullet_geoms@, cannon_geoms@);
            let count = spec_calc_bin_count(old(self).grid_bin_size as int);
            assert(collisions.pairs(CollisionKind::BaddieWall) == sides.collisions(
                CollisionKind::BaddieWall,
                count,
            ));
            assert(collisions.pairs(CollisionKind::BulletBaddie) == sides.collisions(
                CollisionKind::BulletBaddie,
                count,
            ));
            assert(collisions.pairs(CollisionKind::BulletWall) == sides.collisions(
                CollisionKind::BulletWall,
                count,
            ));
            assert(collisions.pairs(CollisionKind::BaddieCannon) == sides.collisions(
                CollisionKind::BaddieCannon,
                count,
            ));
        }
        dispatch(&mut self.baddie_wall_handler, &collisions.baddie_wall);
        dispatch(&mut self.bullet_baddie_handler, &collisions.bullet_baddie);
        dispatch(&mut self.bullet_wall_handler, &collisions.bullet_wall);
        dispatch(&mut self.baddie_cannon_handler, &collisions.baddie_cannon);
    }

    /// A system that was built from testable geometry can be given that
    /// geometry to process.
    pub proof fn lemma_built_system_ready(
        self,
        walls: Map<u32, Geometry>,
        baddies: Map<u32, Geometry>,
        bullets: Map<u32, Geometry>,
        cannons: Map<u32, Geometry>,
    )
        requires
            self.built_from(walls, baddies, bullets, cannons),
            all_testable(walls),
            all_testable(baddies),
            all_testable(bullets),
            all_testable(cannons),
        ensures
            self.sides(walls, baddies, bullets, cannons).ready(),
    {
        let sides = self.sides(walls, baddies, bullets, cannons);
        let size = self.grid_bin_size as int;
        lemma_built_side_testable(sides.walls, size);
        lemma_built_side_testable(sides.baddies, size);
        lemma_built_side_testable(sides.bullets, size);
        lemma_built_side_testable(sides.cannons, size);
        lemma_testable_sides_are_ready(sides);
    }

    /// What a system detects on the geometry it was built from: of each
    /// kind, the pairs of a left and a right entity whose geometries
    /// collide and occupy a common bin among those that are walked. Each
    /// such pair is one pair, however many bins the two share, and
    /// `process` hands it to its handler exactly once.
    pub proof fn lemma_built_system_collisions(
        self,
        walls: Map<u32, Geometry>,
        baddies: Map<u32, Geometry>,
        bullets: Map<u32, Geometry>,
        cannons: Map<u32, Geometry>,
    )
        requires
            self.built_from(walls, baddies, bullets, cannons),
        ensures
            ({
                let sides = self.sides(walls, baddies, bullets, cannons);
                let size = self.grid_bin_size as int;
                let count = spec_calc_bin_count(size);
                &&& sides.collisions(CollisionKind::BaddieWall, count) == collisions_between(
                    baddies,
                    walls,
                    size,
                )
                &&& sides.collisions(CollisionKind::BulletWall, count) == collisions_between(
                    bullets,
                    walls,
                    size,
                )
                &&& sides.collisions(CollisionKind::BulletBaddie, count) == collisions_between(
                    bullets,
                    baddies,
                    size,
                )
                &&& sides.collisions(CollisionKind::BaddieCannon, count) == collisions_between(
                    baddies,
                    cannons,
                    size,
                )
            }),
    {
        let sides = self.sides(walls, baddies, bullets, cannons);
        let size = self.grid_bin_size as int;
        lemma_collisions_of_built_maps(sides.baddies, sides.walls, size);
        lemma_collisions_of_built_maps(sides.bullets, sides.walls, size);
        lemma_collisions_of_built_maps(sides.bullets, sides.baddies, size);
        lemma_collisions_of_built_maps(sides.baddies, sides.cannons, size);
    }

    /// Gives the four handlers back, in the order in which `new` took them.
    pub fn into_handlers(self) -> (handlers: (BW, UW, UB, BC))
        ensures
            handlers.0 == self.baddie_wall_handler,
            handlers.1 == self.bullet_wall_handler,
            handlers.2 == self.bullet_baddie_handler,
            handlers.3 == self.baddie_cannon_handler,
    {
        (
            self.baddie_wall_handler,
            self.bullet_wall_handler,
            self.bullet_baddie_handler,
            self.baddie_cannon_handler,
        )
    }
}

} // verus!
