use bwb::bin_size::{
    bin_size_for, calc_bin_size, integer_sqrt, larger, representative, MIN_BIN_SIZE,
};
use bwb::collision_system::{CollisionKind, CollisionSystem};
use bwb::collisions::{CollisionPairs, Collisions};
use bwb::detection::{add_collisions, detect_collisions, merge_collisions, scan_bin};
use bwb::handler::{dispatch, CollisionHandler, Ignore};
use bwb::spatial_hash::{bins_per_row, build_map, calc_bin, grid_hash, Bins, GeomMap, SpatialMap};
use bwb::entity::EntityId;
use bwb::shape::Shape;
use bwb::world::ObjectFactory;
use std::collections::HashSet;
use std::iter::FromIterator;

/// Keeps the pairs it is handed, in order.
struct Recorder {
    calls: Vec<(EntityId, EntityId)>,
}

impl Recorder {
    fn new() -> Self {
        Recorder { calls: vec![] }
    }
}

impl CollisionHandler for Recorder {
    type State = Vec<(EntityId, EntityId)>;

    fn state(&self) -> Self::State {
        self.calls.clone()
    }

    fn accepts(_state: Self::State, _left: EntityId, _right: EntityId) -> bool {
        true
    }

    fn told(mut state: Self::State, left: EntityId, right: EntityId) -> Self::State {
        state.push((left, right));
        state
    }

    fn handle(&mut self, left: EntityId, right: EntityId) {
        self.calls.push((left, right));
    }
}

/// Checks each pair it is handed against the one pair it expects.
struct Expecting {
    left: EntityId,
    right: EntityId,
    never_left: EntityId,
    never_right: EntityId,
    calls: u32,
}

impl CollisionHandler for Expecting {
    type State = u32;

    fn state(&self) -> u32 {
        self.calls
    }

    fn accepts(_state: u32, _left: EntityId, _right: EntityId) -> bool {
        true
    }

    fn told(state: u32, _left: EntityId, _right: EntityId) -> u32 {
        state + 1
    }

    fn handle(&mut self, baddie_id: EntityId, wall_id: EntityId) {
        // Assert - handler called with correct arguments
        assert!(
            (wall_id == self.right && baddie_id == self.left)
                && !(baddie_id == self.never_left || wall_id == self.never_right)
        );
        self.calls += 1;
    }
}

/// Reverses the shape it holds when it is handed the pair it expects.
struct Reversing {
    baddie: EntityId,
    wall: EntityId,
    baddie_shape: Shape,
}

impl CollisionHandler for Reversing {
    type State = (i32, i32);

    fn state(&self) -> (i32, i32) {
        *self.baddie_shape.get_vel()
    }

    fn accepts(_state: (i32, i32), _left: EntityId, _right: EntityId) -> bool {
        true
    }

    fn told(state: (i32, i32), _left: EntityId, _right: EntityId) -> (i32, i32) {
        (-state.0, -state.1)
    }

    fn handle(&mut self, baddie_id: EntityId, wall_id: EntityId) {
        assert_eq!(wall_id, self.wall);
        assert_eq!(baddie_id, self.baddie);
        self.baddie_shape.reverse();
    }
}

fn geoms(entries: &[(EntityId, [(i32, i32); 5])]) -> GeomMap {
    entries.iter().map(|(id, geom)| (id.0, *geom)).collect()
}

fn ids(raw: &[EntityId]) -> HashSet<u32> {
    raw.iter().map(|id| id.0).collect()
}

fn pairs_of(pairs: &CollisionPairs) -> HashSet<(u32, u32)> {
    pairs.to_vec().iter().map(|(l, r)| (l.0, r.0)).collect()
}

#[test]
fn grid_hash_single() {
    let vertex = (1000, 2000);
    let expected = Bins::from_iter([21].iter().cloned());
    let actual = grid_hash(&[vertex, vertex, vertex, vertex, vertex], 1000);

    assert_eq!(expected, actual);
}

/// Tilted box spanning multiple bins
#[test]
fn grid_hash_box() {
    let vertices = [
        (1000, 2000), // bin 21
        (1770, 2200), // bin 21
        (1550, 2900), // bin 21
        (780, 2770),  // bin 20
        (1000, 2000), // bin 21
    ];
    let expected = Bins::from_iter([20, 21].iter().cloned());
    let actual = grid_hash(&vertices, 1000);

    assert_eq!(expected, actual);
}

/// The tilted box is in both of its bins in the map, and has both in the index.
#[test]
fn build_map_box_spanning_bins() {
    let vertices = [
        (1000, 2000),
        (1770, 2200),
        (1550, 2900),
        (780, 2770),
        (1000, 2000),
    ];
    let boxes = geoms(&[(EntityId(7), vertices)]);

    let (map, index) = build_map(&boxes, 1000);

    assert_eq!(map.len(), 2);
    assert_eq!(map.get(&20), Some(&ids(&[EntityId(7)])));
    assert_eq!(map.get(&21), Some(&ids(&[EntityId(7)])));
    assert_eq!(index.len(), 1);
    assert_eq!(
        index.get(&7),
        Some(&Bins::from_iter([20, 21].iter().cloned()))
    );
}

#[test]
fn calc_bin_single() {
    assert_eq!(calc_bin(&(1000, 2000), 1000), 21);
    // The same vertex gives the same bin every time.
    assert_eq!(calc_bin(&(1000, 2000), 1000), calc_bin(&(1000, 2000), 1000));
}

#[test]
fn calc_bin_on_boundaries() {
    assert_eq!(calc_bin(&(0, 0), 1000), 0);
    assert_eq!(calc_bin(&(999, 999), 1000), 0);
    assert_eq!(calc_bin(&(1000, 999), 1000), 1);
    assert_eq!(calc_bin(&(999, 1000), 1000), 10);
    assert_eq!(calc_bin(&(10000, 10000), 1000), 110);
    // The row stride is the whole number of bins across the arena.
    assert_eq!(calc_bin(&(0, 600), 300), 66);
}

#[test]
fn calc_bin_left_of_the_arena() {
    // Division rounds toward zero: just outside is still column 0.
    assert_eq!(calc_bin(&(-5, 2000), 1000), 20);
    assert_eq!(calc_bin(&(-1000, 2000), 1000), 19);
    assert_eq!(calc_bin(&(500, -1000), 1000), -10);
}

/// 2 walls with some occupying some bins in common - build map and index
#[test]
fn build_map_2walls_some_common_bins() {
    // Arrange - 2 walls in bin 11
    let mut obj_factory = ObjectFactory::new(1000);
    let (wall1, _, wall1_geom, _) = obj_factory.make_wall((1200, 1200));
    let w1_bins_expected = Bins::from_iter([0, 1, 10, 11].iter().cloned());
    let (wall2, _, wall2_geom, _) = obj_factory.make_wall((1700, 1700));
    let w2_bins_expected = Bins::from_iter([11, 12, 21, 22].iter().cloned());
    let walls_geoms: GeomMap = geoms(&[(wall1.get_id(), wall1_geom), (wall2.get_id(), wall2_geom)]);
    let expected = ids(&[wall1.get_id(), wall2.get_id()]);
    // Act
    let (wall_map, wall_index) = build_map(&walls_geoms, 1000);

    // Assert - map
    assert_eq!(wall_map.get(&11).unwrap(), &expected);

    // Assert - index
    assert_eq!(wall_index.get(&wall1.get_id().0), Some(&w1_bins_expected));
    assert_eq!(wall_index.get(&wall2.get_id().0), Some(&w2_bins_expected));
}

#[test]
fn build_map_of_nothing() {
    let (map, index) = build_map(&GeomMap::new(), 1000);
    assert!(map.is_empty());
    assert!(index.is_empty());
}

#[test]
fn collision_static_simple() {
    // Arrange - 2 walls, 2 baddies, 1 of each colliding, plus associated handler
    let mut obj_factory = ObjectFactory::new(400);
    let (wall1, _, wall1_geom, _) = obj_factory.make_wall((1200, 1200));
    let (wall2, _, wall2_geom, _) = obj_factory.make_wall((1700, 1700));
    let walls_geoms: GeomMap = geoms(&[(wall1.get_id(), wall1_geom), (wall2.get_id(), wall2_geom)]);

    // colliding baddie:
    let (baddie1, _, baddie1_geom, _) = obj_factory.make_baddie((1200, 1200), (0, 0));
    // not colliding baddie:
    let (baddie2, _, baddie2_geom, _) = obj_factory.make_baddie((0, 0), (0, 0));
    let baddies_geoms: GeomMap = geoms(&[
        (baddie1.get_id(), baddie1_geom),
        (baddie2.get_id(), baddie2_geom),
    ]);
    let baddie_wall_handler = Expecting {
        left: baddie1.get_id(),
        right: wall1.get_id(),
        never_left: baddie2.get_id(),
        never_right: wall2.get_id(),
        calls: 0,
    };
    let dummy_geoms = &GeomMap::new();
    let mut collision_system = CollisionSystem::new(
        &walls_geoms,
        &baddies_geoms,
        &dummy_geoms,
        &dummy_geoms,
        baddie_wall_handler,
        Ignore,
        Ignore,
        Ignore,
    );
    // Act
    collision_system.process(&walls_geoms, &baddies_geoms, &dummy_geoms, &dummy_geoms);

    // Assert - see handler, above; and it was called exactly once
    let (baddie_wall_handler, _, _, _) = collision_system.into_handlers();
    assert_eq!(baddie_wall_handler.calls, 1);
}

#[test]
fn collision_can_mutate_baddie() {
    // Arrange - 1 wall, 1 baddies, colliding, plus associated baddie_wall_handler
    let mut obj_factory = ObjectFactory::new(1000);
    let (wall, _, wall_geom, _) = obj_factory.make_wall((1200, 1200));
    let walls_geoms: GeomMap = geoms(&[(wall.get_id(), wall_geom)]);

    let (baddie, baddie_shape, baddie_geom, _) = obj_factory.make_baddie((1200, 1200), (1000, 0));
    let baddies_geoms: GeomMap = geoms(&[(baddie.get_id(), baddie_geom)]);

    let baddie_wall_handler = Reversing {
        baddie: baddie.get_id(),
        wall: wall.get_id(),
        baddie_shape,
    };
    let dummy_geoms = &GeomMap::new();
    let mut collision_system = CollisionSystem::new(
        &walls_geoms,
        &baddies_geoms,
        &dummy_geoms,
        &dummy_geoms,
        baddie_wall_handler,
        Ignore,
        Ignore,
        Ignore,
    );
    // Act
    collision_system.process(&walls_geoms, &baddies_geoms, &dummy_geoms, &dummy_geoms);
    let (baddie_wall_handler, _, _, _) = collision_system.into_handlers();

    // Assert
    assert_eq!(*baddie_wall_handler.baddie_shape.get_vel(), (-1000, 0));
}

#[test]
fn calc_bin_count() {
    let bin_count_expected = 121;
    let bin_count_actual = bwb::spatial_hash::calc_bin_count(1000);
    assert_eq!(bin_count_actual, bin_count_expected);
}

#[test]
fn bins_across_the_arena() {
    // A 10 x 10 grid of whole bins, walked with one bin of margin each way.
    assert_eq!(bins_per_row(1000), 10);
    assert_eq!(bins_per_row(1000) * bins_per_row(1000), 100);
    assert_eq!(bwb::spatial_hash::calc_bin_count(1000), 11 * 11);
    assert_eq!(bins_per_row(MIN_BIN_SIZE), 40);
    assert_eq!(bwb::spatial_hash::calc_bin_count(MIN_BIN_SIZE), 41 * 41);
    assert_eq!(bins_per_row(300), 33);
    assert_eq!(bwb::spatial_hash::calc_bin_count(300), 34 * 34);
    assert_eq!(bwb::spatial_hash::calc_bin_count(20000), 1);
}

#[test]
fn pair_sharing_two_bins_is_dispatched_once() {
    // Wall and baddie both straddle the boundary between two bins.
    let mut obj_factory = ObjectFactory::new(400);
    let (wall, _, wall_geom, _) = obj_factory.make_wall((565, 250));
    let (baddie, _, baddie_geom, _) = obj_factory.make_baddie((565, 250), (0, 0));
    let walls_geoms = geoms(&[(wall.get_id(), wall_geom)]);
    let baddies_geoms = geoms(&[(baddie.get_id(), baddie_geom)]);
    let none = GeomMap::new();

    let mut system = CollisionSystem::new(
        &walls_geoms,
        &baddies_geoms,
        &none,
        &none,
        Recorder::new(),
        Recorder::new(),
        Recorder::new(),
        Recorder::new(),
    );
    assert_eq!(system.grid_bin_size, 565);
    let shared = Bins::from_iter([0, 1].iter().cloned());
    assert_eq!(system.wall_index.get(&wall.get_id().0), Some(&shared));
    assert_eq!(system.baddie_index.get(&baddie.get_id().0), Some(&shared));

    system.process(&walls_geoms, &baddies_geoms, &none, &none);
    system.process(&walls_geoms, &baddies_geoms, &none, &none);

    let (baddie_wall, bullet_wall, bullet_baddie, baddie_cannon) = system.into_handlers();
    // Once for each call of `process`.
    assert_eq!(
        baddie_wall.calls,
        vec![(baddie.get_id(), wall.get_id()), (baddie.get_id(), wall.get_id())]
    );
    assert!(bullet_wall.calls.is_empty());
    assert!(bullet_baddie.calls.is_empty());
    assert!(baddie_cannon.calls.is_empty());
}

#[test]
fn each_kind_goes_to_its_handler_left_entity_first() {
    let mut obj_factory = ObjectFactory::new(1000);
    let (wall, _, wall_geom, _) = obj_factory.make_wall((2000, 2000));
    let (baddie, _, baddie_geom, _) = obj_factory.make_baddie((2300, 2000), (0, 0));
    let (bullet, _, bullet_geom, _) = obj_factory.make_bullet((2100, 2000), (1, 0));
    let (cannon, _, cannon_geom, _) = obj_factory.make_cannon((2600, 2000));
    let (far_bullet, _, far_bullet_geom, _) = obj_factory.make_bullet((8000, 8000), (1, 0));
    let walls = geoms(&[(wall.get_id(), wall_geom)]);
    let baddies = geoms(&[(baddie.get_id(), baddie_geom)]);
    let bullets = geoms(&[
        (bullet.get_id(), bullet_geom),
        (far_bullet.get_id(), far_bullet_geom),
    ]);
    let cannons = geoms(&[(cannon.get_id(), cannon_geom)]);

    let mut system = CollisionSystem::new(
        &walls,
        &baddies,
        &bullets,
        &cannons,
        Recorder::new(),
        Recorder::new(),
        Recorder::new(),
        Recorder::new(),
    );
    system.process(&walls, &baddies, &bullets, &cannons);
    let (baddie_wall, bullet_wall, bullet_baddie, baddie_cannon) = system.into_handlers();

    assert_eq!(baddie_wall.calls, vec![(baddie.get_id(), wall.get_id())]);
    assert_eq!(bullet_wall.calls, vec![(bullet.get_id(), wall.get_id())]);
    assert_eq!(bullet_baddie.calls, vec![(bullet.get_id(), baddie.get_id())]);
    assert_eq!(baddie_cannon.calls, vec![(baddie.get_id(), cannon.get_id())]);
}

#[test]
fn entity_without_a_bin_in_range_is_not_seen() {
    // Both boxes lie wholly left of the arena, in bins below zero.
    let wall_geom = [(-3000, 100), (-2200, 100), (-2200, 900), (-3000, 900), (-3000, 100)];
    let baddie_geom = wall_geom;
    let walls = geoms(&[(EntityId(1), wall_geom)]);
    let baddies = geoms(&[(EntityId(2), baddie_geom)]);
    let none = GeomMap::new();
    let (wall_map, _) = build_map(&walls, 1000);
    let (baddie_map, _) = build_map(&baddies, 1000);
    let empty = SpatialMap::new();

    let collisions = detect_collisions(
        (&wall_map, &walls),
        (&baddie_map, &baddies),
        (&empty, &none),
        (&empty, &none),
        1000,
    );

    assert_eq!(wall_map.len(), 2);
    assert!(wall_map.contains_key(&-3) && wall_map.contains_key(&-2));
    assert!(pairs_of(&collisions.baddie_wall).is_empty());
}

#[test]
fn process_uses_the_geometry_it_is_given() {
    // The maps are those of construction; the geometry tested is the current one.
    let mut obj_factory = ObjectFactory::new(1000);
    let (wall, _, wall_geom, _) = obj_factory.make_wall((1200, 1200));
    let (baddie, _, baddie_geom, _) = obj_factory.make_baddie((1200, 1200), (0, 0));
    let (_, _, moved_geom, _) = obj_factory.make_baddie((6000, 6000), (0, 0));
    let walls = geoms(&[(wall.get_id(), wall_geom)]);
    let baddies = geoms(&[(baddie.get_id(), baddie_geom)]);
    let moved = geoms(&[(baddie.get_id(), moved_geom)]);
    let none = GeomMap::new();

    let mut system = CollisionSystem::new(
        &walls, &baddies, &none, &none, Recorder::new(), Ignore, Ignore, Ignore,
    );
    system.process(&walls, &moved, &none, &none);
    let (recorder, _, _, _) = system.into_handlers();

    assert!(recorder.calls.is_empty());
}

#[test]
fn add_collisions_tests_every_pair_of_the_bin() {
    let near = [(100, 100), (300, 100), (300, 300), (100, 300), (100, 100)];
    let near_too = [(200, 200), (400, 200), (400, 400), (200, 400), (200, 200)];
    let apart = [(700, 700), (900, 700), (900, 900), (700, 900), (700, 700)];
    let lefts = geoms(&[(EntityId(1), near), (EntityId(2), apart)]);
    let rights = geoms(&[(EntityId(3), near_too), (EntityId(4), apart), (EntityId(5), near)]);
    let (left_map, _) = build_map(&lefts, 1000);
    let (right_map, _) = build_map(&rights, 1000);
    let mut collisions = Collisions::new();
    collisions.insert(&CollisionKind::BulletWall, EntityId(9), EntityId(9));

    add_collisions(
        &mut collisions,
        &CollisionKind::BulletBaddie,
        (&left_map, &lefts),
        (&right_map, &rights),
        0,
    );

    let expected: HashSet<(u32, u32)> = [(1, 3), (1, 5), (2, 4)].iter().cloned().collect();
    assert_eq!(pairs_of(&collisions.bullet_baddie), expected);
    assert_eq!(
        pairs_of(collisions.get(&CollisionKind::BulletWall)),
        [(9, 9)].iter().cloned().collect()
    );
    assert!(pairs_of(&collisions.baddie_wall).is_empty());
    assert!(pairs_of(&collisions.baddie_cannon).is_empty());

    // An empty bin adds nothing.
    add_collisions(
        &mut collisions,
        &CollisionKind::BulletBaddie,
        (&left_map, &lefts),
        (&right_map, &rights),
        57,
    );
    assert_eq!(pairs_of(&collisions.bullet_baddie), expected);
}

#[test]
fn scanning_bins_apart_and_merging_gives_the_whole() {
    let mut obj_factory = ObjectFactory::new(1000);
    let (wall1, _, wall1_geom, _) = obj_factory.make_wall((1500, 1500));
    let (wall2, _, wall2_geom, _) = obj_factory.make_wall((7500, 7500));
    let (baddie1, _, baddie1_geom, _) = obj_factory.make_baddie((1600, 1500), (0, 0));
    let (baddie2, _, baddie2_geom, _) = obj_factory.make_baddie((7400, 7500), (0, 0));
    let walls = geoms(&[(wall1.get_id(), wall1_geom), (wall2.get_id(), wall2_geom)]);
    let baddies = geoms(&[(baddie1.get_id(), baddie1_geom), (baddie2.get_id(), baddie2_geom)]);
    let none = GeomMap::new();
    let empty = SpatialMap::new();
    let (wall_map, _) = build_map(&walls, 1000);
    let (baddie_map, _) = build_map(&baddies, 1000);

    let whole = detect_collisions(
        (&wall_map, &walls),
        (&baddie_map, &baddies),
        (&empty, &none),
        (&empty, &none),
        1000,
    );

    let mut low = Collisions::new();
    let mut high = Collisions::new();
    for bin in 0..bwb::spatial_hash::calc_bin_count(1000) {
        let part = if bin % 2 == 0 { &mut low } else { &mut high };
        scan_bin(
            part,
            (&wall_map, &walls),
            (&baddie_map, &baddies),
            (&empty, &none),
            (&empty, &none),
            bin,
        );
    }
    merge_collisions(&mut low, &high);

    let expected: HashSet<(u32, u32)> = [
        (baddie1.get_id().0, wall1.get_id().0),
        (baddie2.get_id().0, wall2.get_id().0),
    ]
    .iter()
    .cloned()
    .collect();
    assert_eq!(pairs_of(&whole.baddie_wall), expected);
    assert_eq!(pairs_of(&low.baddie_wall), expected);
    assert!(pairs_of(&low.bullet_wall).is_empty());
}

#[test]
fn collision_pairs_hold_a_pair_once() {
    let mut pairs = CollisionPairs::new();
    assert!(pairs.to_vec().is_empty());

    pairs.insert(EntityId(1), EntityId(2));
    pairs.insert(EntityId(1), EntityId(2));
    pairs.insert(EntityId(2), EntityId(1));
    pairs.insert(EntityId(u32::MAX), EntityId(0));
    pairs.insert(EntityId(0), EntityId(u32::MAX));

    assert_eq!(pairs.to_vec().len(), 4);
    assert!(pairs.contains(EntityId(1), EntityId(2)));
    assert!(pairs.contains(EntityId(2), EntityId(1)));
    assert!(pairs.contains(EntityId(u32::MAX), EntityId(0)));
    assert!(pairs.contains(EntityId(0), EntityId(u32::MAX)));
    assert!(!pairs.contains(EntityId(2), EntityId(2)));

    let mut more = CollisionPairs::new();
    more.insert(EntityId(1), EntityId(2));
    more.insert(EntityId(5), EntityId(6));
    pairs.extend(&more);
    assert_eq!(pairs.to_vec().len(), 5);
    assert!(pairs.contains(EntityId(5), EntityId(6)));
}

#[test]
fn dispatch_hands_over_each_pair() {
    let mut pairs = CollisionPairs::new();
    pairs.insert(EntityId(1), EntityId(2));
    pairs.insert(EntityId(3), EntityId(4));
    pairs.insert(EntityId(1), EntityId(2));
    let mut recorder = Recorder::new();

    dispatch(&mut recorder, &pairs);

    let seen: HashSet<(EntityId, EntityId)> = recorder.calls.iter().cloned().collect();
    assert_eq!(recorder.calls.len(), 2);
    assert!(seen.contains(&(EntityId(1), EntityId(2))));
    assert!(seen.contains(&(EntityId(3), EntityId(4))));
}

#[test]
fn integer_sqrt_exact() {
    assert_eq!(integer_sqrt(0), 0);
    assert_eq!(integer_sqrt(1), 1);
    assert_eq!(integer_sqrt(3), 1);
    assert_eq!(integer_sqrt(4), 2);
    assert_eq!(integer_sqrt(2000000), 1414);
    assert_eq!(integer_sqrt(0xffff_ffff), 0xffff);
    assert_eq!(integer_sqrt(i64::MAX), 3037000499);
}

#[test]
fn bin_size_is_the_diagonal_or_the_minimum() {
    assert_eq!(MIN_BIN_SIZE, 250);
    assert_eq!(bin_size_for(None), 250);
    assert_eq!(bin_size_for(Some(0)), 250);
    // side 100: diagonal 141
    assert_eq!(bin_size_for(Some(10000)), 250);
    // side 177: diagonal 250
    assert_eq!(bin_size_for(Some(177 * 177)), 250);
    // side 178: diagonal 251
    assert_eq!(bin_size_for(Some(178 * 178)), 251);
    // side 400: diagonal 565
    assert_eq!(bin_size_for(Some(160000)), 565);
    // side 1000: diagonal 1414
    assert_eq!(bin_size_for(Some(1000000)), 1414);
    assert_eq!(bin_size_for(Some(i32::MAX)), 65535);
}

#[test]
fn bin_size_from_the_biggest_kind() {
    let mut obj_factory = ObjectFactory::new(1000);
    let (wall, _, wall_geom, _) = obj_factory.make_wall((1200, 1200));
    let (baddie, _, baddie_geom, _) = obj_factory.make_baddie((1200, 1200), (0, 0));
    let (bullet, _, bullet_geom, _) = obj_factory.make_bullet((1200, 1200), (1, 0));
    let walls = geoms(&[(wall.get_id(), wall_geom)]);
    let baddies = geoms(&[(baddie.get_id(), baddie_geom)]);
    let bullets = geoms(&[(bullet.get_id(), bullet_geom)]);
    let none = GeomMap::new();

    assert_eq!(representative(&walls), Some(1000000));
    assert_eq!(representative(&baddies), Some(750 * 750));
    assert_eq!(representative(&bullets), Some(10000));
    assert_eq!(representative(&none), None);

    assert_eq!(calc_bin_size(&walls, &baddies, &bullets, &none), 1414);
    assert_eq!(calc_bin_size(&none, &baddies, &bullets, &none), 1060);
    assert_eq!(calc_bin_size(&none, &none, &bullets, &none), 250);
    assert_eq!(calc_bin_size(&none, &none, &none, &none), 250);
}

#[test]
fn larger_of_two() {
    assert_eq!(larger(None, None), None);
    assert_eq!(larger(Some(3), None), Some(3));
    assert_eq!(larger(None, Some(4)), Some(4));
    assert_eq!(larger(Some(3), Some(4)), Some(4));
    assert_eq!(larger(Some(5), Some(4)), Some(5));
}
