use bwb::handler::CollisionHandler;
use bwb::entity::{EntityId, EntityKind};
use bwb::game_logic::{
    detect_and_handle_collisions, get_cannon_pos, handle_bullet_misses, is_inside_world,
    level_complete, level_state, move_cannon, move_with_wrap, player_health, try_fire,
    update_geometries, update_pos, update_positions, update_world, LevelState, RELOAD_TIME,
};
use bwb::rules::{Bounce, Destroy, DestroyBoth, Wound};
use bwb::geometry::Direction;
use bwb::shape::Shape;
use bwb::world::{create_world, ObjectFactory, World, GRID_WIDTH};
use std::collections::{HashMap, HashSet};

#[test]
fn bullet_meets_enemy_both_destroyed() {
    // Arrange
    // 2 different bullets, 2 different baddies, and 1 of each about to collide
    let mut obj_factory = ObjectFactory::new(1000);
    let hit_baddie = obj_factory.make_baddie((5500, 5000), (0, 0));
    let missed_baddie = obj_factory.make_baddie((5000, 7000), (0, 0));
    let expected_id_1 = missed_baddie.0.get_id();

    // Baddie size is 750 => left edge at 5500 - 750 / 2 = 5125
    let hitting_bullet = obj_factory.make_bullet((5115, 5000), (1, 0));
    let missing_bullet = obj_factory.make_bullet((4000, 4500), (0, 1));
    let expected_id_2 = missing_bullet.0.get_id();

    // simulate 20ms
    let dt = 20;

    let world = create_world(vec![
        hit_baddie,
        missed_baddie,
        hitting_bullet,
        missing_bullet,
    ]);

    // Act
    let (world, _) = update_world(world, dt);

    // Assert
    assert_eq!(world.entities.len(), 2);
    assert!(world.entities.contains_key(&expected_id_1.0));
    assert!(world.entities.contains_key(&expected_id_2.0));
}

#[test]
fn bullet_destroyed_at_screen_edge() {
    // Arrange
    let mut obj_factory = ObjectFactory::new(1000);
    let world = create_world(vec![
        obj_factory.make_bullet((GRID_WIDTH as i32 - 10, 100), (1, 0))
    ]);
    let dt = 20;

    // Act
    let (world, _) = update_world(world, dt);

    // Assert
    assert_eq!(world.entities.len(), 0);
}

#[test]
fn baddies_wrap_at_screen_edge_lr() {
    // Arrange
    let mut obj_factory = ObjectFactory::new(1000);
    let baddie = obj_factory.make_baddie((GRID_WIDTH as i32 - 10, 1000), (1000, 0));
    let baddie_id = baddie.0.get_id();
    let world = create_world(vec![baddie]);
    let dt = 20;
    let new_center_expected = (10, 1000);

    // Act
    let (world, _) = update_world(world, dt);

    // Assert
    let new_center_actual = world.shapes.get(&baddie_id.0).unwrap().get_center();
    assert_eq!(*new_center_actual, new_center_expected);
}

#[test]
fn baddies_wrap_at_screen_edge_rl() {
    // Arrange
    let mut obj_factory = ObjectFactory::new(1000);
    let baddie = obj_factory.make_baddie((10, 1000), (-1000, 0));
    let baddie_id = baddie.0.get_id();
    let world = create_world(vec![baddie]);
    let dt = 20;
    let new_center_expected = (GRID_WIDTH as i32 - 10, 1000);

    // Act
    let (world, _) = update_world(world, dt);

    // Assert
    let new_center_actual = world.shapes.get(&baddie_id.0).unwrap().get_center();
    assert_eq!(*new_center_actual, new_center_expected);
}

#[test]
fn baddies_bounce_off_walls() {
    // Arrange
    let mut obj_factory = ObjectFactory::new(1000);
    let baddie = obj_factory.make_baddie((1000, 1000), (1000, 0)); // size 750 => right edge is at x=1375
    let baddie_id = baddie.0.get_id();
    let wall = obj_factory.make_wall((1900, 1000)); // size is 1000 => left edge is at 1400
    let world = create_world(vec![baddie, wall]);
    let dt = 100;
    // Expect baddie to travel into the wall, and then be reversed.

    // Act
    let (world, _) = update_world(world, dt);

    // Assert
    let new_vel = *world.shapes.get(&baddie_id.0).unwrap().get_vel();
    assert_eq!(new_vel, (-1000, 0));
    // ... and to be back where it came from.
    assert_eq!(*world.shapes.get(&baddie_id.0).unwrap().get_center(), (1000, 1000));
    assert_eq!(world.geometries.get(&baddie_id.0).unwrap()[0], (625, 625));
}

#[test]
fn bullet_destroyed_by_wall() {
    // Arrange
    let mut obj_factory = ObjectFactory::new(1000);

    // size is 100 => right edge is at 1390. Also, speed is 1000U/sec
    let bullet = obj_factory.make_bullet((1340, 1000), (1, 0));
    let bullet_id = bullet.0.get_id();
    // size is 1000 => left edge is at 1400
    let wall = obj_factory.make_wall((1900, 1000));
    let world = create_world(vec![bullet, wall]);

    let dt = 20;

    // Act
    let (world, _) = update_world(world, dt);

    // Assert
    assert_eq!(world.entities.len(), 1);
    assert!(world.entities.contains_key(&bullet_id.0) == false);
}

#[test]
fn baddie_destroyed_by_cannon() {
    // Arrange
    let mut obj_factory = ObjectFactory::new(1000);
    let cannon = obj_factory.make_cannon((1000, 1000));
    let baddie = obj_factory.make_baddie((1000, 1000), (0, 0));
    let baddie_id = baddie.0.get_id();
    let world = create_world(vec![cannon, baddie]);

    let dt = 20;

    // Act
    let (world, _) = update_world(world, dt);

    // Assert
    assert_eq!(world.entities.len(), 1);
    assert!(world.entities.contains_key(&baddie_id.0) == false);
}

#[test]
fn cannon_damaged_by_baddie() {
    // Arrange
    let mut obj_factory = ObjectFactory::new(1000);
    let cannon = obj_factory.make_cannon((1000, 1000));
    let cannon_id = cannon.0.get_id();
    let baddie = obj_factory.make_baddie((1000, 1000), (0, 0));
    let world = create_world(vec![cannon, baddie]);
    let expected_health_change = -1;

    let dt = 20;

    // Act
    let health_before = *world.healths.get(&cannon_id.0).unwrap();
    let (world, _) = update_world(world, dt);
    let health_after = world.healths.get(&cannon_id.0).unwrap();

    // Assert
    assert_eq!(health_after - health_before, expected_health_change);
}

#[test]
fn gameover_at_zero_health() {
    // Arrange - init world with cannon/players health at 0.
    let mut obj_factory = ObjectFactory::new(1000);
    let cannon = obj_factory.make_cannon((1000, 1000));
    let (entity, shape, geometry, _) = cannon;
    let cannon = (entity, shape, geometry, Some(0));
    let world = create_world(vec![cannon]);

    // Act
    let (_, level_state) = update_world(world, 10);

    // Assert
    let gameover = match level_state {
        LevelState::GameOver => true,
        _ => false,
    };
    assert!(gameover);
}

#[test]
fn level_states() {
    assert_eq!(level_state(Some(0), false), LevelState::GameOver);
    assert_eq!(level_state(Some(0), true), LevelState::GameOver);
    assert_eq!(level_state(Some(1), true), LevelState::Complete);
    assert_eq!(level_state(None, true), LevelState::Complete);
    assert_eq!(level_state(Some(-1), false), LevelState::InProgress);
    assert_eq!(level_state(None, false), LevelState::InProgress);
}

#[test]
fn level_complete_without_baddies() {
    let mut obj_factory = ObjectFactory::new(1000);
    let cannon = obj_factory.make_cannon((1000, 1000));
    let wall = obj_factory.make_wall((5000, 5000));
    let world = create_world(vec![cannon, wall]);
    assert!(level_complete(&world));
    assert_eq!(player_health(&world), Some(3));

    let (world, state) = update_world(world, 20);
    assert_eq!(state, LevelState::Complete);
    assert_eq!(world.entities.len(), 2);

    let baddie = obj_factory.make_baddie((8000, 8000), (0, 0));
    let world = create_world(vec![baddie]);
    assert!(!level_complete(&world));
    assert_eq!(player_health(&world), None);
    let (_, state) = update_world(world, 20);
    assert_eq!(state, LevelState::InProgress);
}

#[test]
fn move_with_wrap_each_case() {
    assert_eq!(move_with_wrap(10, -20, 10000), 9990);
    assert_eq!(move_with_wrap(10, 20, 10000), 30);
    assert_eq!(move_with_wrap(9990, 20, 10000), 10);
    assert_eq!(move_with_wrap(9990, 10, 10000), 0);
    assert_eq!(move_with_wrap(0, 0, 10000), 0);
    assert_eq!(move_with_wrap(10, -10, 10000), 0);
}

#[test]
fn inside_world_edges() {
    assert!(is_inside_world((1, 1)));
    assert!(is_inside_world((10000, 10000)));
    assert!(!is_inside_world((0, 5000)));
    assert!(!is_inside_world((5000, 0)));
    assert!(!is_inside_world((10001, 5000)));
    assert!(!is_inside_world((5000, 10001)));
    assert!(!is_inside_world((-1, -1)));
}

#[test]
fn update_pos_steps_in_whole_units() {
    let mut shape = Shape::new((100, 100), 50, (1999, -1999));
    update_pos(&mut shape, 1, false);
    // 1999 units a second is one unit a millisecond, rounded toward zero.
    assert_eq!(*shape.get_center(), (101, 99));
    assert_eq!(shape.center_prev, (100, 100));

    let mut shape = Shape::new((9990, 10), 50, (1000, -1000));
    update_pos(&mut shape, 20, true);
    assert_eq!(*shape.get_center(), (10, 9990));

    let mut shape = Shape::new((9990, 10), 50, (1000, -1000));
    update_pos(&mut shape, 20, false);
    assert_eq!(*shape.get_center(), (10010, -10));
}

#[test]
fn update_positions_by_kind() {
    let mut obj_factory = ObjectFactory::new(1000);
    let baddie = obj_factory.make_baddie((9990, 1000), (1000, 0));
    let bullet = obj_factory.make_bullet((9990, 1000), (1, 0));
    let (baddie_id, bullet_id) = (baddie.0.get_id().0, bullet.0.get_id().0);
    let mut world = create_world(vec![baddie, bullet]);
    // A shape that belongs to no entity stays where it is.
    world.shapes.insert(99, Shape::new((5, 5), 10, (1000, 1000)));

    update_positions(&world.entities, &mut world.shapes, 20);

    assert_eq!(*world.shapes.get(&baddie_id).unwrap().get_center(), (10, 1000));
    assert_eq!(*world.shapes.get(&bullet_id).unwrap().get_center(), (10010, 1000));
    assert_eq!(*world.shapes.get(&99).unwrap().get_center(), (5, 5));
}

#[test]
fn update_geometries_follow_shapes() {
    let mut obj_factory = ObjectFactory::new(1000);
    let wall = obj_factory.make_wall((1200, 1200));
    let wall_id = wall.0.get_id().0;
    let mut world = create_world(vec![wall]);
    world.shapes.get_mut(&wall_id).unwrap().set_center((3000, 4000));
    world.geometries.insert(77, [(1, 2); 5]);

    update_geometries(&world.shapes, &mut world.geometries);

    assert_eq!(
        world.geometries.get(&wall_id).unwrap(),
        &[(2500, 3500), (3500, 3500), (3500, 4500), (2500, 4500), (2500, 3500)]
    );
    assert_eq!(world.geometries.get(&77).unwrap(), &[(1, 2); 5]);
}

#[test]
fn bullet_misses_are_removed() {
    let mut obj_factory = ObjectFactory::new(1000);
    let inside = obj_factory.make_bullet((10000, 10000), (1, 0));
    let outside = obj_factory.make_bullet((0, 500), (1, 0));
    let baddie_outside = obj_factory.make_baddie((0, 500), (0, 0));
    let inside_id = inside.0.get_id().0;
    let outside_id = outside.0.get_id().0;
    let baddie_id = baddie_outside.0.get_id().0;
    let mut world = create_world(vec![inside, outside, baddie_outside]);

    handle_bullet_misses(&mut world);

    assert_eq!(world.entities.len(), 2);
    assert!(world.entities.contains_key(&inside_id));
    assert!(world.entities.contains_key(&baddie_id));
    assert!(!world.shapes.contains_key(&outside_id));
    assert!(!world.geometries.contains_key(&outside_id));
}

#[test]
fn collisions_are_handled_by_the_rules() {
    let mut obj_factory = ObjectFactory::new(1000);
    let wall = obj_factory.make_wall((2000, 2000));
    let baddie = obj_factory.make_baddie((2300, 2000), (500, -500));
    let bullet = obj_factory.make_bullet((2100, 2000), (1, 0));
    let cannon = obj_factory.make_cannon((2600, 2000));
    let far_bullet = obj_factory.make_bullet((8000, 8000), (1, 0));
    let baddie_id = baddie.0.get_id().0;
    let bullet_id = bullet.0.get_id().0;
    let cannon_id = cannon.0.get_id().0;
    let mut world = create_world(vec![wall, baddie, bullet, cannon, far_bullet]);
    world.shapes.get_mut(&baddie_id).unwrap().set_center((2400, 2000));

    let to_remove = detect_and_handle_collisions(
        &world.entities,
        &mut world.shapes,
        &world.geometries,
        &mut world.healths,
    );

    let expected: HashSet<u32> = [baddie_id, bullet_id].iter().cloned().collect();
    assert_eq!(to_remove, expected);
    assert_eq!(world.healths.get(&cannon_id), Some(&2));
    let baddie_shape = world.shapes.get(&baddie_id).unwrap();
    assert_eq!(*baddie_shape.get_vel(), (-500, 500));
    assert_eq!(*baddie_shape.get_center(), (2300, 2000));
    assert_eq!(world.shapes.len(), 5);
}

#[test]
fn handlers_one_by_one() {
    let mut shapes = HashMap::new();
    let mut shape = Shape::new((10, 20), 50, (3, -4));
    shape.set_center((30, 40));
    shapes.insert(1, shape);
    let mut bounce = Bounce { shapes };
    bounce.handle(EntityId(1), EntityId(2));
    let shape = bounce.shapes.get(&1).unwrap();
    assert_eq!((*shape.get_center(), *shape.get_vel()), ((10, 20), (-3, 4)));

    let mut destroy = Destroy { to_remove: HashSet::new() };
    destroy.handle(EntityId(1), EntityId(2));
    assert_eq!(destroy.to_remove, [1].iter().cloned().collect());

    let mut destroy_both = DestroyBoth { to_remove: HashSet::new() };
    destroy_both.handle(EntityId(1), EntityId(2));
    assert_eq!(destroy_both.to_remove, [1, 2].iter().cloned().collect());

    let mut healths = HashMap::new();
    healths.insert(2, 3);
    healths.insert(3, i32::MIN);
    let mut wound = Wound { to_remove: HashSet::new(), healths };
    wound.handle(EntityId(1), EntityId(2));
    wound.handle(EntityId(4), EntityId(2));
    wound.handle(EntityId(4), EntityId(3));
    assert_eq!(wound.to_remove, [1, 4].iter().cloned().collect());
    assert_eq!(wound.healths.get(&2), Some(&1));
    assert_eq!(wound.healths.get(&3), Some(&i32::MIN));
}

#[test]
fn try_fire_is_throttled() {
    let mut obj_factory = ObjectFactory::new(1000);
    let cannon = obj_factory.make_cannon((5000, 5000));
    let mut world = create_world(vec![cannon]);
    assert_eq!(*get_cannon_pos(&world), (5000, 5000));

    // Too early: exactly the reload time has passed.
    let fired = try_fire(2000 + RELOAD_TIME, 2000, &mut world, Direction::Left, &mut obj_factory);
    assert_eq!(fired, 2000);
    assert_eq!(world.entities.len(), 1);

    let fired = try_fire(3001, 2000, &mut world, Direction::Left, &mut obj_factory);
    assert_eq!(fired, 3001);
    assert_eq!(world.entities.len(), 2);
    let bullet = world
        .entities
        .values()
        .find(|e| *e.get_kind() == EntityKind::Bullet)
        .unwrap();
    let shape = world.shapes.get(&bullet.get_id().0).unwrap();
    assert_eq!(*shape.get_center(), (5000, 5000));
    assert_eq!(*shape.get_vel(), (-1000, 0));
    assert_eq!(*shape.get_size(), 100);
}

#[test]
fn move_cannon_sets_it_moving() {
    let mut obj_factory = ObjectFactory::new(1000);
    let cannon = obj_factory.make_cannon((5000, 5000));
    let wall = obj_factory.make_wall((1000, 1000));
    let cannon_id = cannon.0.get_id().0;
    let wall_id = wall.0.get_id().0;
    let mut world: World = create_world(vec![cannon, wall]);

    move_cannon(&mut world, Direction::Up);
    assert_eq!(*world.shapes.get(&cannon_id).unwrap().get_vel(), (0, -1000));
    move_cannon(&mut world, Direction::Down);
    assert_eq!(*world.shapes.get(&cannon_id).unwrap().get_vel(), (0, 1000));
    assert_eq!(*world.shapes.get(&wall_id).unwrap().get_vel(), (0, 0));

    let (world, _) = update_world(world, 20);
    assert_eq!(*world.shapes.get(&cannon_id).unwrap().get_center(), (5000, 5020));
}
