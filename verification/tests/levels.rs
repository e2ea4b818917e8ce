use bwb::engine::{
    advance, after_frame, frame_control, frame_interval, init_level, play_level, title_screen,
    Action, Control, GameState, Input, Key, FIRST_LEVEL, MAX_FPS,
};
use bwb::entity::EntityKind;
use bwb::game_logic::LevelState;
use bwb::geometry::Direction;
use bwb::levels::{
    build_level, build_level0, init, level_params, place, Draw, FIXED_LEVEL_SPIN, MAX_SPIN,
    TEST_HEALTH,
};
use bwb::render::{h_center, health_bar, kind_color, layout_lines, v_center};
use bwb::text::{point_size, Size};
use bwb::world::{ObjectFactory, World};

fn count(world: &World, kind: EntityKind) -> usize {
    world
        .entities
        .values()
        .filter(|e| *e.get_kind() == kind)
        .count()
}

#[test]
fn level_params_of_each_level() {
    let first = level_params(1);
    assert_eq!(
        (first.base_size, first.sparsity, first.wall_pc, first.baddie_speed, first.test),
        (1500, 25, 90, 600, false)
    );
    let second = level_params(2);
    assert_eq!((second.base_size, second.sparsity, second.wall_pc), (1500, 20, 80));
    let third = level_params(3);
    assert_eq!((third.base_size, third.sparsity, third.wall_pc), (1200, 20, 80));
    let fourth = level_params(4);
    assert_eq!((fourth.base_size, fourth.sparsity, fourth.wall_pc), (800, 8, 25));
    let test = level_params(99);
    assert_eq!((test.base_size, test.sparsity, test.wall_pc, test.test), (100, 5, 20, true));
    let small = level_params(-1);
    assert_eq!((small.base_size, small.sparsity, small.wall_pc, small.test), (20, 5, 20, true));
    // A level without parameters of its own has those of the first.
    for level in [0, 5, 98, -2, i32::MAX, i32::MIN] {
        let params = level_params(level);
        assert_eq!(
            (params.base_size, params.sparsity, params.wall_pc, params.baddie_speed, params.test),
            (1500, 25, 90, 600, false)
        );
    }
}

#[test]
fn fixed_level_is_laid_out_by_hand() {
    let (level, obj_factory) = init(0);
    let world = &level.world;

    assert_eq!(obj_factory.base_size, 1500);
    assert_eq!(obj_factory.ids.last, 11);
    assert_eq!(world.entities.len(), 11);
    assert_eq!(count(world, EntityKind::Cannon), 1);
    assert_eq!(count(world, EntityKind::Wall), 4);
    assert_eq!(count(world, EntityKind::Baddie), 6);
    assert_eq!(*world.shapes.get(&1).unwrap().get_center(), (5000, 5000));
    assert_eq!(*world.shapes.get(&1).unwrap().get_size(), 300);
    assert_eq!(world.healths.get(&1), Some(&3));
    assert_eq!(*world.shapes.get(&3).unwrap().get_center(), (7500, 2500));
    assert_eq!(*world.shapes.get(&3).unwrap().get_size(), 1500);
    assert_eq!(*world.shapes.get(&7).unwrap().get_center(), (4000, 2000));
    assert_eq!(*world.shapes.get(&7).unwrap().get_vel(), (-200, 100));
    assert_eq!(*world.shapes.get(&11).unwrap().get_vel(), (50, -200));
    assert_eq!(*world.shapes.get(&11).unwrap().get_size(), 1125);
    assert_eq!(
        level.spins,
        (6..=11).map(|id| (id, FIXED_LEVEL_SPIN)).collect::<Vec<_>>()
    );
    assert_eq!(FIXED_LEVEL_SPIN, 50);

    let mut obj_factory = ObjectFactory::new(1000);
    let again = build_level0(&mut obj_factory);
    assert_eq!(again.world.entities.len(), 11);
    assert_eq!(*again.world.shapes.get(&11).unwrap().get_size(), 750);
}

#[test]
fn generated_level_keeps_to_its_parameters() {
    let params = level_params(4);
    let mut obj_factory = ObjectFactory::new(params.base_size);
    let level = build_level(&mut obj_factory, &params);
    let world = &level.world;

    assert_eq!(world.entities.len() as u32, obj_factory.ids.last);
    // Rows 800 apart down to the far edge, each with an object at least.
    assert!(world.entities.len() - 1 >= 13);
    assert_eq!(count(world, EntityKind::Cannon), 1);
    assert_eq!(world.healths.get(&1), Some(&3));
    assert_eq!(*world.shapes.get(&1).unwrap().get_center(), (5000, 5000));
    // Rolls come out on both sides of the share of walls.
    assert!(count(world, EntityKind::Wall) > 0);
    assert!(count(world, EntityKind::Baddie) > 0);
    assert_eq!(count(world, EntityKind::Bullet), 0);
    assert_eq!(level.spins.len(), count(world, EntityKind::Baddie));

    let mut steps = std::collections::HashSet::new();
    for (id, entity) in world.entities.iter() {
        let shape = world.shapes.get(id).unwrap();
        let (x, y) = *shape.get_center();
        let (vx, vy) = *shape.get_vel();
        match entity.get_kind() {
            EntityKind::Wall => {
                assert_eq!(*shape.get_size(), 800);
                assert_eq!((vx, vy), (0, 0));
            }
            EntityKind::Baddie => {
                assert_eq!(*shape.get_size(), 600);
                assert!(-600 <= vx && vx <= 600 && -600 <= vy && vy <= 600);
            }
            _ => continue,
        }
        // Rows lie a base size apart, and no step along a row is shorter
        // than half of it or longer than the sparsity allows.
        assert!(y % 800 == 0 && 0 < y && y < 10000 + 800);
        assert!(400 <= x && x < 10000 + 800 * 8);
        steps.insert(x);
    }
    assert!(steps.len() > 1);
    for (_, spin) in level.spins.iter() {
        assert!(-MAX_SPIN <= *spin && *spin <= MAX_SPIN);
    }
    assert_eq!(MAX_SPIN, 120);
}

#[test]
fn test_level_has_a_cannon_that_lasts() {
    let (level, obj_factory) = init(99);
    assert_eq!(obj_factory.base_size, 100);
    assert_eq!(level.world.healths.get(&1), Some(&TEST_HEALTH));
    assert_eq!(TEST_HEALTH, 1000);
    assert_eq!(*level.world.shapes.get(&1).unwrap().get_size(), 20);
}

#[test]
fn place_by_roll() {
    let mut obj_factory = ObjectFactory::new(1000);
    let draw = Draw { position: (700, 2000), roll: 24, vel: (10, -20), spin: 7 };
    let ((entity, shape, geometry, health), spin) = place(&mut obj_factory, &draw, 25);
    assert_eq!(*entity.get_kind(), EntityKind::Wall);
    assert_eq!(*shape.get_center(), (700, 2000));
    assert_eq!(*shape.get_vel(), (0, 0));
    assert_eq!(geometry[0], (200, 1500));
    assert_eq!(health, None);
    assert_eq!(spin, None);

    let draw = Draw { position: (700, 2000), roll: 25, vel: (10, -20), spin: 7 };
    let ((entity, shape, _, _), spin) = place(&mut obj_factory, &draw, 25);
    assert_eq!(*entity.get_kind(), EntityKind::Baddie);
    assert_eq!(*shape.get_vel(), (10, -20));
    assert_eq!(spin, Some(7));
    assert_eq!(obj_factory.ids.last, 2);
}

#[test]
fn title_screen_waits_for_a_key() {
    assert_eq!(title_screen(None), (GameState::ShowingTitleScreen, false));
    assert_eq!(
        title_screen(Some(Input::KeyDown(Key::Other))),
        (GameState::StartingLevel(1), false)
    );
    assert_eq!(
        title_screen(Some(Input::KeyDown(Key::Escape))),
        (GameState::StartingLevel(FIRST_LEVEL), false)
    );
    assert_eq!(title_screen(Some(Input::Quit)), (GameState::ShowingTitleScreen, true));
    assert_eq!(title_screen(Some(Input::Other)), (GameState::ShowingTitleScreen, true));
}

#[test]
fn level_starts_ready_to_fire() {
    let play = init_level(0, 5000);
    assert_eq!(play.curr_level, 0);
    assert_eq!(play.prev_fire_time, 4000);
    assert_eq!(play.level.world.entities.len(), 11);
    assert_eq!(play.obj_factory.ids.last, 11);
    assert_eq!(init_level(0, 300).prev_fire_time, 0);
}

#[test]
fn states_follow_one_another() {
    assert_eq!(after_frame(LevelState::Complete, 3), GameState::AdvancingLevel(3));
    assert_eq!(after_frame(LevelState::GameOver, 3), GameState::GameOvering);
    assert_eq!(after_frame(LevelState::InProgress, 3), GameState::PlayingLevel(3));

    assert_eq!(advance(GameState::AdvancingLevel(3)), Some(GameState::StartingLevel(4)));
    assert_eq!(advance(GameState::GameOvering), Some(GameState::Quitting));
    assert_eq!(advance(GameState::Quitting), None);
    assert_eq!(advance(GameState::PlayingLevel(2)), Some(GameState::PlayingLevel(2)));
    assert_eq!(
        advance(GameState::ShowingTitleScreen),
        Some(GameState::ShowingTitleScreen)
    );
}

#[test]
fn keys_while_playing() {
    assert!(matches!(
        play_level(Input::KeyDown(Key::Left)),
        Action::Fire(Direction::Left)
    ));
    assert!(matches!(
        play_level(Input::KeyDown(Key::Right)),
        Action::Fire(Direction::Right)
    ));
    assert!(matches!(
        play_level(Input::KeyDown(Key::Up)),
        Action::Move(Direction::Up)
    ));
    assert!(matches!(
        play_level(Input::KeyDown(Key::Down)),
        Action::Move(Direction::Down)
    ));
    assert!(matches!(play_level(Input::KeyDown(Key::F)), Action::Pass));
    assert!(matches!(play_level(Input::Quit), Action::Pass));
    assert!(matches!(play_level(Input::Other), Action::Pass));

    assert_eq!(frame_control(Input::KeyDown(Key::F)), Control::PrintFramerate);
    assert_eq!(frame_control(Input::KeyDown(Key::Escape)), Control::Quit);
    assert_eq!(frame_control(Input::Quit), Control::Quit);
    assert_eq!(frame_control(Input::KeyDown(Key::Left)), Control::Nothing);
    assert_eq!(frame_control(Input::Other), Control::Nothing);

    assert_eq!(MAX_FPS, 60);
    assert_eq!(frame_interval(), 16666666);
}

#[test]
fn centered_on_the_screen() {
    assert_eq!(h_center(100), 250);
    assert_eq!(h_center(601), 0);
    assert_eq!(h_center(800), -100);
    assert_eq!(v_center(0), 300);
    assert_eq!(v_center(599), 1);

    // Three lines: 64 + 36 + 18 high, 30 below each, less one.
    let places = layout_lines(&vec![(100, 64), (300, 36), (50, 18)]);
    assert_eq!(
        places,
        vec![(250, 197, 100, 64), (150, 291, 300, 36), (275, 357, 50, 18)]
    );
    assert_eq!(layout_lines(&vec![(600, 571)]), vec![(0, 0, 600, 571)]);
}

#[test]
fn health_bar_by_health() {
    assert_eq!(health_bar(3), ((20, 20, 99, 20), (19, 19, 101, 22)));
    assert_eq!(health_bar(1), ((20, 20, 33, 20), (19, 19, 101, 22)));
    assert_eq!(health_bar(0), ((20, 20, 0, 20), (19, 19, 101, 22)));
}

#[test]
fn colours_and_fonts() {
    assert_eq!(kind_color(&EntityKind::Bullet), Some((74, 143, 255)));
    assert_eq!(kind_color(&EntityKind::Wall), Some((232, 225, 81)));
    assert_eq!(kind_color(&EntityKind::Baddie), Some((235, 33, 35)));
    assert_eq!(kind_color(&EntityKind::Cannon), Some((69, 247, 105)));
    assert_eq!(kind_color(&EntityKind::UNDEFINED), None);

    assert_eq!(point_size(Size::Small), 18);
    assert_eq!(point_size(Size::Medium), 36);
    assert_eq!(point_size(Size::Large), 64);
}
