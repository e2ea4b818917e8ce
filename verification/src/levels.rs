//! Level data: the parameters of each level, and the placing of its
//! objects.

use crate::entity::{EntityKind, IdGenerator};
use crate::geometry::{Vector, P};
use crate::world::{
    create_world, spec_calc_size, GameObject, Health, ObjectFactory, World, WorldView,
    BADDIE_SIZE, CANNON_SIZE, GRID_HEIGHT, GRID_WIDTH, PLAYER_HEALTH_MAX, WALL_SIZE,
};
use rand::Rng;
use vstd::prelude::*;

verus! {

/// The random number generator of the `rand` crate. Nothing is known of
/// what it holds.
#[verifier::external_type_specification]
#[verifier::external_body]
pub struct ExStdRng(rand::StdRng);

pub struct LevelParams {
    /// Base size for the level's objects. 1000 is a good amount.
    pub base_size: u32,
    /// Sparsity of generated objects, from 1 (most dense) upwards.
    pub sparsity: u32,
    /// How many in a hundred of the generated entities are walls (the rest
    /// will be baddies).
    pub wall_pc: u32,
    /// Max baddie speed, in units per second. 1000 is a good amount.
    pub baddie_speed: u32,
    /// Whether this is a test level: its cannon has a health that lasts.
    pub test: bool,
}

/// The fastest that a generated baddie spins either way, in hundredths of a
/// radian per second.
pub const MAX_SPIN: i32 = 120;

/// The health of the cannon of a test level.
pub const TEST_HEALTH: Health = 1000;

/// The level whose parameters stand in for those of a level that has none
/// of its own.
pub const DEFAULT_LEVEL: i32 = 1;

/// The level that is laid out by hand.
pub const FIXED_LEVEL: i32 = 0;

/// The parameters of each level.
pub open spec fn spec_level_params(level: int) -> LevelParams {
    if level == 2 {
        LevelParams { base_size: 1500, sparsity: 20, wall_pc: 80, baddie_speed: 600, test: false }
    } else if level == 3 {
        LevelParams { base_size: 1200, sparsity: 20, wall_pc: 80, baddie_speed: 600, test: false }
    } else if level == 4 {
        LevelParams { base_size: 800, sparsity: 8, wall_pc: 25, baddie_speed: 600, test: false }
    } else if level == 99 {
        LevelParams { base_size: 100, sparsity: 5, wall_pc: 20, baddie_speed: 600, test: true }
    } else if level == -1 {
        LevelParams { base_size: 20, sparsity: 5, wall_pc: 20, baddie_speed: 600, test: true }
    } else {
        LevelParams { base_size: 1500, sparsity: 25, wall_pc: 90, baddie_speed: 600, test: false }
    }
}

/// The parameters of the level. A level without parameters of its own has
/// those of the first level.
pub fn level_params(level: i32) -> (params: LevelParams)
    ensures
        params == spec_level_params(level as int),
{
    if level == 2 {
        LevelParams { base_size: 1500, sparsity: 20, wall_pc: 80, baddie_speed: 600, test: false }
    } else if level == 3 {
        LevelParams { base_size: 1200, sparsity: 20, wall_pc: 80, baddie_speed: 600, test: false }
    } else if level == 4 {
        LevelParams { base_size: 800, sparsity: 8, wall_pc: 25, baddie_speed: 600, test: false }
    } else if level == 99 {
        LevelParams { base_size: 100, sparsity: 5, wall_pc: 20, baddie_speed: 600, test: true }
    } else if level == -1 {
        LevelParams { base_size: 20, sparsity: 5, wall_pc: 20, baddie_speed: 600, test: true }
    } else {
        LevelParams { base_size: 1500, sparsity: 25, wall_pc: 90, baddie_speed: 600, test: false }
    }
}

/// Calls `SeedableRng::from_seed` for `StdRng`. Nothing is claimed of the
/// generator that comes back.
#[verifier::external_body]
fn seeded_rng(seed: &[usize]) -> (rng: rand::StdRng) {
    rand::SeedableRng::from_seed(seed)
}

/// Calls `Rng::gen_range`, which gives a value of the half-open range from
/// `low` up to, but not including, `high`. It panics where the range is
/// empty, which the precondition excludes.
#[verifier::external_body]
fn gen_range(rng: &mut rand::StdRng, low: i32, high: i32) -> (n: i32)
    requires
        low < high,
    ensures
        low <= n < high,
{
    rng.gen_range(low, high)
}

/// A random value from `lower` to `upper`, both included.
fn next_random(rng: &mut rand::StdRng, lower: i32, upper: i32) -> (n: i32)
    requires
        lower <= upper < i32::MAX,
    ensures
        lower <= n <= upper,
{
    gen_range(rng, lower, upper + 1)
}

/// What the generator decides of one object: where it goes, the roll that
/// makes it a wall or a baddie, and for a baddie its velocity and its spin,
/// in hundredths of a radian per second.
pub struct Draw {
    pub position: P,
    pub roll: i32,
    pub vel: Vector,
    pub spin: i32,
}

/// The object is a wall where the roll is below the level's share of
/// walls, else a baddie.
pub open spec fn is_wall_roll(roll: i32, wall_pc: u32) -> bool {
    roll < wall_pc
}

/// Makes the object that a draw decides: a wall at the position, or a
/// baddie there with the velocity drawn. The spin is that of the baddie,
/// and nothing for a wall.
pub fn place(obj_factory: &mut ObjectFactory, draw: &Draw, wall_pc: u32) -> (placed: (
    GameObject,
    Option<i32>,
))
    requires
        wall_pc <= i32::MAX,
        old(obj_factory).can_make(WALL_SIZE, draw.position),
        old(obj_factory).can_make(BADDIE_SIZE, draw.position),
    ensures
        final(obj_factory).base_size == old(obj_factory).base_size,
        final(obj_factory).ids.last == old(obj_factory).ids.last + 1,
        if is_wall_roll(draw.roll, wall_pc) {
            &&& old(obj_factory).makes(
                placed.0,
                EntityKind::Wall,
                WALL_SIZE,
                draw.position,
                (0, 0),
                None,
            )
            &&& placed.1 is None
        } else {
            &&& old(obj_factory).makes(
                placed.0,
                EntityKind::Baddie,
                BADDIE_SIZE,
                draw.position,
                draw.vel,
                None,
            )
            &&& placed.1 == Some(draw.spin)
        },
{
    if draw.roll < wall_pc as i32 {
        (obj_factory.make_wall(draw.position), None)
    } else {
        (obj_factory.make_baddie(draw.position, draw.vel), Some(draw.spin))
    }
}

/// The health of a level's cannon.
pub open spec fn cannon_health(test: bool) -> Health {
    if test {
        TEST_HEALTH
    } else {
        PLAYER_HEALTH_MAX
    }
}

/// The most objects that a generated level has in a row, and the most rows
/// it has: each object lies at least one unit beyond the one before, and
/// each row at least one unit below.
pub const MAX_PER_ROW: u32 = 10000;

/// The parameters can be used to generate a level with this factory: the
/// objects have a size, the steps between them are at least one unit, all
/// positions and boxes fit, and the factory has identifiers left for the
/// most objects there can be. The least base size is that at which the
/// cannon, a fifth of it, still has a size.
pub open spec fn can_generate(factory: ObjectFactory, params: LevelParams) -> bool {
    &&& params.base_size == factory.base_size
    &&& 5 <= params.base_size <= 100000
    &&& 1 <= params.sparsity <= 1000
    &&& params.wall_pc <= 100
    &&& params.baddie_speed <= 1000000
    &&& factory.ids.last <= 1000
}

/// A generated level: the world, and the spin of each baddie, in
/// hundredths of a radian per second, under the baddie's identifier.
pub struct Generated {
    pub world: World,
    pub spins: Vec<(u32, i32)>,
}

/// Procedurally generates level data: a cannon in the middle of the arena,
/// and row by row walls and baddies at random steps.
///
/// What is drawn at random is not determined. Of every outcome: the world
/// is well formed, its first object is the cannon, every other object is
/// what `place` makes of a draw that lies in the ranges of the parameters,
/// and there are objects enough for one in each row down to the far edge
/// of the arena.
pub fn build_level(obj_factory: &mut ObjectFactory, level_params: &LevelParams) -> (level:
    Generated)
    requires
        can_generate(*old(obj_factory), *level_params),
    ensures
        level.world@.wf(),
        final(obj_factory).base_size == old(obj_factory).base_size,
        exists|objects: Seq<GameObject>|
            {
                &&& #[trigger] WorldView::empty().with_objects(objects) == level.world@
                &&& objects.len() == final(obj_factory).ids.last - old(obj_factory).ids.last
                &&& is_generated_level(objects, *old(obj_factory), *level_params)
                &&& (objects.len() - 1) * level_params.base_size >= GRID_HEIGHT
            },
        forall|i: int|
            0 <= i < level.spins@.len() ==> -MAX_SPIN <= (#[trigger] level.spins@[i]).1 <= MAX_SPIN,
{
    let base_size = level_params.base_size as i32;
    let sparsity = level_params.sparsity as i32;
    let wall_pc = level_params.wall_pc;
    let baddie_speed = level_params.baddie_speed as i32;
    let ghost start = obj_factory.ids.last;

    let mut level_data: Vec<GameObject> = Vec::new();
    let mut spins: Vec<(u32, i32)> = Vec::new();
    let seed: [usize; 4] = [1, 2, 3, 4];
    let mut rng = seeded_rng(seed.as_slice());
    proof {
        lemma_sizes(level_params.base_size);
    }
    let mut cannon = obj_factory.make_cannon(((GRID_WIDTH / 2) as i32, (GRID_HEIGHT / 2) as i32));
    let ghost made = cannon;
    if level_params.test {
        cannon.3 = Some(TEST_HEALTH);
    }
    level_data.push(cannon);

    let mut curr_y: u32 = 0;
    let ghost mut rows: nat = 0;
    while curr_y < GRID_HEIGHT
        invariant
            can_generate(*old(obj_factory), *level_params),
            obj_factory.base_size == old(obj_factory).base_size,
            base_size == level_params.base_size,
            sparsity == level_params.sparsity,
            wall_pc == level_params.wall_pc,
            baddie_speed == level_params.baddie_speed,
            start == old(obj_factory).ids.last,
            rows <= curr_y,
            rows <= GRID_HEIGHT,
            curr_y == rows * level_params.base_size,
            level_data@.len() >= 1 + rows,
            curr_y < GRID_HEIGHT + 100000,
            obj_factory.ids.last == start + level_data@.len(),
            1 <= level_data@.len() <= 1 + rows * MAX_PER_ROW,
            level_data@[0] == (made.0, made.1, made.2, Some(cannon_health(level_params.test))),
            forall|i: int|
                1 <= i < level_data@.len() ==> is_generated(
                    #[trigger] level_data@[i],
                    *level_params,
                ),
            forall|i: int|
                0 <= i < spins@.len() ==> -MAX_SPIN <= (#[trigger] spins@[i]).1 <= MAX_SPIN,
        decreases GRID_HEIGHT + 100000 - curr_y,
    {
        let y_inc = base_size as u32;
        curr_y += y_inc;
        let mut curr_x: u32 = 0;
        let ghost mut in_row: nat = 0;
        let ghost before_row = level_data@.len();
        proof {
            assert((rows + 1) * level_params.base_size == rows * level_params.base_size
                + level_params.base_size) by (nonlinear_arith);
            assert(rows * MAX_PER_ROW + MAX_PER_ROW == (rows + 1) * MAX_PER_ROW)
                by (nonlinear_arith);
            assert((rows + 1) * MAX_PER_ROW <= 10000 * 10000) by (nonlinear_arith)
                requires
                    rows + 1 <= 10000,
                    MAX_PER_ROW == 10000,
            ;
        }
        while curr_x < GRID_WIDTH
            invariant
                can_generate(*old(obj_factory), *level_params),
                obj_factory.base_size == old(obj_factory).base_size,
                base_size == level_params.base_size,
                sparsity == level_params.sparsity,
                wall_pc == level_params.wall_pc,
                baddie_speed == level_params.baddie_speed,
                start == old(obj_factory).ids.last,
                0 < curr_y < GRID_HEIGHT + level_params.base_size,
                in_row <= curr_x,
                in_row <= MAX_PER_ROW,
                curr_x > 0 ==> in_row > 0,
                curr_y == (rows + 1) * level_params.base_size,
                before_row >= 1 + rows,
                curr_x < GRID_WIDTH + 100000 * 1000,
                rows < GRID_HEIGHT,
                1 <= before_row <= 1 + rows * MAX_PER_ROW,
                (rows + 1) * MAX_PER_ROW <= 10000 * 10000,
                rows * MAX_PER_ROW + MAX_PER_ROW == (rows + 1) * MAX_PER_ROW,
                level_data@.len() == before_row + in_row,
                obj_factory.ids.last == start + level_data@.len(),
                level_data@[0] == (made.0, made.1, made.2, Some(cannon_health(level_params.test))),
                forall|i: int|
                    1 <= i < level_data@.len() ==> is_generated(
                        #[trigger] level_data@[i],
                        *level_params,
                    ),
                forall|i: int|
                    0 <= i < spins@.len() ==> -MAX_SPIN <= (#[trigger] spins@[i]).1 <= MAX_SPIN,
            decreases GRID_WIDTH + 100000 * 1000 - curr_x,
        {
            assert(base_size * sparsity <= 100000 * 1000) by (nonlinear_arith)
                requires
                    0 <= base_size <= 100000,
                    0 <= sparsity <= 1000,
            ;
            assert(base_size / 2 <= base_size * sparsity) by (nonlinear_arith)
                requires
                    0 <= base_size,
                    1 <= sparsity,
            ;
            let x_inc = next_random(&mut rng, base_size / 2, base_size * sparsity);
            curr_x += x_inc as u32;
            let roll = next_random(&mut rng, 0, 100);
            let draw = if roll < wall_pc as i32 {
                Draw { position: (curr_x as i32, curr_y as i32), roll, vel: (0, 0), spin: 0 }
            } else {
                let vx = next_random(&mut rng, -baddie_speed, baddie_speed);
                let vy = next_random(&mut rng, -baddie_speed, baddie_speed);
                let spin = next_random(&mut rng, -MAX_SPIN, MAX_SPIN);
                Draw { position: (curr_x as i32, curr_y as i32), roll, vel: (vx, vy), spin }
            };
            proof {
                lemma_sizes(level_params.base_size);
            }
            let ghost factory = *obj_factory;
            let (object, spin) = place(obj_factory, &draw, wall_pc);
            proof {
                assert(base_size * sparsity == level_params.base_size * level_params.sparsity);
                assert(is_drawn(draw, *level_params));
                assert(is_generated(object, *level_params)) by {
                    assert(is_placed(object, draw, factory, level_params.wall_pc));
                }
            }
            if let Some(spin) = spin {
                spins.push((object.0.get_id().0, spin));
            }
            level_data.push(object);
            proof {
                in_row = in_row + 1;
            }
        }
        proof {
            rows = rows + 1;
        }
    }
    proof {
        assert(is_generated_level(level_data@, *old(obj_factory), *level_params));
        assert((level_data@.len() - 1) * level_params.base_size >= GRID_HEIGHT)
            by (nonlinear_arith)
            requires
                level_data@.len() - 1 >= rows,
                rows * level_params.base_size >= GRID_HEIGHT,
                level_params.base_size >= 0,
        ;
    }
    let world = create_world(level_data);
    Generated { world, spins }
}

/// The draw lies in the ranges of the parameters: the roll is one of a
/// hundred and one, the position is beyond the origin and no further than
/// one step outside the arena, the speed is within the level's, and the
/// spin within `MAX_SPIN`.
pub open spec fn is_drawn(draw: Draw, params: LevelParams) -> bool {
    &&& 0 <= draw.roll <= 100
    &&& 0 < draw.position.0 < GRID_WIDTH + params.base_size * params.sparsity
    &&& 0 < draw.position.1 < GRID_HEIGHT + params.base_size
    &&& -params.baddie_speed <= draw.vel.0 <= params.baddie_speed
    &&& -params.baddie_speed <= draw.vel.1 <= params.baddie_speed
    &&& -MAX_SPIN <= draw.spin <= MAX_SPIN
}

/// `object` is what `place` makes of the draw with this factory.
pub open spec fn is_placed(
    object: GameObject,
    draw: Draw,
    factory: ObjectFactory,
    wall_pc: u32,
) -> bool {
    if is_wall_roll(draw.roll, wall_pc) {
        factory.makes(object, EntityKind::Wall, WALL_SIZE, draw.position, (0, 0), None)
    } else {
        factory.makes(object, EntityKind::Baddie, BADDIE_SIZE, draw.position, draw.vel, None)
    }
}

/// `object` is what `place` makes of some draw in the ranges of the
/// parameters, with some factory of the level's base size.
pub open spec fn is_generated(object: GameObject, params: LevelParams) -> bool {
    exists|draw: Draw, factory: ObjectFactory|
        {
            &&& is_drawn(draw, params)
            &&& factory.base_size == params.base_size
            &&& #[trigger] is_placed(object, draw, factory, params.wall_pc)
        }
}

/// `objects` are those of a generated level: first the cannon that the
/// factory makes in the middle of the arena, with the health of the level's
/// cannon, and then objects generated to the parameters.
pub open spec fn is_generated_level(
    objects: Seq<GameObject>,
    factory: ObjectFactory,
    params: LevelParams,
) -> bool {
    &&& objects.len() >= 1
    &&& factory.makes(
        (objects[0].0, objects[0].1, objects[0].2, Some(PLAYER_HEALTH_MAX)),
        EntityKind::Cannon,
        CANNON_SIZE,
        ((GRID_WIDTH / 2) as i32, (GRID_HEIGHT / 2) as i32),
        (0, 0),
        Some(PLAYER_HEALTH_MAX),
    )
    &&& objects[0].3 == Some(cannon_health(params.test))
    &&& forall|i: int| 1 <= i < objects.len() ==> is_generated(#[trigger] objects[i], params)
}

/// For a base size of at least 5, every kind of object has a size.
proof fn lemma_sizes(base_size: u32)
    requires
        5 <= base_size <= 100000,
    ensures
        0 < spec_calc_size(base_size, WALL_SIZE) <= 100000,
        0 < spec_calc_size(base_size, BADDIE_SIZE) <= 100000,
        0 < spec_calc_size(base_size, CANNON_SIZE) <= 100000,
{
}

/// How many objects the level laid out by hand has.
pub const FIXED_LEVEL_OBJECTS: usize = 11;

/// The spin of every baddie of the level laid out by hand, in hundredths
/// of a radian per second.
pub const FIXED_LEVEL_SPIN: i32 = 50;

/// The objects of the level laid out by hand, in order: kind, position and
/// velocity of each.
pub open spec fn fixed_level_object(i: int) -> (EntityKind, P, Vector) {
    if i == 0 {
        (EntityKind::Cannon, ((GRID_WIDTH / 2) as i32, (GRID_HEIGHT / 2) as i32), (0i32, 0i32))
    } else if i == 1 {
        (EntityKind::Wall, (2500i32, 2500i32), (0i32, 0i32))
    } else if i == 2 {
        (EntityKind::Wall, (7500i32, 2500i32), (0i32, 0i32))
    } else if i == 3 {
        (EntityKind::Wall, (7500i32, 7500i32), (0i32, 0i32))
    } else if i == 4 {
        (EntityKind::Wall, (2500i32, 7500i32), (0i32, 0i32))
    } else if i == 5 {
        (EntityKind::Baddie, (1000i32, 1000i32), (100i32, 200i32))
    } else if i == 6 {
        (EntityKind::Baddie, (4000i32, 2000i32), ((-200) as i32, 100i32))
    } else if i == 7 {
        (EntityKind::Baddie, (6000i32, 500i32), (200i32, 75i32))
    } else if i == 8 {
        (EntityKind::Baddie, (2000i32, 6000i32), (100i32, (-200) as i32))
    } else if i == 9 {
        (EntityKind::Baddie, (1500i32, 9000i32), (200i32, 0i32))
    } else {
        (EntityKind::Baddie, (6500i32, 7500i32), (50i32, (-200) as i32))
    }
}

/// The size of an object of the kind, in hundredths of the base size.
pub open spec fn size_of_kind(kind: EntityKind) -> u32 {
    match kind {
        EntityKind::Cannon => CANNON_SIZE,
        EntityKind::Wall => WALL_SIZE,
        EntityKind::Baddie => BADDIE_SIZE,
        _ => crate::world::BULLET_SIZE,
    }
}

/// The health that an object of the kind is made with.
pub open spec fn health_of_kind(kind: EntityKind) -> Option<Health> {
    if kind == EntityKind::Cannon {
        Some(PLAYER_HEALTH_MAX)
    } else {
        None
    }
}

/// `objects` are those of the level laid out by hand, as a factory of the
/// base size makes them one after the other when it has handed out `start`
/// identifiers before.
pub open spec fn is_fixed_level(objects: Seq<GameObject>, base_size: u32, start: u32) -> bool {
    &&& objects.len() == FIXED_LEVEL_OBJECTS
    &&& forall|i: int|
        0 <= i < objects.len() ==> (ObjectFactory {
            base_size,
            ids: IdGenerator { last: (start + i) as u32 },
        }).makes(
            #[trigger] objects[i],
            fixed_level_object(i).0,
            size_of_kind(fixed_level_object(i).0),
            fixed_level_object(i).1,
            fixed_level_object(i).2,
            health_of_kind(fixed_level_object(i).0),
        )
}

/// Hardcoded alternative first level.
pub fn build_level0(obj_factory: &mut ObjectFactory) -> (level: Generated)
    requires
        5 <= old(obj_factory).base_size <= 100000,
        old(obj_factory).ids.last <= 1000,
    ensures
        level.world@.wf(),
        final(obj_factory).base_size == old(obj_factory).base_size,
        final(obj_factory).ids.last == old(obj_factory).ids.last + FIXED_LEVEL_OBJECTS,
        exists|objects: Seq<GameObject>|
            {
                &&& #[trigger] WorldView::empty().with_objects(objects) == level.world@
                &&& is_fixed_level(objects, old(obj_factory).base_size, old(obj_factory).ids.last)
            },
        level.spins@.len() == 6,
        forall|i: int|
            0 <= i < 6 ==> #[trigger] level.spins@[i] == (
                (old(obj_factory).ids.last + 6 + i) as u32,
                FIXED_LEVEL_SPIN,
            ),
{
    proof {
        lemma_sizes(obj_factory.base_size);
    }
    let cannon = obj_factory.make_cannon(((GRID_WIDTH / 2) as i32, (GRID_HEIGHT / 2) as i32));
    let wall1 = obj_factory.make_wall((2500, 2500));
    let wall2 = obj_factory.make_wall((7500, 2500));
    let wall3 = obj_factory.make_wall((7500, 7500));
    let wall4 = obj_factory.make_wall((2500, 7500));
    let baddie1 = obj_factory.make_baddie((1000, 1000), (100, 200));
    let baddie2 = obj_factory.make_baddie((4000, 2000), (-200, 100));
    let baddie3 = obj_factory.make_baddie((6000, 500), (200, 75));
    let baddie4 = obj_factory.make_baddie((2000, 6000), (100, -200));
    let baddie5 = obj_factory.make_baddie((1500, 9000), (200, 0));
    let baddie6 = obj_factory.make_baddie((6500, 7500), (50, -200));
    let mut spins: Vec<(u32, i32)> = Vec::new();
    spins.push((baddie1.0.get_id().0, FIXED_LEVEL_SPIN));
    spins.push((baddie2.0.get_id().0, FIXED_LEVEL_SPIN));
    spins.push((baddie3.0.get_id().0, FIXED_LEVEL_SPIN));
    spins.push((baddie4.0.get_id().0, FIXED_LEVEL_SPIN));
    spins.push((baddie5.0.get_id().0, FIXED_LEVEL_SPIN));
    spins.push((baddie6.0.get_id().0, FIXED_LEVEL_SPIN));
    let mut level_data: Vec<GameObject> = Vec::new();
    level_data.push(cannon);
    level_data.push(wall1);
    level_data.push(wall2);
    level_data.push(wall3);
    level_data.push(wall4);
    level_data.push(baddie1);
    level_data.push(baddie2);
    level_data.push(baddie3);
    level_data.push(baddie4);
    level_data.push(baddie5);
    level_data.push(baddie6);
    let ghost objects = level_data@;
    proof {
        assert(is_fixed_level(objects, old(obj_factory).base_size, old(obj_factory).ids.last));
    }
    let world = create_world(level_data);
    Generated { world, spins }
}

/// The level's world, with the spins of its baddies, and the factory that
/// made its objects and makes those that come later. The level laid out by
/// hand has the parameters of the first level.
pub fn init(level: i32) -> (made: (Generated, ObjectFactory))
    ensures
        made.0.world@.wf(),
        made.1.base_size == spec_level_params(level as int).base_size,
        exists|objects: Seq<GameObject>|
            {
                &&& #[trigger] WorldView::empty().with_objects(objects) == made.0.world@
                &&& objects.len() == made.1.ids.last
                &&& if level == FIXED_LEVEL {
                    is_fixed_level(objects, made.1.base_size, 0)
                } else {
                    is_generated_level(
                        objects,
                        ObjectFactory { base_size: made.1.base_size, ids: IdGenerator { last: 0 } },
                        spec_level_params(level as int),
                    )
                }
            },
{
    let level_params = level_params(level);
    let mut obj_factory = ObjectFactory::new(level_params.base_size);
    let world = if level == FIXED_LEVEL {
        build_level0(&mut obj_factory)
    } else {
        build_level(&mut obj_factory, &level_params)
    };
    (world, obj_factory)
}

} // verus!
