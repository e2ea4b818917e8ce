//! # Game logic
//! What happens in a frame. The rules on collisions are applied here:
//! * All enemies destroyed => level ends
//! * Player health decreases to 0 => Game Over
//!
//! Other rules:
//! * Bullets are destroyed when they reach edge of screen
//! * Enemies wrap to the other side of the screen
//! * Player health reset at start of level

use crate::bin_size::{all_sizable, is_bin_size_of};
use crate::collision_system::{CollisionKind, CollisionSystem};
use crate::detection::{all_testable, collisions_between};
use crate::handler::{calls_within, dispatched, told_all, CollisionHandler};
use crate::rules::{
    is_left_of, lefts, lemma_bounce_keeps, lemma_destroy_both_collects, lemma_destroy_collects,
    lemma_wound_collects, reversible, rights, Bounce, Destroy, DestroyBoth, Wound,
};
use crate::spatial_hash::{spec_calc_bin_count, trunc_div};
use crate::entity::{Entity, EntityId, EntityKind};
use crate::geometry::{
    direction_vector, fits_i32, is_closed, side_len_fits, spec_direction_vector, within_sat_limit,
    Direction, Geometry, Vector, Vertex, P, SAT_COORD_MAX,
};
use crate::helpers::{lemma_take_one_more, map_keys, set_members};
use crate::shape::{Shape, MOVEMENT_SPEED};
use crate::world::{
    GameObject, ObjectFactory, BULLET_SIZE, BULLET_SPEED,
    box_corners, box_fits, destructure_geom, find_kind, geometries_of_kind, get_cannon, half_side,
    is_box_of, remove_all, update_geometry, Entities, GameObjects, Geometries,
    Health, Healths, Shapes, World, WorldView, GRID_HEIGHT, GRID_WIDTH,
};
use std::collections::HashSet;
use vstd::prelude::*;

verus! {

broadcast use vstd::std_specs::hash::group_hash_axioms;

/// Where a coordinate comes to when it moves by `amt` along an axis that
/// wraps round at `bound`: what leaves at one end comes in at the other.
pub open spec fn spec_move_with_wrap(start: int, amt: int, bound: int) -> int {
    if start + amt < 0 {
        bound + amt + start
    } else if start + amt < bound {
        start + amt
    } else {
        start + amt - bound
    }
}

pub fn move_with_wrap(start: i32, amt: i32, bound: i32) -> (end: i32)
    requires
        fits_i32(start + amt),
        fits_i32(spec_move_with_wrap(start as int, amt as int, bound as int)),
    ensures
        end == spec_move_with_wrap(start as int, amt as int, bound as int),
{
    if start + amt < 0 {
        // amt is negative here, or start is
        bound + (amt + start)
    } else if start + amt < bound {
        start + amt
    } else {
        start + amt - bound
    }
}

/// A coordinate that starts between 0 and `bound` and moves by no more than
/// `bound` either way ends between 0 and `bound`.
pub proof fn lemma_move_with_wrap_stays(start: int, amt: int, bound: int)
    requires
        0 <= start <= bound,
        -bound <= amt <= bound,
    ensures
        0 <= spec_move_with_wrap(start, amt, bound) <= bound,
{
}

/// The distance covered in `dt` milliseconds at `vel` units per second,
/// rounded toward zero.
pub open spec fn spec_step(vel: int, dt: int) -> int {
    trunc_div(vel * dt, 1000)
}

/// The centre of a shape after `dt` milliseconds.
pub open spec fn spec_new_center(shape: Shape, dt: int, wrap: bool) -> (int, int) {
    let step_x = spec_step(shape.vel.0 as int, dt);
    let step_y = spec_step(shape.vel.1 as int, dt);
    if wrap {
        (
            spec_move_with_wrap(shape.center.0 as int, step_x, GRID_WIDTH as int),
            spec_move_with_wrap(shape.center.1 as int, step_y, GRID_HEIGHT as int),
        )
    } else {
        (shape.center.0 + step_x, shape.center.1 + step_y)
    }
}

/// Every value computed for the shape's move fits in an `i32`.
pub open spec fn can_move(shape: Shape, dt: int, wrap: bool) -> bool {
    &&& fits_i32(shape.vel.0 * dt)
    &&& fits_i32(shape.vel.1 * dt)
    &&& fits_i32(shape.center.0 + spec_step(shape.vel.0 as int, dt))
    &&& fits_i32(shape.center.1 + spec_step(shape.vel.1 as int, dt))
    &&& fits_i32(spec_new_center(shape, dt, wrap).0)
    &&& fits_i32(spec_new_center(shape, dt, wrap).1)
}

/// The shape after `dt` milliseconds: moved, and remembering where it was.
pub open spec fn spec_moved(shape: Shape, dt: int, wrap: bool) -> Shape {
    Shape {
        center: (
            spec_new_center(shape, dt, wrap).0 as i32,
            spec_new_center(shape, dt, wrap).1 as i32,
        ),
        center_prev: shape.center,
        size: shape.size,
        vel: shape.vel,
    }
}

/// Calculate new box spatial state.
/// `dt`: frame time, in ms
pub fn update_pos(box_state: &mut Shape, dt: i32, wrap: bool)
    requires
        can_move(*old(box_state), dt as int, wrap),
    ensures
        *final(box_state) == spec_moved(*old(box_state), dt as int, wrap),
{
    let (cx, cy) = *box_state.get_center();
    let (vx, vy) = *box_state.get_vel();

    // Steps are whole units: on a small grid slow objects do not move.
    let step_x = vx * dt / 1000;
    let step_y = vy * dt / 1000;

    let new_center = if wrap {
        (
            move_with_wrap(cx, step_x, GRID_WIDTH as i32),
            move_with_wrap(cy, step_y, GRID_HEIGHT as i32),
        )
    } else {
        (cx + step_x, cy + step_y)
    };
    box_state.set_center(new_center);
}

/// Inside the world is right of and below the origin, up to and including
/// the far edges.
pub open spec fn spec_is_inside_world(point: P) -> bool {
    (point.0 > 0 && point.0 <= GRID_WIDTH) && (point.1 > 0 && point.1 <= GRID_HEIGHT)
}

pub fn is_inside_world(point: P) -> (inside: bool)
    ensures
        inside == spec_is_inside_world(point),
{
    let (x, y) = point;
    (x > 0 && x <= GRID_WIDTH as i32) && (y > 0 && y <= GRID_HEIGHT as i32)
}

/// Whether an entity of the kind comes in at the other side when it leaves
/// the arena.
pub open spec fn wraps(kind: EntityKind) -> bool {
    kind == EntityKind::Baddie || kind == EntityKind::Cannon
}

/// Whether an entity of the kind moves at all.
pub open spec fn moves(kind: EntityKind) -> bool {
    kind != EntityKind::UNDEFINED
}

/// The shapes after `dt` milliseconds: the shape of every entity that moves
/// has moved, baddies and cannons wrapping round.
pub open spec fn moved_shapes(
    entities: Map<u32, Entity>,
    shapes: Map<u32, Shape>,
    dt: int,
) -> Map<u32, Shape> {
    Map::new(
        |id: u32| shapes.contains_key(id),
        |id: u32|
            if entities.contains_key(id) && moves(entities[id].kind) {
                spec_moved(shapes[id], dt, wraps(entities[id].kind))
            } else {
                shapes[id]
            },
    )
}

/// Every entity has a shape, and the shape of each that moves can move.
pub open spec fn all_can_move(
    entities: Map<u32, Entity>,
    shapes: Map<u32, Shape>,
    dt: int,
) -> bool {
    forall|id: u32| #[trigger]
        entities.contains_key(id) ==> shapes.contains_key(id) && (moves(entities[id].kind)
            ==> can_move(shapes[id], dt, wraps(entities[id].kind)))
}

pub fn update_positions(entities: &Entities, shapes: &mut Shapes, dt: i32)
    requires
        all_can_move(entities@, old(shapes)@, dt as int),
    ensures
        final(shapes)@ == moved_shapes(entities@, old(shapes)@, dt as int),
{
    let ids = map_keys(entities);
    let mut i: usize = 0;
    proof {
        assert(ids@.take(0).to_set() =~= Set::<u32>::empty());
        assert(shapes@ =~= moved_shapes(
            entities@.restrict(ids@.take(0).to_set()),
            old(shapes)@,
            dt as int,
        ));
    }
    while i < ids.len()
        invariant
            i <= ids@.len(),
            ids@.no_duplicates(),
            ids@.to_set() == entities@.dom(),
            all_can_move(entities@, old(shapes)@, dt as int),
            shapes@ == moved_shapes(
                entities@.restrict(ids@.take(i as int).to_set()),
                old(shapes)@,
                dt as int,
            ),
        decreases ids@.len() - i,
    {
        let id = ids[i];
        proof {
            assert(ids@.to_set().contains(id));
            assert(entities@.contains_key(id));
            lemma_take_one_more(ids@, i as int);
            assert(!ids@.take(i as int).to_set().contains(id)) by {
                if ids@.take(i as int).to_set().contains(id) {
                    let w = choose|w: int| 0 <= w < i && ids@.take(i as int)[w] == id;
                    assert(ids@[w] == ids@[i as int]);
                }
            }
        }
        let entity = entities.get(&id).unwrap();
        let ghost before = shapes@;
        let mut shape = shapes.remove(&id).unwrap();
        match entity.get_kind() {
            EntityKind::Baddie => update_pos(&mut shape, dt, true),
            EntityKind::Cannon => update_pos(&mut shape, dt, true),
            EntityKind::Bullet => update_pos(&mut shape, dt, false),
            EntityKind::Wall => update_pos(&mut shape, dt, false),
            _ => (),
        }
        shapes.insert(id, shape);
        proof {
            assert(shapes@ =~= moved_shapes(
                entities@.restrict(ids@.take(i + 1).to_set()),
                old(shapes)@,
                dt as int,
            ));
        }
        i += 1;
    }
    proof {
        assert(ids@.take(ids@.len() as int) =~= ids@);
        assert(entities@.restrict(entities@.dom()) =~= entities@);
    }
}

/// `geometries` are `before` with the geometry of every shape brought up to
/// date: each is the upright box of its shape.
pub open spec fn geometries_updated(
    shapes: Map<u32, Shape>,
    before: Map<u32, Geometry>,
    geometries: Map<u32, Geometry>,
) -> bool {
    &&& geometries.dom() == before.dom()
    &&& forall|id: u32| #[trigger]
        geometries.contains_key(id) ==> if shapes.contains_key(id) {
            is_box_of(geometries[id], shapes[id].center, shapes[id].size)
        } else {
            geometries[id] == before[id]
        }
}

/// Every shape has a geometry, and a box that fits.
pub open spec fn all_boxes_fit(shapes: Map<u32, Shape>, geometries: Map<u32, Geometry>) -> bool {
    forall|id: u32| #[trigger]
        shapes.contains_key(id) ==> geometries.contains_key(id) && box_fits(
            shapes[id].center,
            shapes[id].size,
        )
}

pub fn update_geometries(shapes: &Shapes, geometries: &mut Geometries)
    requires
        all_boxes_fit(shapes@, old(geometries)@),
    ensures
        geometries_updated(shapes@, old(geometries)@, final(geometries)@),
{
    let ids = map_keys(shapes);
    let mut i: usize = 0;
    proof {
        assert(ids@.take(0).to_set() =~= Set::<u32>::empty());
    }
    while i < ids.len()
        invariant
            i <= ids@.len(),
            ids@.to_set() == shapes@.dom(),
            all_boxes_fit(shapes@, old(geometries)@),
            geometries_updated(
                shapes@.restrict(ids@.take(i as int).to_set()),
                old(geometries)@,
                geometries@,
            ),
        decreases ids@.len() - i,
    {
        let id = ids[i];
        proof {
            assert(ids@.to_set().contains(id));
            assert(shapes@.contains_key(id));
            lemma_take_one_more(ids@, i as int);
        }
        let shape = shapes.get(&id).unwrap();
        let mut geometry = geometries.remove(&id).unwrap();
        update_geometry(&mut geometry, shape);
        geometries.insert(id, geometry);
        proof {
            assert(geometries@.dom() =~= old(geometries)@.dom());
        }
        i += 1;
    }
    proof {
        assert(ids@.take(ids@.len() as int) =~= ids@);
        assert(shapes@.restrict(shapes@.dom()) =~= shapes@);
    }
}

/// The kind of the left entity of a pair of the given kind.
pub open spec fn left_kind(kind: CollisionKind) -> EntityKind {
    match kind {
        CollisionKind::BaddieWall => EntityKind::Baddie,
        CollisionKind::BulletWall => EntityKind::Bullet,
        CollisionKind::BulletBaddie => EntityKind::Bullet,
        CollisionKind::BaddieCannon => EntityKind::Baddie,
    }
}

/// The kind of the right entity of a pair of the given kind.
pub open spec fn right_kind(kind: CollisionKind) -> EntityKind {
    match kind {
        CollisionKind::BaddieWall => EntityKind::Wall,
        CollisionKind::BulletWall => EntityKind::Wall,
        CollisionKind::BulletBaddie => EntityKind::Baddie,
        CollisionKind::BaddieCannon => EntityKind::Cannon,
    }
}

/// The colliding pairs of the given kind among the entities, for spatial
/// maps of the given bin size.
pub open spec fn hits(
    entities: Map<u32, Entity>,
    geometries: Map<u32, Geometry>,
    kind: CollisionKind,
    bin_size: int,
) -> Set<(EntityId, EntityId)> {
    collisions_between(
        geometries_of_kind(entities, geometries, left_kind(kind)),
        geometries_of_kind(entities, geometries, right_kind(kind)),
        bin_size,
    )
}

/// The geometry is fit for collision handling: it belongs to entities, the
/// narrow-phase test accepts all of it, and its sizes can be taken.
pub open spec fn collidable(entities: Map<u32, Entity>, geometries: Map<u32, Geometry>) -> bool {
    &&& geometries.dom().subset_of(entities.dom())
    &&& all_testable(geometries)
    &&& all_sizable(geometries)
}

/// The rules can be applied: every baddie that has a geometry has a shape
/// that can be reversed, and every cannon that has one has a health.
pub open spec fn can_handle(
    entities: Map<u32, Entity>,
    shapes: Map<u32, Shape>,
    geometries: Map<u32, Geometry>,
    healths: Map<u32, Health>,
) -> bool {
    &&& forall|id: u32|
        geometries.contains_key(id) && (#[trigger] entities[id]).kind == EntityKind::Baddie
            ==> shapes.contains_key(id) && reversible(shapes[id])
    &&& forall|id: u32|
        geometries.contains_key(id) && (#[trigger] entities[id]).kind == EntityKind::Cannon
            ==> healths.contains_key(id)
}

/// The rules have been applied to the collisions among the entities: for
/// one of the bin sizes that the geometry allows, each baddie has bounced
/// once for each wall it hit, each cannon was wounded once for each baddie
/// that hit it, and `removed` are the bullets that hit a wall, the bullets
/// and baddies that hit one another, and the baddies that hit a cannon.
pub open spec fn collisions_handled(
    entities: Map<u32, Entity>,
    geometries: Map<u32, Geometry>,
    shapes_before: Map<u32, Shape>,
    healths_before: Map<u32, Health>,
    shapes: Map<u32, Shape>,
    healths: Map<u32, Health>,
    removed: Set<u32>,
) -> bool {
    exists|bin_size: int|
        {
            &&& #[trigger] is_bin_size_of(
                bin_size,
                geometries_of_kind(entities, geometries, EntityKind::Wall),
                geometries_of_kind(entities, geometries, EntityKind::Baddie),
                geometries_of_kind(entities, geometries, EntityKind::Bullet),
                geometries_of_kind(entities, geometries, EntityKind::Cannon),
            )
            &&& dispatched::<Bounce>(
                shapes_before,
                shapes,
                hits(entities, geometries, CollisionKind::BaddieWall, bin_size),
            )
            &&& dispatched::<Wound>(
                (Set::<u32>::empty(), healths_before),
                (lefts(hits(entities, geometries, CollisionKind::BaddieCannon, bin_size)), healths),
                hits(entities, geometries, CollisionKind::BaddieCannon, bin_size),
            )
            &&& removed == lefts(
                hits(entities, geometries, CollisionKind::BulletWall, bin_size),
            ).union(lefts(hits(entities, geometries, CollisionKind::BulletBaddie, bin_size))).union(
                rights(hits(entities, geometries, CollisionKind::BulletBaddie, bin_size)),
            ).union(lefts(hits(entities, geometries, CollisionKind::BaddieCannon, bin_size)))
        }
}

/// Adds every member of `from` to `into`.
fn add_all(into: &mut HashSet<u32>, from: &HashSet<u32>)
    ensures
        final(into)@ == old(into)@.union(from@),
{
    let members = set_members(from);
    let mut i: usize = 0;
    proof {
        assert(members@.take(0).to_set() =~= Set::<u32>::empty());
        assert(into@.union(members@.take(0).to_set()) =~= into@);
    }
    while i < members.len()
        invariant
            i <= members@.len(),
            into@ == old(into)@.union(members@.take(i as int).to_set()),
        decreases members@.len() - i,
    {
        into.insert(members[i]);
        proof {
            lemma_take_one_more(members@, i as int);
            assert(into@ =~= old(into)@.union(members@.take(i + 1).to_set()));
        }
        i += 1;
    }
    proof {
        assert(members@.take(members@.len() as int) =~= members@);
    }
}

/// Detects the collisions among the entities and applies the rules to
/// them. Gives the entities to remove.
pub fn detect_and_handle_collisions(
    entities: &Entities,
    shapes: &mut Shapes,
    geometries: &Geometries,
    healths: &mut Healths,
) -> (to_remove: HashSet<u32>)
    requires
        collidable(entities@, geometries@),
        can_handle(entities@, old(shapes)@, geometries@, old(healths)@),
    ensures
        collisions_handled(
            entities@,
            geometries@,
            old(shapes)@,
            old(healths)@,
            final(shapes)@,
            final(healths)@,
            to_remove@,
        ),
{
    let (wall_geoms, baddie_geoms, bullet_geoms, cannon_geoms) = destructure_geom(
        entities,
        geometries,
    );
    let mut held_shapes = Shapes::new();
    std::mem::swap(shapes, &mut held_shapes);
    let mut held_healths = Healths::new();
    std::mem::swap(healths, &mut held_healths);

    proof {
        CollisionSystem::<Bounce, Destroy, DestroyBoth, Wound>::lemma_can_build_within_limit(
            wall_geoms@,
            baddie_geoms@,
            bullet_geoms@,
            cannon_geoms@,
        );
    }
    let mut collision_system = CollisionSystem::new(
        &wall_geoms,
        &baddie_geoms,
        &bullet_geoms,
        &cannon_geoms,
        Bounce { shapes: held_shapes },
        Destroy { to_remove: HashSet::new() },
        DestroyBoth { to_remove: HashSet::new() },
        Wound { to_remove: HashSet::new(), healths: held_healths },
    );
    let ghost size = collision_system.grid_bin_size as int;
    let ghost count = spec_calc_bin_count(size);
    let ghost sides = collision_system.sides(
        wall_geoms@,
        baddie_geoms@,
        bullet_geoms@,
        cannon_geoms@,
    );
    let ghost baddie_wall = hits(entities@, geometries@, CollisionKind::BaddieWall, size);
    let ghost bullet_wall = hits(entities@, geometries@, CollisionKind::BulletWall, size);
    let ghost bullet_baddie = hits(entities@, geometries@, CollisionKind::BulletBaddie, size);
    let ghost baddie_cannon = hits(entities@, geometries@, CollisionKind::BaddieCannon, size);
    proof {
        collision_system.lemma_built_system_collisions(
            wall_geoms@,
            baddie_geoms@,
            bullet_geoms@,
            cannon_geoms@,
        );
        collision_system.lemma_built_system_ready(
            wall_geoms@,
            baddie_geoms@,
            bullet_geoms@,
            cannon_geoms@,
        );
        assert forall|calls: Seq<(EntityId, EntityId)>|
            #![trigger calls_within(calls, baddie_wall)]
            calls.len() > 0 && calls_within(calls, baddie_wall) implies Bounce::accepts(
            told_all::<Bounce>(old(shapes)@, calls.drop_last()),
            calls.last().0,
            calls.last().1,
        ) by {
            assert forall|k: int| 0 <= k < calls.len() implies old(shapes)@.contains_key(
                (#[trigger] calls[k]).0.0,
            ) by {
                assert(calls.to_set().contains(calls[k]));
                assert(baddie_wall.contains(calls[k]));
            }
            let rest = calls.drop_last();
            assert forall|k: int| 0 <= k < rest.len() implies old(shapes)@.contains_key(
                (#[trigger] rest[k]).0.0,
            ) by {
                assert(rest[k] == calls[k]);
            }
            lemma_bounce_keeps(old(shapes)@, rest);
            let last = calls[calls.len() - 1];
            assert(baddie_wall.contains(last));
            assert(entities@[last.0.0].kind == EntityKind::Baddie);
            assert(old(shapes)@.contains_key(last.0.0) && reversible(old(shapes)@[last.0.0]));
        }
        assert forall|calls: Seq<(EntityId, EntityId)>|
            #![trigger calls_within(calls, baddie_cannon)]
            calls.len() > 0 && calls_within(calls, baddie_cannon) implies Wound::accepts(
            told_all::<Wound>((Set::<u32>::empty(), old(healths)@), calls.drop_last()),
            calls.last().0,
            calls.last().1,
        ) by {
            assert forall|k: int| 0 <= k < calls.len() implies old(healths)@.contains_key(
                (#[trigger] calls[k]).1.0,
            ) by {
                assert(calls.to_set().contains(calls[k]));
                assert(baddie_cannon.contains(calls[k]));
            }
            let rest = calls.drop_last();
            assert forall|k: int| 0 <= k < rest.len() implies old(healths)@.contains_key(
                (#[trigger] rest[k]).1.0,
            ) by {
                assert(rest[k] == calls[k]);
            }
            lemma_wound_collects((Set::<u32>::empty(), old(healths)@), rest);
            assert(old(healths)@.contains_key(calls[calls.len() - 1].1.0));
        }
    }
    collision_system.process(&wall_geoms, &baddie_geoms, &bullet_geoms, &cannon_geoms);
    let (bounce, destroy, destroy_both, wound) = collision_system.into_handlers();
    proof {
        let calls = choose|calls: Seq<(EntityId, EntityId)>|
            calls.no_duplicates() && calls.to_set() == bullet_wall && destroy.to_remove@
                == #[trigger] told_all::<Destroy>(Set::<u32>::empty(), calls);
        lemma_destroy_collects(Set::<u32>::empty(), calls);
        let calls = choose|calls: Seq<(EntityId, EntityId)>|
            calls.no_duplicates() && calls.to_set() == bullet_baddie && destroy_both.to_remove@
                == #[trigger] told_all::<DestroyBoth>(Set::<u32>::empty(), calls);
        lemma_destroy_both_collects(Set::<u32>::empty(), calls);
        let calls = choose|calls: Seq<(EntityId, EntityId)>|
            calls.no_duplicates() && calls.to_set() == baddie_cannon && wound.state()
                == #[trigger] told_all::<Wound>((Set::<u32>::empty(), old(healths)@), calls);
        assert forall|k: int| 0 <= k < calls.len() implies old(healths)@.contains_key(
            (#[trigger] calls[k]).1.0,
        ) by {
            assert(calls.to_set().contains(calls[k]));
            assert(baddie_cannon.contains(calls[k]));
        }
        lemma_wound_collects((Set::<u32>::empty(), old(healths)@), calls);
    }
    // Union the removal lists
    let mut to_remove = destroy.to_remove;
    add_all(&mut to_remove, &destroy_both.to_remove);
    add_all(&mut to_remove, &wound.to_remove);
    *shapes = bounce.shapes;
    *healths = wound.healths;
    proof {
        assert(to_remove@ =~= lefts(bullet_wall).union(lefts(bullet_baddie)).union(
            rights(bullet_baddie),
        ).union(lefts(baddie_cannon)));
        assert(wound.state() == (lefts(baddie_cannon), healths@));
        assert(is_bin_size_of(
            size,
            geometries_of_kind(entities@, geometries@, EntityKind::Wall),
            geometries_of_kind(entities@, geometries@, EntityKind::Baddie),
            geometries_of_kind(entities@, geometries@, EntityKind::Bullet),
            geometries_of_kind(entities@, geometries@, EntityKind::Cannon),
        ));
    }
    to_remove
}

/// The bullets that have left the world.
pub open spec fn missed_bullets(world: WorldView) -> Set<u32> {
    Set::new(
        |id: u32|
            world.entities.contains_key(id) && world.entities[id].kind == EntityKind::Bullet
                && !spec_is_inside_world(world.shapes[id].center),
    )
}

/// Handle when bullets miss, that is reach the edge of the world without
/// hitting anything: remove them.
pub fn handle_bullet_misses(game_objects: &mut GameObjects)
    requires
        old(game_objects)@.wf(),
    ensures
        final(game_objects)@ == old(game_objects)@.without_set(missed_bullets(old(game_objects)@)),
        final(game_objects)@.wf(),
{
    let ids = map_keys(&game_objects.entities);
    let mut to_remove: Vec<u32> = Vec::new();
    let mut i: usize = 0;
    let ghost missed = missed_bullets(game_objects@);
    proof {
        assert(ids@.take(0).to_set() =~= Set::<u32>::empty());
        assert(to_remove@.to_set() =~= missed.intersect(ids@.take(0).to_set()));
    }
    while i < ids.len()
        invariant
            i <= ids@.len(),
            ids@.to_set() == game_objects@.entities.dom(),
            game_objects@.wf(),
            missed == missed_bullets(game_objects@),
            *game_objects == *old(game_objects),
            to_remove@.to_set() == missed.intersect(ids@.take(i as int).to_set()),
        decreases ids@.len() - i,
    {
        let id = ids[i];
        proof {
            assert(ids@.to_set().contains(id));
            assert(game_objects@.entities.contains_key(id));
            assert(game_objects@.shapes.dom().contains(id));
            lemma_take_one_more(ids@, i as int);
        }
        let ghost before = to_remove@;
        let entity = game_objects.entities.get(&id).unwrap();
        let mut gone = false;
        if *entity.get_kind() == EntityKind::Bullet {
            let shape = game_objects.shapes.get(&id).unwrap();
            if !is_inside_world(*shape.get_center()) {
                to_remove.push(id);
                gone = true;
            }
        }
        proof {
            if gone {
                assert(to_remove@ =~= before.push(id));
                assert(before.push(id).take(before.len() as int) =~= before);
                lemma_take_one_more(to_remove@, before.len() as int);
                assert(to_remove@.take(to_remove@.len() as int) =~= to_remove@);
            }
            assert(to_remove@.to_set() =~= missed.intersect(ids@.take(i + 1).to_set()));
        }
        i += 1;
    }
    proof {
        assert(ids@.take(ids@.len() as int) =~= ids@);
        assert(missed.intersect(ids@.to_set()) =~= missed);
    }
    remove_all(game_objects, &to_remove);
}

/// Every cannon has a health.
pub open spec fn cannons_have_health(world: WorldView) -> bool {
    forall|id: u32|
        world.entities.contains_key(id) && (#[trigger] world.entities[id]).kind
            == EntityKind::Cannon ==> world.healths.contains_key(id)
}

/// `health` is the health of a cannon of the world, or nothing where the
/// world has no cannon.
pub open spec fn is_player_health(world: WorldView, health: Option<Health>) -> bool {
    match health {
        Some(health) => exists|id: u32|
            world.entities.contains_key(id) && (#[trigger] world.entities[id]).kind
                == EntityKind::Cannon && world.healths.contains_key(id) && world.healths[id]
                == health,
        None => !world.has_kind(EntityKind::Cannon),
    }
}

/// Gets player health.
/// Optional as there may not be a player in the world.
pub fn player_health(game_objects: &GameObjects) -> (health: Option<i32>)
    requires
        game_objects@.wf(),
        cannons_have_health(game_objects@),
    ensures
        is_player_health(game_objects@, health),
{
    if let Some(cannon) = get_cannon(game_objects) {
        let cannon_id = cannon.get_id();
        proof {
            let id = choose|id: u32|
                game_objects@.entities.contains_key(id) && #[trigger] game_objects@.entities[id]
                    == *cannon;
            assert(id == cannon_id.0);
        }
        Some(*game_objects.healths.get(&cannon_id.0).unwrap())
    } else {
        None
    }
}

/// The level is complete when no baddie is left.
pub fn level_complete(world: &World) -> (complete: bool)
    ensures
        complete == !world@.has_kind(EntityKind::Baddie),
{
    let baddie = find_kind(&world.entities, &EntityKind::Baddie);
    proof {
        assert(world@.entities == world.entities@);
        if let Some(entity) = baddie {
            let id = choose|id: u32|
                world.entities@.contains_key(id) && #[trigger] world.entities@[id] == *entity;
            assert(world@.entities.contains_key(id) && world@.entities[id].kind
                == EntityKind::Baddie);
        }
    }
    baddie.is_none()
}

#[derive(Debug, Clone, Copy, PartialEq, Eq, Structural)]
pub enum LevelState {
    InProgress,
    Complete,
    GameOver,
}

/// The game is over when the player's health is zero; else the level is
/// complete when no baddie is left; else it is in progress.
pub open spec fn spec_level_state(player_health: Option<Health>, complete: bool) -> LevelState {
    if player_health == Some(0i32) {
        LevelState::GameOver
    } else if complete {
        LevelState::Complete
    } else {
        LevelState::InProgress
    }
}

pub fn level_state(player_health: Option<i32>, complete: bool) -> (state: LevelState)
    ensures
        state == spec_level_state(player_health, complete),
{
    let dead = match player_health {
        Some(health) => health == 0,
        None => false,
    };
    if dead {
        LevelState::GameOver
    } else if complete {
        LevelState::Complete
    } else {
        LevelState::InProgress
    }
}

/// The corners of the box lie within `SAT_COORD_MAX` of zero.
pub open spec fn box_in_limit(center: P, size: u32) -> bool {
    let d = half_side(size);
    &&& -SAT_COORD_MAX <= center.0 - d
    &&& center.0 + d <= SAT_COORD_MAX
    &&& -SAT_COORD_MAX <= center.1 - d
    &&& center.1 + d <= SAT_COORD_MAX
}

/// An upright box whose corners lie within the limit is a closed loop that
/// the narrow-phase test accepts, and its size can be taken.
pub proof fn lemma_box_collidable(geometry: Geometry, center: P, size: u32)
    requires
        is_box_of(geometry, center, size),
        box_in_limit(center, size),
    ensures
        is_closed(geometry@),
        within_sat_limit(geometry@),
        side_len_fits(geometry@),
{
    let corners = box_corners(center, size);
    let widened = geometry@.map_values(|v: Vertex| (v.0 as int, v.1 as int));
    assert(widened.len() == 5);
    assert forall|i: int| 0 <= i < 5 implies (geometry@[i].0 as int, geometry@[i].1 as int)
        == corners[i] by {
        assert(widened[i] == (geometry@[i].0 as int, geometry@[i].1 as int));
    }
    assert(corners[0] == corners[4]);
    assert(geometry@[0] == geometry@[4]);
    let d = half_side(size);
    assert(0 <= 2 * d <= 2 * SAT_COORD_MAX);
    assert((2 * d) * (2 * d) <= i32::MAX) by (nonlinear_arith)
        requires
            0 <= 2 * d <= 46340,
    ;
    assert(corners[1].0 - corners[0].0 == 2 * d);
    assert(corners[1].1 - corners[0].1 == 0);
}

/// The world after the first part of a frame: every shape has moved and
/// every geometry is brought up to date.
pub open spec fn positions_updated(before: WorldView, after: WorldView, dt: int) -> bool {
    &&& after.entities == before.entities
    &&& after.healths == before.healths
    &&& after.shapes == moved_shapes(before.entities, before.shapes, dt)
    &&& geometries_updated(after.shapes, before.geometries, after.geometries)
}

/// The same world with every geometry brought up to date.
pub open spec fn geometry_refreshed(before: WorldView, after: WorldView) -> bool {
    &&& after.entities == before.entities
    &&& after.healths == before.healths
    &&& after.shapes == before.shapes
    &&& geometries_updated(after.shapes, before.geometries, after.geometries)
}

/// The world after the rules were applied to its collisions, and the
/// entities that they remove.
pub open spec fn struck(before: WorldView, after: WorldView, removed: Set<u32>) -> bool {
    &&& after.entities == before.entities
    &&& after.geometries == before.geometries
    &&& collisions_handled(
        before.entities,
        before.geometries,
        before.shapes,
        before.healths,
        after.shapes,
        after.healths,
        removed,
    )
}

/// `state` is the state of the level in this world.
pub open spec fn is_state_of(world: WorldView, state: LevelState) -> bool {
    exists|health: Option<Health>| #[trigger]
        is_player_health(world, health) && state == spec_level_state(
            health,
            !world.has_kind(EntityKind::Baddie),
        )
}

/// One frame: the shapes move and the geometry follows; the bullets that
/// have left the world are removed; the rules are applied to the
/// collisions, and what they destroy is removed; the geometry follows
/// again; and the state of the level is found.
pub open spec fn is_frame(before: WorldView, after: WorldView, dt: int, state: LevelState) -> bool {
    exists|moved: WorldView, hit: WorldView, removed: Set<u32>|
        {
            &&& positions_updated(before, moved, dt)
            &&& #[trigger] struck(moved.without_set(missed_bullets(moved)), hit, removed)
            &&& geometry_refreshed(hit.without_set(removed), after)
            &&& is_state_of(after, state)
        }
}

/// The world can go through a frame of `dt` milliseconds: it is well
/// formed, every cannon has a health, every shape can move, and where it
/// moves to its box lies within the limit of the narrow-phase test; and
/// every baddie can be reversed, and its box fits where it is, which is
/// where it comes back to when it bounces.
pub open spec fn frame_ready(world: WorldView, dt: int) -> bool {
    &&& world.wf()
    &&& cannons_have_health(world)
    &&& all_can_move(world.entities, world.shapes, dt)
    &&& forall|id: u32| #[trigger]
        world.shapes.contains_key(id) ==> box_in_limit(
            moved_shapes(world.entities, world.shapes, dt)[id].center,
            world.shapes[id].size,
        )
    &&& forall|id: u32|
        world.entities.contains_key(id) && (#[trigger] world.entities[id]).kind
            == EntityKind::Baddie ==> reversible(world.shapes[id]) && box_fits(
            world.shapes[id].center,
            world.shapes[id].size,
        )
}

pub fn update_world(world: World, dt: i32) -> (updated: (World, LevelState))
    requires
        frame_ready(world@, dt as int),
    ensures
        is_frame(world@, updated.0@, dt as int, updated.1),
        updated.0@.wf(),
        cannons_have_health(updated.0@),
{
    let mut world = world;
    let ghost before = world@;

    // Update shape state
    update_positions(&world.entities, &mut world.shapes, dt);

    // Update geometry ready for collision detection
    proof {
        assert forall|id: u32| #[trigger]
            world@.shapes.contains_key(id) implies world@.geometries.contains_key(id)
            && box_fits(world@.shapes[id].center, world@.shapes[id].size) by {
            assert(before.shapes.contains_key(id));
            assert(before.geometries.dom().contains(id));
        }
    }
    update_geometries(&world.shapes, &mut world.geometries);
    let ghost moved = world@;
    proof {
        assert(moved.shapes.dom() =~= before.shapes.dom());
        assert(moved.wf());
        assert(positions_updated(before, moved, dt as int));
    }

    handle_bullet_misses(&mut world);
    let ghost cleared = world@;

    // Detect & handle collisions
    proof {
        assert forall|id: u32| cleared.geometries.contains_key(id) implies is_closed(
            (#[trigger] cleared.geometries[id])@,
        ) && within_sat_limit(cleared.geometries[id]@) && side_len_fits(
            cleared.geometries[id]@,
        ) by {
            assert(moved.geometries.contains_key(id));
            assert(moved.shapes.dom().contains(id));
            assert(before.shapes.contains_key(id));
            lemma_box_collidable(
                moved.geometries[id],
                moved.shapes[id].center,
                moved.shapes[id].size,
            );
        }
        assert forall|id: u32|
            cleared.geometries.contains_key(id) && (#[trigger] cleared.entities[id]).kind
                == EntityKind::Baddie implies cleared.shapes.contains_key(id) && reversible(
            cleared.shapes[id],
        ) by {
            assert(cleared.entities.dom().contains(id));
            assert(before.entities.contains_key(id));
            assert(before.shapes.dom().contains(id));
        }
        assert forall|id: u32|
            cleared.geometries.contains_key(id) && (#[trigger] cleared.entities[id]).kind
                == EntityKind::Cannon implies cleared.healths.contains_key(id) by {
            assert(cleared.entities.dom().contains(id));
            assert(before.entities.contains_key(id));
        }
    }
    let to_remove = detect_and_handle_collisions(
        &world.entities,
        &mut world.shapes,
        &world.geometries,
        &mut world.healths,
    );
    let ghost hit = world@;
    proof {
        assert(struck(cleared, hit, to_remove@));
    }
    let gone = set_members(&to_remove);
    remove_all(&mut world, &gone);
    let ghost left = world@;

    // 2nd pass of geometry update to reflect destroyed and backed-out
    // objects.
    proof {
        let bin_size = choose|bin_size: int|
            {
                &&& #[trigger] is_bin_size_of(
                    bin_size,
                    geometries_of_kind(cleared.entities, cleared.geometries, EntityKind::Wall),
                    geometries_of_kind(cleared.entities, cleared.geometries, EntityKind::Baddie),
                    geometries_of_kind(cleared.entities, cleared.geometries, EntityKind::Bullet),
                    geometries_of_kind(cleared.entities, cleared.geometries, EntityKind::Cannon),
                )
                &&& dispatched::<Bounce>(
                    cleared.shapes,
                    hit.shapes,
                    hits(
                        cleared.entities,
                        cleared.geometries,
                        CollisionKind::BaddieWall,
                        bin_size,
                    ),
                )
                &&& dispatched::<Wound>(
                    (Set::<u32>::empty(), cleared.healths),
                    (
                        lefts(
                            hits(
                                cleared.entities,
                                cleared.geometries,
                                CollisionKind::BaddieCannon,
                                bin_size,
                            ),
                        ),
                        hit.healths,
                    ),
                    hits(
                        cleared.entities,
                        cleared.geometries,
                        CollisionKind::BaddieCannon,
                        bin_size,
                    ),
                )
            };
        let baddie_wall = hits(
            cleared.entities,
            cleared.geometries,
            CollisionKind::BaddieWall,
            bin_size,
        );
        let baddie_cannon = hits(
            cleared.entities,
            cleared.geometries,
            CollisionKind::BaddieCannon,
            bin_size,
        );
        let bounces = choose|calls: Seq<(EntityId, EntityId)>|
            calls.no_duplicates() && calls.to_set() == baddie_wall && hit.shapes
                == #[trigger] told_all::<Bounce>(cleared.shapes, calls);
        assert forall|k: int| 0 <= k < bounces.len() implies cleared.shapes.contains_key(
            (#[trigger] bounces[k]).0.0,
        ) by {
            assert(bounces.to_set().contains(bounces[k]));
            assert(baddie_wall.contains(bounces[k]));
            assert(cleared.geometries.dom().contains(bounces[k].0.0));
        }
        lemma_bounce_keeps(cleared.shapes, bounces);
        let wounds = choose|calls: Seq<(EntityId, EntityId)>|
            calls.no_duplicates() && calls.to_set() == baddie_cannon && (
                lefts(baddie_cannon),
                hit.healths,
            ) == #[trigger] told_all::<Wound>((Set::<u32>::empty(), cleared.healths), calls);
        assert forall|k: int| 0 <= k < wounds.len() implies cleared.healths.contains_key(
            (#[trigger] wounds[k]).1.0,
        ) by {
            assert(wounds.to_set().contains(wounds[k]));
            assert(baddie_cannon.contains(wounds[k]));
            assert(cleared.entities.dom().contains(wounds[k].1.0));
            assert(before.entities.contains_key(wounds[k].1.0));
        }
        lemma_wound_collects((Set::<u32>::empty(), cleared.healths), wounds);
        assert(hit.shapes.dom() == cleared.shapes.dom());
        assert(hit.healths.dom() == cleared.healths.dom());
        assert(hit.wf());
        assert(left.wf());
        assert forall|id: u32| #[trigger]
            left.shapes.contains_key(id) implies left.geometries.contains_key(id) && box_fits(
            left.shapes[id].center,
            left.shapes[id].size,
        ) by {
            assert(cleared.shapes.contains_key(id));
            assert(before.shapes.contains_key(id));
            assert(left.geometries.dom().contains(id));
            if is_left_of(id, bounces) {
                let k = choose|k: int| 0 <= k < bounces.len() && (#[trigger] bounces[k]).0.0 == id;
                assert(bounces.to_set().contains(bounces[k]));
                assert(baddie_wall.contains(bounces[k]));
                assert(cleared.entities[id].kind == EntityKind::Baddie);
                assert(before.entities.contains_key(id));
            }
        }
    }
    update_geometries(&world.shapes, &mut world.geometries);
    proof {
        assert(world@.shapes.dom() =~= world@.entities.dom());
        assert(world@.geometries.dom() =~= world@.entities.dom());
        assert(geometry_refreshed(left, world@));
        assert(cannons_have_health(world@)) by {
            assert forall|id: u32|
                world@.entities.contains_key(id) && (#[trigger] world@.entities[id]).kind
                    == EntityKind::Cannon implies world@.healths.contains_key(id) by {
                assert(before.entities.contains_key(id));
                assert(cleared.healths.contains_key(id));
            }
        }
    }

    let health = player_health(&world);
    let complete = level_complete(&world);
    let state = level_state(health, complete);
    proof {
        assert(is_player_health(world@, health));
        assert(is_state_of(world@, state));
        assert(struck(moved.without_set(missed_bullets(moved)), hit, to_remove@));
    }
    (world, state)
}

/// The least time between two shots, in milliseconds: one over the rate
/// of fire.
pub const RELOAD_TIME: u64 = 1000;

/// The entity of that identifier is a cannon of the world.
pub open spec fn is_cannon(world: WorldView, id: u32) -> bool {
    world.entities.contains_key(id) && world.entities[id].kind == EntityKind::Cannon
}

/// Where the cannon is.
pub fn get_cannon_pos(game_objects: &GameObjects) -> (pos: &P)
    requires
        game_objects@.wf(),
        game_objects@.has_kind(EntityKind::Cannon),
    ensures
        exists|id: u32| #[trigger]
            is_cannon(game_objects@, id) && *pos == game_objects@.shapes[id].center,
{
    let cannon = get_cannon(game_objects).unwrap();
    let cannon_id = cannon.get_id();
    proof {
        let id = choose|id: u32|
            game_objects@.entities.contains_key(id) && #[trigger] game_objects@.entities[id]
                == *cannon;
        assert(id == cannon_id.0);
        assert(is_cannon(game_objects@, id));
        assert(game_objects@.shapes.dom().contains(id));
    }
    game_objects.shapes.get(&cannon_id.0).unwrap().get_center()
}

/// The velocity of a bullet fired in the given direction.
pub open spec fn bullet_velocity(direction: Direction) -> Vector {
    (
        (BULLET_SPEED * spec_direction_vector(direction).0) as i32,
        (BULLET_SPEED * spec_direction_vector(direction).1) as i32,
    )
}

/// Try fire the cannon, throttled to the rate of fire. Times are in
/// milliseconds. Returns the time of when the cannon was last fired
/// successfully: `now` where it fires, which it does when more than
/// `RELOAD_TIME` has passed since `prev`, else `prev`.
pub fn try_fire(
    now: u64,
    prev: u64,
    game_objects: &mut GameObjects,
    direction: Direction,
    obj_factory: &mut ObjectFactory,
) -> (fired: u64)
    requires
        prev + RELOAD_TIME <= u64::MAX,
        old(game_objects)@.wf(),
        old(game_objects)@.has_kind(EntityKind::Cannon),
        forall|id: u32| #[trigger]
            is_cannon(old(game_objects)@, id) ==> old(obj_factory).can_make(
                BULLET_SIZE,
                old(game_objects)@.shapes[id].center,
            ),
    ensures
        final(game_objects)@.wf(),
        final(obj_factory).base_size == old(obj_factory).base_size,
        if now > prev + RELOAD_TIME {
            &&& fired == now
            &&& final(obj_factory).ids.last == old(obj_factory).ids.last + 1
            &&& exists|id: u32, bullet: GameObject|
                {
                    &&& #[trigger] is_cannon(old(game_objects)@, id)
                    &&& #[trigger] old(obj_factory).makes(
                        bullet,
                        EntityKind::Bullet,
                        BULLET_SIZE,
                        old(game_objects)@.shapes[id].center,
                        bullet_velocity(direction),
                        None,
                    )
                    &&& final(game_objects)@ == old(game_objects)@.with_object(bullet)
                }
        } else {
            &&& fired == prev
            &&& final(game_objects)@ == old(game_objects)@
            &&& final(obj_factory).ids == old(obj_factory).ids
        },
{
    let cannon_pos = *get_cannon_pos(game_objects);

    if now > prev + RELOAD_TIME {
        // Fire!!
        let ghost id = choose|id: u32| #[trigger]
            is_cannon(game_objects@, id) && cannon_pos == game_objects@.shapes[id].center;
        let bullet = obj_factory.make_bullet(cannon_pos, direction_vector(direction));
        crate::world::add(game_objects, bullet);
        proof {
            assert(is_cannon(old(game_objects)@, id));
            assert(old(obj_factory).makes(
                bullet,
                EntityKind::Bullet,
                BULLET_SIZE,
                old(game_objects)@.shapes[id].center,
                bullet_velocity(direction),
                None,
            ));
        }
        return now;
    }
    return prev;
}

/// The shape set moving in the direction.
pub open spec fn set_moving(shape: Shape, direction: Direction) -> Shape {
    Shape {
        center: shape.center,
        center_prev: shape.center_prev,
        size: shape.size,
        vel: (
            (MOVEMENT_SPEED * spec_direction_vector(direction).0) as i32,
            (MOVEMENT_SPEED * spec_direction_vector(direction).1) as i32,
        ),
    }
}

/// Moves the cannon: sets it moving in the direction.
pub fn move_cannon(game_objects: &mut GameObjects, direction: Direction)
    requires
        old(game_objects)@.wf(),
        old(game_objects)@.has_kind(EntityKind::Cannon),
    ensures
        final(game_objects)@.wf(),
        final(game_objects)@.entities == old(game_objects)@.entities,
        final(game_objects)@.geometries == old(game_objects)@.geometries,
        final(game_objects)@.healths == old(game_objects)@.healths,
        exists|id: u32| #[trigger]
            is_cannon(old(game_objects)@, id) && final(game_objects)@.shapes == old(
                game_objects,
            )@.shapes.insert(id, set_moving(old(game_objects)@.shapes[id], direction)),
{
    let cannon_id = get_cannon(game_objects).unwrap().get_id();
    proof {
        let id = choose|id: u32|
            game_objects@.entities.contains_key(id) && (#[trigger] game_objects@.entities[id]).kind
                == EntityKind::Cannon && game_objects@.entities[id].id == cannon_id;
        assert(id == cannon_id.0);
        assert(is_cannon(game_objects@, id));
        assert(game_objects@.shapes.dom().contains(id));
    }
    let mut shape = game_objects.shapes.remove(&cannon_id.0).unwrap();
    shape.set_movement(direction);
    game_objects.shapes.insert(cannon_id.0, shape);
    proof {
        assert(shape == set_moving(old(game_objects)@.shapes[cannon_id.0], direction));
        assert(game_objects@.shapes =~= old(game_objects)@.shapes.insert(cannon_id.0, shape));
        assert(game_objects@.shapes.dom() =~= game_objects@.entities.dom());
        assert(is_cannon(old(game_objects)@, cannon_id.0));
    }
}

} // verus!
