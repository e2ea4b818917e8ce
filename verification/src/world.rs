//! The arena and the entity store.

use crate::spatial_hash::GeomMap;
use crate::entity::{Entity, EntityId, EntityKind, IdGenerator};
use crate::geometry::{fits_i32, scale, Geometry, Vector, Vertex, P};
use crate::helpers::{lemma_take_one_more, map_keys};
use crate::shape::Shape;
use std::collections::HashMap;
use vstd::prelude::*;
use vstd::std_specs::hash::spec_hash_map_iter;
use vstd::std_specs::iter::IteratorSpec;

verus! {

broadcast use vstd::std_specs::hash::group_hash_axioms;

/// Width of the arena, in world units.
pub const GRID_WIDTH: u32 = 10000;

/// Height of the arena, in world units.
pub const GRID_HEIGHT: u32 = 10000;

pub const PLAYER_HEALTH_MAX: i32 = 3;

pub type Health = i32;

/// Aggregate of an entity and its data.
pub type GameObject = (Entity, Shape, Geometry, Option<Health>);

/// The entities of the world, by identifier.
pub type Entities = HashMap<u32, Entity>;

pub type Shapes = HashMap<u32, Shape>;

pub type Geometries = HashMap<u32, Geometry>;

pub type Healths = HashMap<u32, Health>;

/// Aggregate of the world's data, each component under the identifier of
/// the entity it belongs to.
pub struct World {
    pub entities: Entities,
    pub shapes: Shapes,
    pub geometries: Geometries,
    pub healths: Healths,
}

pub type GameObjects = World;

/// The world as four maps.
#[verifier::ext_equal]
pub ghost struct WorldView {
    pub entities: Map<u32, Entity>,
    pub shapes: Map<u32, Shape>,
    pub geometries: Map<u32, Geometry>,
    pub healths: Map<u32, Health>,
}

impl View for World {
    type V = WorldView;

    open spec fn view(&self) -> WorldView {
        WorldView {
            entities: self.entities@,
            shapes: self.shapes@,
            geometries: self.geometries@,
            healths: self.healths@,
        }
    }
}

impl WorldView {
    /// Every entity stands under its own identifier and has a shape and a
    /// geometry, and nothing else has a shape, a geometry or a health.
    pub open spec fn wf(self) -> bool {
        &&& forall|id: u32|
            self.entities.contains_key(id) ==> (#[trigger] self.entities[id]).id.0 == id
        &&& self.shapes.dom() == self.entities.dom()
        &&& self.geometries.dom() == self.entities.dom()
        &&& self.healths.dom().subset_of(self.entities.dom())
    }

    pub open spec fn empty() -> WorldView {
        WorldView {
            entities: Map::empty(),
            shapes: Map::empty(),
            geometries: Map::empty(),
            healths: Map::empty(),
        }
    }

    /// The world with the object added. An entity that is there already
    /// stays as it is; its shape and geometry are replaced, and its health
    /// where the object has one.
    pub open spec fn with_object(self, object: GameObject) -> WorldView {
        let id = object.0.id.0;
        WorldView {
            entities: if self.entities.contains_key(id) {
                self.entities
            } else {
                self.entities.insert(id, object.0)
            },
            shapes: self.shapes.insert(id, object.1),
            geometries: self.geometries.insert(id, object.2),
            healths: match object.3 {
                Some(health) => self.healths.insert(id, health),
                None => self.healths,
            },
        }
    }

    /// The world with the objects added, in order.
    pub open spec fn with_objects(self, objects: Seq<GameObject>) -> WorldView
        decreases objects.len(),
    {
        if objects.len() == 0 {
            self
        } else {
            self.with_objects(objects.drop_last()).with_object(objects.last())
        }
    }

    /// The world without the entity of that identifier and all its data.
    pub open spec fn without(self, id: u32) -> WorldView {
        WorldView {
            entities: self.entities.remove(id),
            shapes: self.shapes.remove(id),
            geometries: self.geometries.remove(id),
            healths: self.healths.remove(id),
        }
    }

    /// The world without the entities of those identifiers, taken out in
    /// order.
    pub open spec fn without_all(self, ids: Seq<u32>) -> WorldView
        decreases ids.len(),
    {
        if ids.len() == 0 {
            self
        } else {
            self.without_all(ids.drop_last()).without(ids.last())
        }
    }

    /// The world without the entities of those identifiers and all their
    /// data.
    pub open spec fn without_set(self, ids: Set<u32>) -> WorldView {
        WorldView {
            entities: self.entities.remove_keys(ids),
            shapes: self.shapes.remove_keys(ids),
            geometries: self.geometries.remove_keys(ids),
            healths: self.healths.remove_keys(ids),
        }
    }

    /// There is an entity of that kind.
    pub open spec fn has_kind(self, kind: EntityKind) -> bool {
        exists|id: u32|
            self.entities.contains_key(id) && (#[trigger] self.entities[id]).kind == kind
    }
}

/// Adding an object keeps a well-formed world well-formed.
pub proof fn lemma_with_object_wf(world: WorldView, object: GameObject)
    requires
        world.wf(),
    ensures
        world.with_object(object).wf(),
{
    let id = object.0.id.0;
    let next = world.with_object(object);
    assert(next.entities.dom() =~= world.entities.dom().insert(id));
    assert(next.shapes.dom() =~= next.entities.dom());
    assert(next.geometries.dom() =~= next.entities.dom());
}

/// Removing an entity keeps a well-formed world well-formed.
pub proof fn lemma_without_wf(world: WorldView, id: u32)
    requires
        world.wf(),
    ensures
        world.without(id).wf(),
{
    let next = world.without(id);
    assert(next.shapes.dom() =~= next.entities.dom());
    assert(next.geometries.dom() =~= next.entities.dom());
}

/// Taking entities out one after the other leaves the world without all
/// of them, whatever the order.
pub proof fn lemma_without_all_is_without_set(world: WorldView, ids: Seq<u32>)
    ensures
        world.without_all(ids) == world.without_set(ids.to_set()),
    decreases ids.len(),
{
    if ids.len() == 0 {
        assert(ids.to_set() =~= Set::<u32>::empty());
        assert(world.without_all(ids) =~= world.without_set(ids.to_set()));
    } else {
        let rest = ids.drop_last();
        lemma_without_all_is_without_set(world, rest);
        assert(rest =~= ids.take(ids.len() - 1));
        lemma_take_one_more(ids, ids.len() - 1);
        assert(ids.take(ids.len() as int) =~= ids);
        assert(world.without_all(ids) =~= world.without_set(ids.to_set()));
    }
}

impl World {
    /// A world with nothing in it.
    pub fn new() -> (world: Self)
        ensures
            world@ == WorldView::empty(),
            world@.wf(),
    {
        let world = World {
            entities: Entities::new(),
            shapes: Shapes::new(),
            geometries: Geometries::new(),
            healths: Healths::new(),
        };
        assert(world@.shapes.dom() =~= world@.entities.dom());
        assert(world@.geometries.dom() =~= world@.entities.dom());
        world
    }
}

/// Adds the provided game object to the world.
pub fn add(game_objects: &mut GameObjects, game_obj: GameObject)
    ensures
        final(game_objects)@ == old(game_objects)@.with_object(game_obj),
        old(game_objects)@.wf() ==> final(game_objects)@.wf(),
{
    let (entity, shape, geometry, health) = game_obj;
    let id = entity.get_id().0;
    if !game_objects.entities.contains_key(&id) {
        game_objects.entities.insert(id, entity);
    }
    game_objects.shapes.insert(id, shape);
    game_objects.geometries.insert(id, geometry);
    if let Some(health) = health {
        game_objects.healths.insert(id, health);
    }
    proof {
        if old(game_objects)@.wf() {
            lemma_with_object_wf(old(game_objects)@, game_obj);
        }
    }
}

pub fn create_world(level_data: Vec<GameObject>) -> (world: World)
    ensures
        world@ == WorldView::empty().with_objects(level_data@),
        world@.wf(),
{
    let mut world = World::new();
    let mut level_data = level_data;
    let ghost given = level_data@;
    let mut rest: Vec<GameObject> = Vec::new();
    // Objects are taken from the end; turning the list round first keeps
    // the order in which they go into the world.
    while level_data.len() > 0
        invariant
            level_data@.len() + rest@.len() == given.len(),
            forall|i: int| 0 <= i < level_data@.len() ==> level_data@[i] == given[i],
            forall|i: int| 0 <= i < rest@.len() ==> rest@[i] == given[given.len() - 1 - i],
        decreases level_data@.len(),
    {
        let object = level_data.pop().unwrap();
        rest.push(object);
    }
    proof {
        assert(given.take(0) =~= Seq::<GameObject>::empty());
    }
    while rest.len() > 0
        invariant
            rest@.len() <= given.len(),
            forall|i: int| 0 <= i < rest@.len() ==> rest@[i] == given[given.len() - 1 - i],
            world@ == WorldView::empty().with_objects(given.take(given.len() - rest@.len())),
            world@.wf(),
        decreases rest@.len(),
    {
        let ghost done = given.len() - rest@.len();
        let object = rest.pop().unwrap();
        proof {
            assert(object == given[done]);
            assert(given.take(done + 1).drop_last() =~= given.take(done));
        }
        self::add(&mut world, object);
    }
    proof {
        assert(given.take(given.len() as int) =~= given);
    }
    world
}

/// Removes the given entity from the world.
pub fn remove(game_objects: &mut GameObjects, id: EntityId)
    ensures
        final(game_objects)@ == old(game_objects)@.without(id.0),
        old(game_objects)@.wf() ==> final(game_objects)@.wf(),
{
    game_objects.geometries.remove(&id.0);
    game_objects.shapes.remove(&id.0);
    game_objects.healths.remove(&id.0);
    game_objects.entities.remove(&id.0);
    proof {
        if old(game_objects)@.wf() {
            lemma_without_wf(old(game_objects)@, id.0);
        }
    }
}

/// Removes the entities of the given identifiers from the world.
pub fn remove_all(game_objects: &mut GameObjects, ids: &Vec<u32>)
    ensures
        final(game_objects)@ == old(game_objects)@.without_set(ids@.to_set()),
        old(game_objects)@.wf() ==> final(game_objects)@.wf(),
{
    let mut i: usize = 0;
    proof {
        assert(ids@.take(0) =~= Seq::<u32>::empty());
    }
    while i < ids.len()
        invariant
            i <= ids@.len(),
            game_objects@ == old(game_objects)@.without_all(ids@.take(i as int)),
            old(game_objects)@.wf() ==> game_objects@.wf(),
        decreases ids@.len() - i,
    {
        proof {
            assert(ids@.take(i + 1).drop_last() =~= ids@.take(i as int));
        }
        remove(game_objects, EntityId(ids[i]));
        i += 1;
    }
    proof {
        assert(ids@.take(ids@.len() as int) =~= ids@);
        lemma_without_all_is_without_set(old(game_objects)@, ids@);
    }
}

pub fn get_entity(entities: &Entities, id: EntityId) -> (entity: &Entity)
    requires
        entities@.contains_key(id.0),
    ensures
        *entity == entities@[id.0],
{
    entities.get(&id.0).unwrap()
}

/// Finds an entity of the given kind, if there is one.
pub fn find_kind<'a>(entities: &'a Entities, kind: &EntityKind) -> (found: Option<&'a Entity>)
    ensures
        match found {
            Some(entity) => entity.kind == *kind && exists|id: u32|
                entities@.contains_key(id) && #[trigger] entities@[id] == *entity,
            None => forall|id: u32|
                entities@.contains_key(id) ==> (#[trigger] entities@[id]).kind != *kind,
        },
{
    for entry in it: entities.iter()
        invariant
            it.seq() == spec_hash_map_iter(entities).remaining(),
            forall|i: int| 0 <= i < it.index() ==> (*it.seq()[i].1).kind != *kind,
    {
        proof {
            let walked = spec_hash_map_iter(entities).remaining();
            let i = it.index();
            assert(entry == walked[i]);
            assert(entities@.contains_key(*walked[i].0));
            assert(entities@[*walked[i].0] == *walked[i].1);
        }
        if *entry.1.get_kind() == *kind {
            return Some(entry.1);
        }
    }
    proof {
        let walked = spec_hash_map_iter(entities).remaining();
        assert forall|id: u32| entities@.contains_key(id) implies (#[trigger] entities@[id]).kind
            != *kind by {
            assert(walked.contains((&id, &entities@[id])));
            let i = choose|i: int| 0 <= i < walked.len() && walked[i] == (&id, &entities@[id]);
            assert((*walked[i].1).kind != *kind);
        }
    }
    None
}

/// Gets the cannon: an entity of that kind, if there is one.
pub fn get_cannon(game_objects: &GameObjects) -> (cannon: Option<&Entity>)
    ensures
        match cannon {
            Some(entity) => entity.kind == EntityKind::Cannon && exists|id: u32|
                game_objects@.entities.contains_key(id) && #[trigger] game_objects@.entities[id]
                    == *entity,
            None => !game_objects@.has_kind(EntityKind::Cannon),
        },
{
    let cannon = find_kind(&game_objects.entities, &EntityKind::Cannon);
    proof {
        assert(game_objects@.entities == game_objects.entities@);
        if let Some(entity) = cannon {
            let id = choose|id: u32|
                game_objects.entities@.contains_key(id) && #[trigger] game_objects.entities@[id]
                    == *entity;
            assert(game_objects@.entities.contains_key(id) && game_objects@.entities[id]
                == *entity);
        }
    }
    cannon
}

/// The geometries of the entities of one kind.
pub open spec fn geometries_of_kind(
    entities: Map<u32, Entity>,
    geometries: Map<u32, Geometry>,
    kind: EntityKind,
) -> Map<u32, Geometry> {
    Map::new(
        |id: u32| geometries.contains_key(id) && entities[id].kind == kind,
        |id: u32| geometries[id],
    )
}

/// Separates the geometry collection by entity kind: walls, baddies,
/// bullets and cannons, in that order.
pub fn destructure_geom(entities: &Entities, geometries: &Geometries) -> (kinds: (
    GeomMap,
    GeomMap,
    GeomMap,
    GeomMap,
))
    requires
        geometries@.dom().subset_of(entities@.dom()),
    ensures
        kinds.0@ == geometries_of_kind(entities@, geometries@, EntityKind::Wall),
        kinds.1@ == geometries_of_kind(entities@, geometries@, EntityKind::Baddie),
        kinds.2@ == geometries_of_kind(entities@, geometries@, EntityKind::Bullet),
        kinds.3@ == geometries_of_kind(entities@, geometries@, EntityKind::Cannon),
{
    let mut wall_geoms = GeomMap::new();
    let mut baddie_geoms = GeomMap::new();
    let mut bullet_geoms = GeomMap::new();
    let mut cannon_geoms = GeomMap::new();
    let ids = map_keys(geometries);
    let mut i: usize = 0;
    proof {
        assert(ids@.take(0).to_set() =~= Set::<u32>::empty());
        let none = geometries@.restrict(ids@.take(0).to_set());
        assert(wall_geoms@ =~= geometries_of_kind(entities@, none, EntityKind::Wall));
        assert(baddie_geoms@ =~= geometries_of_kind(entities@, none, EntityKind::Baddie));
        assert(bullet_geoms@ =~= geometries_of_kind(entities@, none, EntityKind::Bullet));
        assert(cannon_geoms@ =~= geometries_of_kind(entities@, none, EntityKind::Cannon));
    }
    while i < ids.len()
        invariant
            i <= ids@.len(),
            ids@.to_set() == geometries@.dom(),
            geometries@.dom().subset_of(entities@.dom()),
            wall_geoms@ == geometries_of_kind(
                entities@,
                geometries@.restrict(ids@.take(i as int).to_set()),
                EntityKind::Wall,
            ),
            baddie_geoms@ == geometries_of_kind(
                entities@,
                geometries@.restrict(ids@.take(i as int).to_set()),
                EntityKind::Baddie,
            ),
            bullet_geoms@ == geometries_of_kind(
                entities@,
                geometries@.restrict(ids@.take(i as int).to_set()),
                EntityKind::Bullet,
            ),
            cannon_geoms@ == geometries_of_kind(
                entities@,
                geometries@.restrict(ids@.take(i as int).to_set()),
                EntityKind::Cannon,
            ),
        decreases ids@.len() - i,
    {
        let entity_id = ids[i];
        proof {
            assert(ids@.to_set().contains(entity_id));
            lemma_take_one_more(ids@, i as int);
        }
        let geom = *geometries.get(&entity_id).unwrap();
        let e = get_entity(entities, EntityId(entity_id));
        let ghost done = geometries@.restrict(ids@.take(i as int).to_set());
        let ghost next = geometries@.restrict(ids@.take(i + 1).to_set());
        match e.get_kind() {
            EntityKind::Wall => {
                wall_geoms.insert(entity_id, geom);
            },
            EntityKind::Baddie => {
                baddie_geoms.insert(entity_id, geom);
            },
            EntityKind::Bullet => {
                bullet_geoms.insert(entity_id, geom);
            },
            EntityKind::Cannon => {
                cannon_geoms.insert(entity_id, geom);
            },
            _ => (),
        }
        proof {
            assert(next =~= done.insert(entity_id, geom));
            assert(wall_geoms@ =~= geometries_of_kind(entities@, next, EntityKind::Wall));
            assert(baddie_geoms@ =~= geometries_of_kind(entities@, next, EntityKind::Baddie));
            assert(bullet_geoms@ =~= geometries_of_kind(entities@, next, EntityKind::Bullet));
            assert(cannon_geoms@ =~= geometries_of_kind(entities@, next, EntityKind::Cannon));
        }
        i += 1;
    }
    proof {
        assert(ids@.take(ids@.len() as int) =~= ids@);
        assert(geometries@.restrict(geometries@.dom()) =~= geometries@);
    }
    (wall_geoms, baddie_geoms, bullet_geoms, cannon_geoms)
}

/// Half the side of a box of the given size, rounded down.
pub open spec fn half_side(size: u32) -> int {
    size as int / 2
}

/// The corners of the upright box of the given size about `center`, going
/// round from the corner of least x and y, and that corner again at the end.
pub open spec fn box_corners(center: P, size: u32) -> Seq<(int, int)> {
    let d = half_side(size);
    seq![
        (center.0 - d, center.1 - d),
        (center.0 + d, center.1 - d),
        (center.0 + d, center.1 + d),
        (center.0 - d, center.1 + d),
        (center.0 - d, center.1 - d),
    ]
}

/// The corners of the box fit in an `i32`.
pub open spec fn box_fits(center: P, size: u32) -> bool {
    let d = half_side(size);
    &&& fits_i32(center.0 - d)
    &&& fits_i32(center.0 + d)
    &&& fits_i32(center.1 - d)
    &&& fits_i32(center.1 + d)
}

/// `geometry` is the upright box of the given size about `center`.
pub open spec fn is_box_of(geometry: Geometry, center: P, size: u32) -> bool {
    geometry@.map_values(|v: Vertex| (v.0 as int, v.1 as int)) == box_corners(center, size)
}

/// Updates box geometry according to its state: the upright box of the
/// shape's size about its centre.
pub fn update_geometry(box_geometry: &mut Geometry, box_state: &Shape)
    requires
        box_fits(box_state.center, box_state.size),
    ensures
        is_box_of(*final(box_geometry), box_state.center, box_state.size),
{
    let (cx, cy) = *box_state.get_center();
    let delta = (*box_state.get_size() / 2) as i32;
    // The first vertex is repeated to close the shape.
    *box_geometry = [
        (cx - delta, cy - delta),
        (cx + delta, cy - delta),
        (cx + delta, cy + delta),
        (cx - delta, cy + delta),
        (cx - delta, cy - delta),
    ];
    proof {
        assert(box_geometry@.map_values(|v: Vertex| (v.0 as int, v.1 as int)) =~= box_corners(
            box_state.center,
            box_state.size,
        ));
    }
}

/// Builds the box geometry, given its initial state.
pub fn build_box_geometry(box_state: &Shape) -> (geometry: Geometry)
    requires
        box_fits(box_state.center, box_state.size),
    ensures
        is_box_of(geometry, box_state.center, box_state.size),
{
    let mut vertices: Geometry = [(0, 0), (0, 0), (0, 0), (0, 0), (0, 0)];
    update_geometry(&mut vertices, box_state);
    vertices
}

/// Size of a baddie, in hundredths of the base size.
pub const BADDIE_SIZE: u32 = 75;

/// Size of a wall, in hundredths of the base size.
pub const WALL_SIZE: u32 = 100;

/// Size of a bullet, in hundredths of the base size.
pub const BULLET_SIZE: u32 = 10;

/// Size of a cannon, in hundredths of the base size.
pub const CANNON_SIZE: u32 = 20;

/// Speed of a bullet, in units per second.
pub const BULLET_SPEED: i32 = 1000;

/// The size of an object that is `hundredths` hundredths of the base size,
/// rounded down.
pub open spec fn spec_calc_size(base_size: u32, hundredths: u32) -> int {
    base_size * hundredths / 100
}

/// Factory for creating the various kinds of game objects. It gives each
/// object it makes an identifier of its own.
pub struct ObjectFactory {
    pub base_size: u32,
    pub ids: IdGenerator,
}

impl ObjectFactory {
    /// Creates a new `ObjectFactory` with the given base size.
    pub fn new(base_size: u32) -> (factory: Self)
        ensures
            factory.base_size == base_size,
            factory.ids.last == 0,
    {
        ObjectFactory { base_size, ids: IdGenerator::new() }
    }

    /// The factory can make an object of the given relative size about
    /// `center`: there is an identifier left, the object has a size, and
    /// its box fits.
    pub open spec fn can_make(&self, hundredths: u32, center: P) -> bool {
        let size = spec_calc_size(self.base_size, hundredths);
        &&& self.ids.last < u32::MAX
        &&& 0 < size <= u32::MAX
        &&& box_fits(center, size as u32)
    }

    /// `object` is what the factory makes next of the given kind and
    /// relative size about `center`, with the velocity and health given:
    /// its identifier is one more than the last, its shape has never moved,
    /// and its geometry is the upright box of its shape.
    pub open spec fn makes(
        &self,
        object: GameObject,
        kind: EntityKind,
        hundredths: u32,
        center: P,
        vel: Vector,
        health: Option<Health>,
    ) -> bool {
        let size = spec_calc_size(self.base_size, hundredths) as u32;
        &&& object.0.kind == kind
        &&& object.0.id.0 == self.ids.last + 1
        &&& object.1.center == center
        &&& object.1.center_prev == center
        &&& object.1.size == size
        &&& object.1.vel == vel
        &&& is_box_of(object.2, center, size)
        &&& object.3 == health
    }

    /// Creates a cannon.
    pub fn make_cannon(&mut self, center: P) -> (object: GameObject)
        requires
            old(self).can_make(CANNON_SIZE, center),
        ensures
            old(self).makes(
                object,
                EntityKind::Cannon,
                CANNON_SIZE,
                center,
                (0, 0),
                Some(PLAYER_HEALTH_MAX),
            ),
            final(self).base_size == old(self).base_size,
            final(self).ids.last == old(self).ids.last + 1,
    {
        let shape = Shape::new(center, self.calc_size(CANNON_SIZE), (0, 0));
        let geom = build_box_geometry(&shape);
        (Entity::new(EntityKind::Cannon, &mut self.ids), shape, geom, Some(PLAYER_HEALTH_MAX))
    }

    /// Creates a bullet that flies in the given direction.
    pub fn make_bullet(&mut self, center: P, direction: Vector) -> (object: GameObject)
        requires
            old(self).can_make(BULLET_SIZE, center),
            fits_i32(BULLET_SPEED * direction.0),
            fits_i32(BULLET_SPEED * direction.1),
        ensures
            old(self).makes(
                object,
                EntityKind::Bullet,
                BULLET_SIZE,
                center,
                ((BULLET_SPEED * direction.0) as i32, (BULLET_SPEED * direction.1) as i32),
                None,
            ),
            final(self).base_size == old(self).base_size,
            final(self).ids.last == old(self).ids.last + 1,
    {
        let shape = Shape::new(
            center,
            self.calc_size(BULLET_SIZE),
            scale(direction, BULLET_SPEED),
        );
        let geom = build_box_geometry(&shape);
        (Entity::new(EntityKind::Bullet, &mut self.ids), shape, geom, None)
    }

    pub fn make_baddie(&mut self, start: P, vel: Vector) -> (object: GameObject)
        requires
            old(self).can_make(BADDIE_SIZE, start),
        ensures
            old(self).makes(object, EntityKind::Baddie, BADDIE_SIZE, start, vel, None),
            final(self).base_size == old(self).base_size,
            final(self).ids.last == old(self).ids.last + 1,
    {
        let shape = Shape::new(start, self.calc_size(BADDIE_SIZE), vel);
        let geom = build_box_geometry(&shape);
        (Entity::new(EntityKind::Baddie, &mut self.ids), shape, geom, None)
    }

    pub fn make_wall(&mut self, center: P) -> (object: GameObject)
        requires
            old(self).can_make(WALL_SIZE, center),
        ensures
            old(self).makes(object, EntityKind::Wall, WALL_SIZE, center, (0, 0), None),
            final(self).base_size == old(self).base_size,
            final(self).ids.last == old(self).ids.last + 1,
    {
        let shape = Shape::new(center, self.calc_size(WALL_SIZE), (0, 0));
        let geom = build_box_geometry(&shape);
        (Entity::new(EntityKind::Wall, &mut self.ids), shape, geom, None)
    }

    /// The size of an object that is `hundredths` hundredths of the base
    /// size.
    pub fn calc_size(&self, hundredths: u32) -> (size: u32)
        requires
            spec_calc_size(self.base_size, hundredths) <= u32::MAX,
        ensures
            size == spec_calc_size(self.base_size, hundredths),
    {
        ((self.base_size as u64) * (hundredths as u64) / 100) as u32
    }
}

} // verus!
