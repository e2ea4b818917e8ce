//! Broad-phase spatial hash: the bins of a regular grid, and the map from
//! each bin to the entities whose geometry occupies it.

use crate::geometry::{fits_i32, within_sat_limit, Geometry, Vector, Vertex, SAT_COORD_MAX};
use crate::helpers::{lemma_take_one_more, map_keys, set_members};
use crate::world::{GRID_HEIGHT, GRID_WIDTH};
use std::collections::{HashMap, HashSet};
use vstd::prelude::*;

verus! {

broadcast use vstd::std_specs::hash::group_hash_axioms;

/// The bins that one geometry occupies.
pub type Bins = HashSet<i32>;

/// For each occupied bin, the identifiers of the entities whose geometry
/// occupies it.
pub type SpatialMap = HashMap<i32, HashSet<u32>>;

/// For each entity, by identifier, the bins it occupies.
pub type SpatialIndex = HashMap<u32, Bins>;

/// For each entity of one kind, by identifier, its geometry.
pub type GeomMap = HashMap<u32, Geometry>;

/// Integer division that rounds toward zero, for a positive divisor.
#[verifier::inline]
pub open spec fn trunc_div(a: int, b: int) -> int {
    if a >= 0 {
        a / b
    } else {
        -((-a) / b)
    }
}

/// How many bins of the given size lie side by side across the arena.
#[verifier::inline]
pub open spec fn spec_bins_per_row(bin_size: int) -> int {
    GRID_WIDTH as int / bin_size
}

/// The number of bins that `detect_collisions` walks: one more than fit
/// across the arena, times one more than fit down it.
pub open spec fn spec_calc_bin_count(bin_size: int) -> int {
    (GRID_WIDTH as int / bin_size + 1) * (GRID_HEIGHT as int / bin_size + 1)
}

/// The bin of a vertex: its column plus its row times the bins in a row.
/// A vertex on a bin boundary belongs to the bin that the division gives.
pub open spec fn spec_calc_bin(vertex: Vector, bin_size: int) -> int {
    trunc_div(vertex.0 as int, bin_size) + trunc_div(vertex.1 as int, bin_size) * spec_bins_per_row(
        bin_size,
    )
}

/// The row offset of the vertex's bin, and the bin itself, fit in an `i32`.
pub open spec fn bin_fits(vertex: Vector, bin_size: int) -> bool {
    &&& fits_i32(trunc_div(vertex.1 as int, bin_size) * spec_bins_per_row(bin_size))
    &&& fits_i32(spec_calc_bin(vertex, bin_size))
}

/// The bin of every vertex of the geometry fits in an `i32`.
pub open spec fn bins_fit(geometry: Seq<Vector>, bin_size: int) -> bool {
    forall|i: int| 0 <= i < geometry.len() ==> bin_fits(#[trigger] geometry[i], bin_size)
}

/// The bins that a geometry occupies: the bins of its vertices.
pub open spec fn geometry_bins(geometry: Seq<Vector>, bin_size: int) -> Set<i32> {
    Set::new(
        |bin: i32|
            exists|i: int|
                0 <= i < geometry.len() && #[trigger] spec_calc_bin(geometry[i], bin_size) == bin,
    )
}

/// The entities, among those of `geometries`, whose geometry occupies `bin`.
pub open spec fn occupants(geometries: Map<u32, Geometry>, bin_size: int, bin: i32) -> Set<u32> {
    Set::new(
        |id: u32|
            geometries.contains_key(id) && geometry_bins(geometries[id]@, bin_size).contains(bin),
    )
}

/// The entities that a spatial map lists for `bin`. A bin that the map does
/// not hold has none.
pub open spec fn bin_members(map: Map<i32, HashSet<u32>>, bin: i32) -> Set<u32> {
    if map.contains_key(bin) {
        map[bin]@
    } else {
        Set::empty()
    }
}

/// `map` is the spatial map of `geometries`: for every bin it lists exactly
/// the entities whose geometry occupies the bin, and it holds no empty bin.
pub open spec fn maps_geometries(
    map: Map<i32, HashSet<u32>>,
    geometries: Map<u32, Geometry>,
    bin_size: int,
) -> bool {
    forall|bin: i32|
        {
            &&& #[trigger] bin_members(map, bin) == occupants(geometries, bin_size, bin)
            &&& map.contains_key(bin) ==> exists|id: u32|
                occupants(geometries, bin_size, bin).contains(id)
        }
}

/// `index` is the spatial index of `geometries`: it lists, for exactly the
/// entities of `geometries`, the bins that the entity's geometry occupies.
pub open spec fn indexes_geometries(
    index: Map<u32, Bins>,
    geometries: Map<u32, Geometry>,
    bin_size: int,
) -> bool {
    &&& index.dom() == geometries.dom()
    &&& forall|id: u32|
        geometries.contains_key(id) ==> (#[trigger] index[id])@ == geometry_bins(
            geometries[id]@,
            bin_size,
        )
}

/// The bin of a vertex that lies in the arena is one of the bins that are
/// walked.
pub proof fn lemma_bin_in_range(vertex: Vector, bin_size: int)
    requires
        bin_size > 0,
        0 <= vertex.0 <= GRID_WIDTH,
        0 <= vertex.1 <= GRID_HEIGHT,
    ensures
        0 <= spec_calc_bin(vertex, bin_size) < spec_calc_bin_count(bin_size),
{
    let across = spec_bins_per_row(bin_size);
    let column = trunc_div(vertex.0 as int, bin_size);
    let row = trunc_div(vertex.1 as int, bin_size);
    assert(0 <= column <= across && 0 <= row <= across && 0 <= across) by (nonlinear_arith)
        requires
            bin_size > 0,
            0 <= vertex.0 <= 10000,
            0 <= vertex.1 <= 10000,
            across == 10000int / bin_size,
            column == (vertex.0 as int) / bin_size,
            row == (vertex.1 as int) / bin_size,
    ;
    assert(0 <= column + row * across < (across + 1) * (across + 1)) by (nonlinear_arith)
        requires
            0 <= column <= across,
            0 <= row <= across,
    ;
}

/// How many bins of the given size lie side by side across the arena.
pub fn bins_per_row(grid_bin_size: i32) -> (count: i32)
    requires
        grid_bin_size > 0,
    ensures
        count == spec_bins_per_row(grid_bin_size as int),
        0 <= count <= GRID_WIDTH,
{
    assert(GRID_WIDTH as int / grid_bin_size as int <= GRID_WIDTH) by (nonlinear_arith)
        requires
            grid_bin_size > 0,
    ;
    GRID_WIDTH as i32 / grid_bin_size
}

/// The number of bins to walk for the given bin size.
pub fn calc_bin_count(grid_bin_size: i32) -> (count: i32)
    requires
        grid_bin_size > 0,
    ensures
        count == spec_calc_bin_count(grid_bin_size as int),
        count > 0,
{
    assert(0 <= GRID_WIDTH as int / grid_bin_size as int <= GRID_WIDTH) by (nonlinear_arith)
        requires
            grid_bin_size > 0,
    ;
    assert(0 <= GRID_HEIGHT as int / grid_bin_size as int <= GRID_HEIGHT) by (nonlinear_arith)
        requires
            grid_bin_size > 0,
    ;
    let across: i32 = GRID_WIDTH as i32 / grid_bin_size + 1;
    let down: i32 = GRID_HEIGHT as i32 / grid_bin_size + 1;
    assert(0 < across * down <= 10001 * 10001) by (nonlinear_arith)
        requires
            0 < across <= 10001,
            0 < down <= 10001,
    ;
    across * down
}

/// The bin that the vertex falls into.
pub fn calc_bin(vertex: &Vertex, grid_bin_size: i32) -> (bin: i32)
    requires
        grid_bin_size > 0,
        bin_fits(*vertex, grid_bin_size as int),
    ensures
        bin == spec_calc_bin(*vertex, grid_bin_size as int),
{
    let (vx, vy) = *vertex;
    let bx = vx / grid_bin_size;
    let by = vy / grid_bin_size;
    bx + by * bins_per_row(grid_bin_size)
}

/// Spatial hash. Calculates the bins of a regular grid that the given
/// geometry occupies: the bin of each of its vertices.
pub fn grid_hash(vertices: &Geometry, grid_bin_size: i32) -> (bins: Bins)
    requires
        grid_bin_size > 0,
        bins_fit(vertices@, grid_bin_size as int),
    ensures
        bins@ == geometry_bins(vertices@, grid_bin_size as int),
{
    let mut bins = Bins::new();
    let mut i: usize = 0;
    while i < 5
        invariant
            i <= 5,
            grid_bin_size > 0,
            bins_fit(vertices@, grid_bin_size as int),
            bins@ == geometry_bins(vertices@.take(i as int), grid_bin_size as int),
        decreases 5 - i,
    {
        let bin = calc_bin(&vertices[i], grid_bin_size);
        bins.insert(bin);
        proof {
            let before = geometry_bins(vertices@.take(i as int), grid_bin_size as int);
            let after = geometry_bins(vertices@.take(i + 1), grid_bin_size as int);
            assert forall|b: i32| after.contains(b) <==> before.insert(bin).contains(b) by {
                if after.contains(b) {
                    let w = choose|w: int|
                        0 <= w < i + 1 && #[trigger] spec_calc_bin(
                            vertices@.take(i + 1)[w],
                            grid_bin_size as int,
                        ) == b;
                    if w < i {
                        assert(vertices@.take(i as int)[w] == vertices@.take(i + 1)[w]);
                    }
                }
                if before.contains(b) {
                    let w = choose|w: int|
                        0 <= w < i && #[trigger] spec_calc_bin(
                            vertices@.take(i as int)[w],
                            grid_bin_size as int,
                        ) == b;
                    assert(vertices@.take(i as int)[w] == vertices@.take(i + 1)[w]);
                }
                if b == bin {
                    assert(vertices@.take(i + 1)[i as int] == vertices@[i as int]);
                }
            }
            assert(after =~= before.insert(bin));
        }
        i += 1;
    }
    proof {
        assert(vertices@.take(5) =~= vertices@);
    }
    bins
}

/// What `build_map` has in a bin while it enters one more entity: the
/// occupants among the entities entered before, and the new entity once the
/// bin is among those already `done`.
pub open spec fn members_while_entering(
    entered: Map<u32, Geometry>,
    bin_size: int,
    bin: i32,
    id: u32,
    done: Set<i32>,
) -> Set<u32> {
    if done.contains(bin) {
        occupants(entered, bin_size, bin).insert(id)
    } else {
        occupants(entered, bin_size, bin)
    }
}

/// Build the map from bin to the entities in it, and the index from entity
/// to its bins.
///
/// Identifiers are the keys of `geometries`, so none can come twice.
pub fn build_map(geometries: &GeomMap, grid_bin_size: i32) -> (built: (SpatialMap, SpatialIndex))
    requires
        grid_bin_size > 0,
        all_bins_fit(geometries@, grid_bin_size as int),
    ensures
        maps_geometries(built.0@, geometries@, grid_bin_size as int),
        indexes_geometries(built.1@, geometries@, grid_bin_size as int),
{
    let mut object_map = SpatialMap::new();
    let mut object_index = SpatialIndex::new();
    let ids = map_keys(geometries);
    let ghost size = grid_bin_size as int;
    let mut k: usize = 0;
    proof {
        assert(ids@.take(0).to_set() =~= Set::<u32>::empty());
        let none = geometries@.restrict(ids@.take(0).to_set());
        assert(none.dom() =~= Set::<u32>::empty());
        assert forall|bin: i32| #[trigger]
            bin_members(object_map@, bin) == occupants(none, size, bin) by {
            assert(occupants(none, size, bin) =~= Set::<u32>::empty());
        }
    }
    while k < ids.len()
        invariant
            k <= ids@.len(),
            ids@.no_duplicates(),
            ids@.to_set() == geometries@.dom(),
            grid_bin_size > 0,
            size == grid_bin_size as int,
            all_bins_fit(geometries@, size),
            maps_geometries(object_map@, geometries@.restrict(ids@.take(k as int).to_set()), size),
            indexes_geometries(
                object_index@,
                geometries@.restrict(ids@.take(k as int).to_set()),
                size,
            ),
        decreases ids@.len() - k,
    {
        let id = ids[k];
        let ghost entered = geometries@.restrict(ids@.take(k as int).to_set());
        proof {
            assert(ids@.to_set().contains(id));
            assert(geometries@.contains_key(id));
            assert(!ids@.take(k as int).to_set().contains(id)) by {
                if ids@.take(k as int).to_set().contains(id) {
                    let w = choose|w: int| 0 <= w < k && ids@.take(k as int)[w] == id;
                    assert(ids@[w] == ids@[k as int]);
                }
            }
            assert(!entered.contains_key(id));
        }
        let vertices = geometries.get(&id).unwrap();
        let grid_bins = grid_hash(vertices, grid_bin_size);
        let bins = set_members(&grid_bins);
        let mut j: usize = 0;
        proof {
            assert(bins@.take(0).to_set() =~= Set::<i32>::empty());
        }
        while j < bins.len()
            invariant
                j <= bins@.len(),
                !entered.contains_key(id),
                forall|bin: i32|
                    {
                        &&& #[trigger] bin_members(object_map@, bin) == members_while_entering(
                            entered,
                            size,
                            bin,
                            id,
                            bins@.take(j as int).to_set(),
                        )
                        &&& object_map@.contains_key(bin) ==> exists|other: u32|
                            members_while_entering(
                                entered,
                                size,
                                bin,
                                id,
                                bins@.take(j as int).to_set(),
                            ).contains(other)
                    },
            decreases bins@.len() - j,
        {
            let bin = bins[j];
            let ghost before = object_map@;
            let ghost done = bins@.take(j as int).to_set();
            let members = object_map.entry(bin).or_insert(HashSet::new());
            members.insert(id);
            proof {
                let now = bins@.take(j + 1).to_set();
                lemma_take_one_more(bins@, j as int);
                assert(bin_members(before, bin) == members_while_entering(
                    entered,
                    size,
                    bin,
                    id,
                    done,
                ));
                assert forall|b: i32|
                    {
                        &&& #[trigger] bin_members(object_map@, b) == members_while_entering(
                            entered,
                            size,
                            b,
                            id,
                            now,
                        )
                        &&& object_map@.contains_key(b) ==> exists|other: u32|
                            members_while_entering(entered, size, b, id, now).contains(other)
                    } by {
                    assert(bin_members(before, b) == members_while_entering(
                        entered,
                        size,
                        b,
                        id,
                        done,
                    ));
                    if b == bin {
                        assert(bin_members(object_map@, b) =~= members_while_entering(
                            entered,
                            size,
                            b,
                            id,
                            now,
                        ));
                        assert(members_while_entering(entered, size, b, id, now).contains(id));
                    } else {
                        assert(object_map@.contains_key(b) == before.contains_key(b));
                        if object_map@.contains_key(b) {
                            let other = choose|other: u32|
                                members_while_entering(entered, size, b, id, done).contains(other);
                            assert(members_while_entering(entered, size, b, id, now).contains(
                                other,
                            ));
                        }
                    }
                }
            }
            j += 1;
        }
        let existing = object_index.insert(id, grid_bins);
        proof {
            assert(bins@.take(bins@.len() as int) =~= bins@);
            let next = geometries@.restrict(ids@.take(k + 1).to_set());
            lemma_take_one_more(ids@, k as int);
            assert(next.dom() =~= entered.dom().insert(id));
            assert forall|bin: i32|
                {
                    &&& #[trigger] bin_members(object_map@, bin) == occupants(next, size, bin)
                    &&& object_map@.contains_key(bin) ==> exists|other: u32|
                        occupants(next, size, bin).contains(other)
                } by {
                let entering = members_while_entering(entered, size, bin, id, bins@.to_set());
                assert(bin_members(object_map@, bin) == entering);
                assert(entering =~= occupants(next, size, bin)) by {
                    assert forall|other: u32| entering.contains(other) <==> occupants(
                        next,
                        size,
                        bin,
                    ).contains(other) by {
                        if other != id && next.contains_key(other) {
                            assert(next[other] == entered[other]);
                        }
                    }
                }
            }
            assert(maps_geometries(object_map@, next, size));
            assert(object_index@.dom() =~= next.dom());
            assert(indexes_geometries(object_index@, next, size));
        }
        k += 1;
    }
    proof {
        assert(ids@.take(ids@.len() as int) =~= ids@);
        assert(geometries@.restrict(geometries@.dom()) =~= geometries@);
    }
    (object_map, object_index)
}

/// Every geometry of the map has bins that fit in an `i32`.
pub open spec fn all_bins_fit(geometries: Map<u32, Geometry>, bin_size: int) -> bool {
    forall|id: u32|
        geometries.contains_key(id) ==> bins_fit((#[trigger] geometries[id])@, bin_size)
}

/// Every geometry of the map has its coordinates within `SAT_COORD_MAX` of
/// zero.
pub open spec fn all_within_limit(geometries: Map<u32, Geometry>) -> bool {
    forall|id: u32| geometries.contains_key(id) ==> within_sat_limit((#[trigger] geometries[id])@)
}

/// With their coordinates within `SAT_COORD_MAX` of zero, geometries have
/// bins that fit in an `i32`, whatever the bin size.
pub proof fn lemma_all_bins_fit_within_limit(geometries: Map<u32, Geometry>, bin_size: int)
    requires
        all_within_limit(geometries),
        bin_size > 0,
    ensures
        all_bins_fit(geometries, bin_size),
{
    assert forall|id: u32| geometries.contains_key(id) implies bins_fit(
        (#[trigger] geometries[id])@,
        bin_size,
    ) by {
        lemma_bins_fit_within_limit(geometries[id]@, bin_size);
    }
}

/// With its coordinates within `SAT_COORD_MAX` of zero, a geometry has bins
/// that fit in an `i32`, whatever the bin size.
pub proof fn lemma_bins_fit_within_limit(geometry: Seq<Vector>, bin_size: int)
    requires
        within_sat_limit(geometry),
        bin_size > 0,
    ensures
        bins_fit(geometry, bin_size),
{
    assert forall|i: int| 0 <= i < geometry.len() implies bin_fits(
        #[trigger] geometry[i],
        bin_size,
    ) by {
        let v = geometry[i];
        let limit = SAT_COORD_MAX as int;
        let column = trunc_div(v.0 as int, bin_size);
        let row = trunc_div(v.1 as int, bin_size);
        let per_row = spec_bins_per_row(bin_size);
        lemma_trunc_div_bound(v.0 as int, bin_size, limit);
        lemma_trunc_div_bound(v.1 as int, bin_size, limit);
        lemma_trunc_div_bound(GRID_WIDTH as int, bin_size, GRID_WIDTH as int);
        assert(-(limit * 10000) <= row * per_row <= limit * 10000) by (nonlinear_arith)
            requires
                -limit <= row <= limit,
                0 <= per_row <= 10000,
                limit >= 0,
        ;
    }
}

/// Dividing by a positive number brings a number no further from zero.
proof fn lemma_trunc_div_bound(a: int, b: int, limit: int)
    requires
        b > 0,
        -limit <= a <= limit,
    ensures
        -limit <= trunc_div(a, b) <= limit,
        a >= 0 ==> 0 <= trunc_div(a, b),
{
    if a >= 0 {
        assert(0 <= a / b <= a) by (nonlinear_arith)
            requires
                a >= 0,
                b > 0,
        ;
    } else {
        assert(0 <= (-a) / b <= -a) by (nonlinear_arith)
            requires
                -a >= 0,
                b > 0,
        ;
    }
}

} // verus!
