//! Geometry and math operations on integer world coordinates.
//!
//! Everything here is stateless. The contracts are written over unbounded
//! integers; each executable function asks, as its precondition, that the
//! values it computes fit in an `i32`.

use vstd::prelude::*;

verus! {

/// A vector of (x, y).
pub type Vector = (i32, i32);

/// A point of (x, y).
pub type P = Vector;

/// A vertex of (x, y).
pub type Vertex = Vector;

/// An interval of (min, max).
pub type MinMax = (i32, i32);

/// Object geometry. All objects are boxes; the first vertex is repeated at the
/// end to close the shape.
pub type Geometry = [Vertex; 5];

pub enum Direction {
    Up,
    Down,
    Left,
    Right,
}

/// Largest coordinate magnitude for which the separating-axis test is known
/// to stay inside `i32`: with every coordinate in `-SAT_COORD_MAX ..= SAT_COORD_MAX`
/// an edge component is at most twice that, and a projection at most
/// `4 * SAT_COORD_MAX * SAT_COORD_MAX`.
pub const SAT_COORD_MAX: i32 = 23170;

#[verifier::inline]
pub open spec fn fits_i32(x: int) -> bool {
    i32::MIN <= x <= i32::MAX
}

/// A pair of machine integers as a pair of mathematical integers.
pub open spec fn widen(v: Vector) -> (int, int) {
    (v.0 as int, v.1 as int)
}

pub open spec fn spec_scale(v: (int, int), a: int) -> (int, int) {
    (a * v.0, a * v.1)
}

pub open spec fn spec_edge(v1: (int, int), v2: (int, int)) -> (int, int) {
    (v2.0 - v1.0, v2.1 - v1.1)
}

pub open spec fn spec_normal(v: (int, int)) -> (int, int) {
    (-v.1, v.0)
}

pub open spec fn spec_dot(a: (int, int), b: (int, int)) -> int {
    a.0 * b.0 + a.1 * b.1
}

/// Both products of a dot product, and their sum, fit in an `i32`.
pub open spec fn dot_fits(a: (int, int), b: (int, int)) -> bool {
    &&& fits_i32(a.0 * b.0)
    &&& fits_i32(a.1 * b.1)
    &&& fits_i32(spec_dot(a, b))
}

/// Two intervals overlap unless the second lies entirely below the first's
/// lower end or starts above both of the first's ends. Touching ends overlap.
pub open spec fn ranges_overlap(r1: (int, int), r2: (int, int)) -> bool {
    !((r2.0 < r1.0 && r2.1 < r1.0) || (r2.0 > r1.0 && r2.0 > r1.1))
}

/// `x` lies between the two ends of `r`, ends included.
pub open spec fn in_range(r: (int, int), x: int) -> bool {
    r.0 <= x <= r.1
}

pub open spec fn spec_min(a: int, b: int) -> int {
    if a <= b {
        a
    } else {
        b
    }
}

pub open spec fn spec_max(a: int, b: int) -> int {
    if a >= b {
        a
    } else {
        b
    }
}

pub open spec fn spec_build_range(current: (int, int), input: int) -> (int, int) {
    (spec_min(current.0, input), spec_max(current.1, input))
}

/// The interval that holds nothing yet: widening it by a first value gives
/// that value as both ends.
pub open spec fn empty_range() -> (int, int) {
    (i32::MAX as int, i32::MIN as int)
}

/// The interval covered by the projections of `poly`'s vertices onto `axis`,
/// grown one vertex at a time from `empty_range()`.
pub open spec fn spec_projected_range(poly: Seq<Vector>, axis: (int, int)) -> (int, int)
    decreases poly.len(),
{
    if poly.len() == 0 {
        empty_range()
    } else {
        spec_build_range(
            spec_projected_range(poly.drop_last(), axis),
            spec_dot(widen(poly.last()), axis),
        )
    }
}

/// A polygon is closed when its last vertex repeats its first.
pub open spec fn is_closed(poly: Seq<Vector>) -> bool {
    poly.len() > 0 ==> poly[0] == poly[poly.len() - 1]
}

/// The axis perpendicular to the edge that ends in vertex `k`.
pub open spec fn axis_of(poly: Seq<Vector>, k: int) -> (int, int) {
    spec_normal(spec_edge(widen(poly[k - 1]), widen(poly[k])))
}

/// The projections of the two polygons onto `axis` do not overlap.
pub open spec fn separates(axis: (int, int), poly1: Seq<Vector>, poly2: Seq<Vector>) -> bool {
    !ranges_overlap(spec_projected_range(poly1, axis), spec_projected_range(poly2, axis))
}

/// Some edge of `poly` gives an axis that separates `poly1` from `poly2`.
pub open spec fn edge_separates(poly: Seq<Vector>, poly1: Seq<Vector>, poly2: Seq<Vector>) -> bool {
    exists|k: int| 1 <= k < poly.len() && separates(#[trigger] axis_of(poly, k), poly1, poly2)
}

/// Some edge of either polygon gives a separating axis.
pub open spec fn has_separating_axis(poly1: Seq<Vector>, poly2: Seq<Vector>) -> bool {
    edge_separates(poly1, poly1, poly2) || edge_separates(poly2, poly1, poly2)
}

/// Every value computed for the axis of edge `k` of `poly` fits in an `i32`:
/// the edge, its normal, and the projection of each vertex of both polygons.
pub open spec fn axis_fits(
    poly: Seq<Vector>,
    k: int,
    poly1: Seq<Vector>,
    poly2: Seq<Vector>,
) -> bool {
    let e = spec_edge(widen(poly[k - 1]), widen(poly[k]));
    &&& fits_i32(e.0)
    &&& fits_i32(e.1)
    &&& fits_i32(-e.1)
    &&& forall|i: int|
        0 <= i < poly1.len() ==> dot_fits(widen(#[trigger] poly1[i]), axis_of(poly, k))
    &&& forall|i: int|
        0 <= i < poly2.len() ==> dot_fits(widen(#[trigger] poly2[i]), axis_of(poly, k))
}

/// Every value of the separating-axis test on the two polygons fits in an `i32`.
pub open spec fn sat_fits(poly1: Seq<Vector>, poly2: Seq<Vector>) -> bool {
    &&& forall|k: int| 1 <= k < poly1.len() ==> #[trigger] axis_fits(poly1, k, poly1, poly2)
    &&& forall|k: int| 1 <= k < poly2.len() ==> #[trigger] axis_fits(poly2, k, poly1, poly2)
}

/// Every coordinate of `poly` is within `SAT_COORD_MAX` of zero.
pub open spec fn within_sat_limit(poly: Seq<Vector>) -> bool {
    forall|i: int|
        0 <= i < poly.len() ==> {
            &&& -SAT_COORD_MAX <= (#[trigger] poly[i]).0 <= SAT_COORD_MAX
            &&& -SAT_COORD_MAX <= poly[i].1 <= SAT_COORD_MAX
        }
}

pub open spec fn spec_direction_vector(direction: Direction) -> Vector {
    match direction {
        Direction::Up => (0i32, (-1) as i32),
        Direction::Down => (0i32, 1i32),
        Direction::Left => ((-1) as i32, 0i32),
        Direction::Right => (1i32, 0i32),
    }
}

/// The squared distance between the first two vertices.
pub open spec fn spec_box_side_len_sqr(geom: Seq<Vector>) -> int {
    let e = spec_edge(widen(geom[0]), widen(geom[1]));
    spec_dot(e, e)
}

/// The values computed for the squared side length fit in an `i32`.
pub open spec fn side_len_fits(geom: Seq<Vector>) -> bool {
    let e = spec_edge(widen(geom[0]), widen(geom[1]));
    &&& fits_i32(e.0)
    &&& fits_i32(e.1)
    &&& dot_fits(e, e)
}

/// Overlap does not depend on the order in which the two intervals are given.
pub proof fn lemma_overlap_symmetric(r1: (int, int), r2: (int, int))
    ensures
        ranges_overlap(r1, r2) == ranges_overlap(r2, r1),
{
}

/// For intervals whose ends are in order, overlap means that each begins no
/// later than the other ends: the intervals share at least one value.
pub proof fn lemma_overlap_of_ordered(r1: (int, int), r2: (int, int))
    requires
        r1.0 <= r1.1,
        r2.0 <= r2.1,
    ensures
        ranges_overlap(r1, r2) <==> (r1.0 <= r2.1 && r2.0 <= r1.1),
        ranges_overlap(r1, r2) <==> exists|x: int| #[trigger] in_range(r1, x) && in_range(r2, x),
{
    if r1.0 <= r2.1 && r2.0 <= r1.1 {
        let x = spec_max(r1.0, r2.0);
        assert(in_range(r1, x) && in_range(r2, x));
    }
}

/// The projected range of a polygon with at least one vertex, all of whose
/// projections fit in an `i32`, is the least and the greatest projection:
/// every vertex projects into it and both ends are the projection of a vertex.
pub proof fn lemma_projected_range_is_min_max(poly: Seq<Vector>, axis: (int, int))
    requires
        poly.len() > 0,
        forall|i: int| 0 <= i < poly.len() ==> fits_i32(spec_dot(widen(#[trigger] poly[i]), axis)),
    ensures
        forall|i: int|
            0 <= i < poly.len() ==> spec_projected_range(poly, axis).0 <= spec_dot(
                widen(#[trigger] poly[i]),
                axis,
            ) <= spec_projected_range(poly, axis).1,
        exists|i: int|
            0 <= i < poly.len() && spec_dot(widen(#[trigger] poly[i]), axis)
                == spec_projected_range(poly, axis).0,
        exists|i: int|
            0 <= i < poly.len() && spec_dot(widen(#[trigger] poly[i]), axis)
                == spec_projected_range(poly, axis).1,
    decreases poly.len(),
{
    let rest = poly.drop_last();
    let last = poly.len() - 1;
    let d = spec_dot(widen(poly[last]), axis);
    if rest.len() == 0 {
        assert(spec_projected_range(rest, axis) == empty_range());
        assert(spec_projected_range(poly, axis) == (d, d));
    } else {
        assert forall|i: int| 0 <= i < rest.len() implies fits_i32(
            spec_dot(widen(#[trigger] rest[i]), axis),
        ) by {
            assert(rest[i] == poly[i]);
        }
        lemma_projected_range_is_min_max(rest, axis);
        let r = spec_projected_range(rest, axis);
        let lo = choose|i: int|
            0 <= i < rest.len() && spec_dot(widen(#[trigger] rest[i]), axis) == r.0;
        let hi = choose|i: int|
            0 <= i < rest.len() && spec_dot(widen(#[trigger] rest[i]), axis) == r.1;
        assert(rest[lo] == poly[lo]);
        assert(rest[hi] == poly[hi]);
        let lo2 = if d < r.0 { last } else { lo };
        let hi2 = if d > r.1 { last } else { hi };
        assert(spec_dot(widen(poly[lo2]), axis) == spec_projected_range(poly, axis).0);
        assert(spec_dot(widen(poly[hi2]), axis) == spec_projected_range(poly, axis).1);
        assert forall|i: int| 0 <= i < poly.len() implies spec_projected_range(poly, axis).0
            <= spec_dot(widen(#[trigger] poly[i]), axis) <= spec_projected_range(poly, axis).1 by {
            if i < last {
                assert(rest[i] == poly[i]);
            }
        }
    }
}

/// The product of two bounded integers is bounded by the product of the bounds.
proof fn lemma_product_bound(a: int, b: int, ma: int, mb: int)
    by (nonlinear_arith)
    requires
        -ma <= a <= ma,
        -mb <= b <= mb,
    ensures
        -(ma * mb) <= a * b <= ma * mb,
{
}

/// With every coordinate of both polygons within `SAT_COORD_MAX` of zero, no
/// value of the separating-axis test leaves the range of `i32`.
pub proof fn lemma_within_limit_fits(poly1: Seq<Vector>, poly2: Seq<Vector>)
    requires
        within_sat_limit(poly1),
        within_sat_limit(poly2),
    ensures
        sat_fits(poly1, poly2),
{
    assert forall|k: int| 1 <= k < poly1.len() implies #[trigger] axis_fits(
        poly1,
        k,
        poly1,
        poly2,
    ) by {
        lemma_axis_within_limit_fits(poly1, k, poly1, poly2);
    }
    assert forall|k: int| 1 <= k < poly2.len() implies #[trigger] axis_fits(
        poly2,
        k,
        poly1,
        poly2,
    ) by {
        lemma_axis_within_limit_fits(poly2, k, poly1, poly2);
    }
}

proof fn lemma_axis_within_limit_fits(
    poly: Seq<Vector>,
    k: int,
    poly1: Seq<Vector>,
    poly2: Seq<Vector>,
)
    requires
        1 <= k < poly.len(),
        within_sat_limit(poly),
        within_sat_limit(poly1),
        within_sat_limit(poly2),
    ensures
        axis_fits(poly, k, poly1, poly2),
{
    let m = SAT_COORD_MAX as int;
    let a = poly[k - 1];
    let b = poly[k];
    let n = axis_of(poly, k);
    assert(-2 * m <= n.0 <= 2 * m && -2 * m <= n.1 <= 2 * m);
    assert forall|i: int| 0 <= i < poly1.len() implies dot_fits(widen(#[trigger] poly1[i]), n) by {
        lemma_product_bound(poly1[i].0 as int, n.0, m, 2 * m);
        lemma_product_bound(poly1[i].1 as int, n.1, m, 2 * m);
    }
    assert forall|i: int| 0 <= i < poly2.len() implies dot_fits(widen(#[trigger] poly2[i]), n) by {
        lemma_product_bound(poly2[i].0 as int, n.0, m, 2 * m);
        lemma_product_bound(poly2[i].1 as int, n.1, m, 2 * m);
    }
}

/// The test does not depend on the order in which the two polygons are given.
pub proof fn lemma_separating_axis_symmetric(poly1: Seq<Vector>, poly2: Seq<Vector>)
    ensures
        has_separating_axis(poly1, poly2) == has_separating_axis(poly2, poly1),
{
    lemma_edge_separates_symmetric(poly1, poly1, poly2);
    lemma_edge_separates_symmetric(poly2, poly1, poly2);
}

proof fn lemma_edge_separates_symmetric(poly: Seq<Vector>, poly1: Seq<Vector>, poly2: Seq<Vector>)
    ensures
        edge_separates(poly, poly1, poly2) == edge_separates(poly, poly2, poly1),
{
    if edge_separates(poly, poly1, poly2) {
        let k = choose|k: int|
            1 <= k < poly.len() && separates(#[trigger] axis_of(poly, k), poly1, poly2);
        assert(separates(axis_of(poly, k), poly2, poly1));
    }
    if edge_separates(poly, poly2, poly1) {
        let k = choose|k: int|
            1 <= k < poly.len() && separates(#[trigger] axis_of(poly, k), poly2, poly1);
        assert(separates(axis_of(poly, k), poly1, poly2));
    }
}

/// Two polygons that have a vertex in common are never told apart: on every
/// axis the projection of that vertex lies in both ranges.
pub proof fn lemma_shared_vertex_collides(poly1: Seq<Vector>, poly2: Seq<Vector>, i: int, j: int)
    requires
        0 <= i < poly1.len(),
        0 <= j < poly2.len(),
        poly1[i] == poly2[j],
        sat_fits(poly1, poly2),
    ensures
        !has_separating_axis(poly1, poly2),
{
    assert forall|k: int| 1 <= k < poly1.len() implies !separates(
        #[trigger] axis_of(poly1, k),
        poly1,
        poly2,
    ) by {
        assert(axis_fits(poly1, k, poly1, poly2));
        lemma_shared_vertex_overlaps(poly1, poly2, i, j, axis_of(poly1, k));
    }
    assert forall|k: int| 1 <= k < poly2.len() implies !separates(
        #[trigger] axis_of(poly2, k),
        poly1,
        poly2,
    ) by {
        assert(axis_fits(poly2, k, poly1, poly2));
        lemma_shared_vertex_overlaps(poly1, poly2, i, j, axis_of(poly2, k));
    }
}

proof fn lemma_shared_vertex_overlaps(
    poly1: Seq<Vector>,
    poly2: Seq<Vector>,
    i: int,
    j: int,
    axis: (int, int),
)
    requires
        0 <= i < poly1.len(),
        0 <= j < poly2.len(),
        poly1[i] == poly2[j],
        forall|a: int| 0 <= a < poly1.len() ==> dot_fits(widen(#[trigger] poly1[a]), axis),
        forall|a: int| 0 <= a < poly2.len() ==> dot_fits(widen(#[trigger] poly2[a]), axis),
    ensures
        !separates(axis, poly1, poly2),
{
    lemma_projected_range_is_min_max(poly1, axis);
    lemma_projected_range_is_min_max(poly2, axis);
}

/// Scale the vector `v` by constant `a`.
pub fn scale(v: Vector, a: i32) -> (scaled: Vector)
    requires
        fits_i32(a * v.0),
        fits_i32(a * v.1),
    ensures
        widen(scaled) == spec_scale(widen(v), a as int),
{
    (a * v.0, a * v.1)
}

/// Calculate the edge vector between `v1` and `v2`.
pub fn edge(v1: Vertex, v2: Vertex) -> (e: Vector)
    requires
        fits_i32(v2.0 - v1.0),
        fits_i32(v2.1 - v1.1),
    ensures
        widen(e) == spec_edge(widen(v1), widen(v2)),
{
    (v2.0 - v1.0, v2.1 - v1.1)
}

/// Calculate a vector perpendicular to that supplied: the components are
/// swapped and the first one negated. The result is not normalized.
pub fn normal(vector: Vector) -> (n: Vector)
    requires
        fits_i32(-vector.1),
    ensures
        widen(n) == spec_normal(widen(vector)),
{
    (-vector.1, vector.0)
}

/// Calculate the dot product of two vectors.
pub fn dotprod(vector1: Vector, vector2: Vector) -> (d: i32)
    requires
        dot_fits(widen(vector1), widen(vector2)),
    ensures
        d == spec_dot(widen(vector1), widen(vector2)),
{
    vector1.0 * vector2.0 + vector1.1 * vector2.1
}

/// Returns true if the given ranges overlap. Inclusive: a range that ends
/// where the other begins overlaps it.
pub fn check_overlap(range1: MinMax, range2: MinMax) -> (overlap: bool)
    ensures
        overlap == ranges_overlap(widen(range1), widen(range2)),
{
    let (r1min, r1max) = range1;
    let (r2min, r2max) = range2;

    if (r2min < r1min && r2max < r1min) || (r2min > r1min && r2min > r1max) {
        false
    } else {
        true
    }
}

/// Expands `current` just enough to include `input`.
pub fn build_range(current: MinMax, input: i32) -> (range: MinMax)
    ensures
        widen(range) == spec_build_range(widen(current), input as int),
{
    let lo: i32 = if current.0 <= input {
        current.0
    } else {
        input
    };
    let hi: i32 = if current.1 >= input {
        current.1
    } else {
        input
    };
    (lo, hi)
}

/// Calculate the min and max values of the projection of the polygon's
/// vertices onto the given normal.
pub fn calc_projected_range(poly: &[P], normal: Vector) -> (range: MinMax)
    requires
        forall|i: int| 0 <= i < poly@.len() ==> dot_fits(widen(#[trigger] poly@[i]), widen(normal)),
    ensures
        widen(range) == spec_projected_range(poly@, widen(normal)),
{
    let mut range: MinMax = (i32::MAX, i32::MIN);
    let mut i: usize = 0;
    while i < poly.len()
        invariant
            i <= poly@.len(),
            widen(range) == spec_projected_range(poly@.take(i as int), widen(normal)),
            forall|j: int|
                0 <= j < poly@.len() ==> dot_fits(widen(#[trigger] poly@[j]), widen(normal)),
        decreases poly@.len() - i,
    {
        let projected = dotprod(poly[i], normal);
        range = build_range(range, projected);
        proof {
            assert(poly@.take(i + 1).drop_last() =~= poly@.take(i as int));
        }
        i += 1;
    }
    proof {
        assert(poly@.take(poly@.len() as int) =~= poly@);
    }
    range
}

/// Looks for a separating axis among the edges of `poly`: true when the
/// projections of `poly1` and `poly2` onto the normal of some edge of `poly`
/// do not overlap.
fn separated_along(poly: &[P], poly1: &[P], poly2: &[P]) -> (found: bool)
    requires
        forall|k: int| 1 <= k < poly@.len() ==> #[trigger] axis_fits(poly@, k, poly1@, poly2@),
    ensures
        found == edge_separates(poly@, poly1@, poly2@),
{
    let mut iv: usize = 1;
    while iv < poly.len()
        invariant
            1 <= iv,
            forall|k: int| 1 <= k < poly@.len() ==> #[trigger] axis_fits(poly@, k, poly1@, poly2@),
            forall|k: int| 1 <= k < iv ==> !separates(#[trigger] axis_of(poly@, k), poly1@, poly2@),
        decreases poly@.len() - iv,
    {
        assert(axis_fits(poly@, iv as int, poly1@, poly2@));
        let edge = edge(poly[iv - 1], poly[iv]);
        let normal = normal(edge);
        assert(widen(normal) == axis_of(poly@, iv as int));

        let poly1_range = calc_projected_range(poly1, normal);
        let poly2_range = calc_projected_range(poly2, normal);

        if !check_overlap(poly1_range, poly2_range) {
            assert(separates(axis_of(poly@, iv as int), poly1@, poly2@));
            return true;
        }
        iv += 1;
    }
    false
}

/// Check whether there is a collision (an intersection) between the given
/// polygons, using the Separating Axis Theorem.
///
/// Both polygons are closed loops: the first vertex is repeated at the end.
/// The test looks at the normal of every edge of both polygons, and reports a
/// collision exactly when the projections of the two polygons overlap on all
/// of them. It is meaningful for convex polygons only.
pub fn is_collision(poly1: &[P], poly2: &[P]) -> (hit: bool)
    requires
        is_closed(poly1@),
        is_closed(poly2@),
        sat_fits(poly1@, poly2@),
    ensures
        hit == !has_separating_axis(poly1@, poly2@),
{
    if separated_along(poly1, poly1, poly2) {
        return false;
    }
    if separated_along(poly2, poly1, poly2) {
        return false;
    }
    true
}

pub fn direction_vector(direction: Direction) -> (v: Vector)
    ensures
        v == spec_direction_vector(direction),
{
    match direction {
        Direction::Up => (0, -1),
        Direction::Down => (0, 1),
        Direction::Left => (-1, 0),
        Direction::Right => (1, 0),
    }
}

/// Calculates the square of a box's side length, taken between its first two
/// vertices.
pub fn box_side_len_sqr(geom: &Geometry) -> (sqr: i32)
    requires
        side_len_fits(geom@),
    ensures
        sqr == spec_box_side_len_sqr(geom@),
{
    let (x0, y0) = geom[0];
    let (x1, y1) = geom[1];
    let dx = x1 - x0;
    let dy = y1 - y0;
    dx * dx + dy * dy
}

} // verus!
