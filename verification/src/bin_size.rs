//! The size of the bins, found from the size of the biggest box.

use crate::geometry::{
    box_side_len_sqr, side_len_fits, spec_box_side_len_sqr, spec_edge, spec_max, widen,
    Geometry,
};
use crate::spatial_hash::GeomMap;
use vstd::prelude::*;
use vstd::std_specs::hash::spec_hash_map_iter;
use vstd::std_specs::iter::IteratorSpec;

verus! {

broadcast use vstd::std_specs::hash::group_hash_axioms;

/// The least bin size that is ever used.
pub const MIN_BIN_SIZE: i32 = 250;

/// `root` is the whole part of the square root of `n`.
pub open spec fn is_integer_sqrt(root: int, n: int) -> bool {
    0 <= root && root * root <= n < (root + 1) * (root + 1)
}

/// `size` is the bin size for boxes of the given squared side length: the
/// whole part of the box's diagonal, which is its side times the square root
/// of two, and `MIN_BIN_SIZE` where the diagonal is shorter than that.
pub open spec fn is_bin_size(size: int, side_sqr: int) -> bool {
    exists|diagonal: int|
        #[trigger] is_integer_sqrt(diagonal, 2 * side_sqr) && size == spec_max(
            diagonal,
            MIN_BIN_SIZE as int,
        )
}

/// The greater of two squared side lengths, either of which may be absent.
pub open spec fn spec_larger(a: Option<i32>, b: Option<i32>) -> Option<i32> {
    match (a, b) {
        (None, _) => b,
        (_, None) => a,
        (Some(x), Some(y)) => if x >= y {
            a
        } else {
            b
        },
    }
}

/// `side_sqr` is the squared side length of one of the geometries, or
/// nothing where there is no geometry.
pub open spec fn represents(side_sqr: Option<i32>, geometries: Map<u32, Geometry>) -> bool {
    match side_sqr {
        None => geometries.dom() =~= Set::<u32>::empty(),
        Some(sqr) => exists|id: u32|
            geometries.contains_key(id) && sqr == spec_box_side_len_sqr(
                (#[trigger] geometries[id])@,
            ),
    }
}

/// `size` is a bin size for the four kinds: the bin size for the largest of
/// four squared side lengths, each of which is that of one entity of its
/// kind.
pub open spec fn is_bin_size_of(
    size: int,
    walls: Map<u32, Geometry>,
    baddies: Map<u32, Geometry>,
    bullets: Map<u32, Geometry>,
    cannons: Map<u32, Geometry>,
) -> bool {
    exists|wall: Option<i32>, baddie: Option<i32>, bullet: Option<i32>, cannon: Option<i32>|
        {
            &&& represents(wall, walls)
            &&& represents(baddie, baddies)
            &&& represents(bullet, bullets)
            &&& represents(cannon, cannons)
            &&& match #[trigger] spec_larger(
                spec_larger(spec_larger(wall, baddie), bullet),
                cannon,
            ) {
                None => size == MIN_BIN_SIZE,
                Some(sqr) => is_bin_size(size, sqr as int),
            }
        }
}

/// A bin size for the four kinds is at least `MIN_BIN_SIZE`.
pub proof fn lemma_bin_size_at_least(
    size: int,
    walls: Map<u32, Geometry>,
    baddies: Map<u32, Geometry>,
    bullets: Map<u32, Geometry>,
    cannons: Map<u32, Geometry>,
)
    requires
        is_bin_size_of(size, walls, baddies, bullets, cannons),
    ensures
        size >= MIN_BIN_SIZE,
{
}

/// Every geometry of the map has a squared side length that fits in an `i32`.
pub open spec fn all_sizable(geometries: Map<u32, Geometry>) -> bool {
    forall|id: u32| geometries.contains_key(id) ==> side_len_fits((#[trigger] geometries[id])@)
}

/// The whole part of the square root of `n`.
pub fn integer_sqrt(n: i64) -> (root: i64)
    requires
        0 <= n,
    ensures
        is_integer_sqrt(root as int, n as int),
{
    // The root of the greatest `i64` is less than this.
    let mut low: i64 = 0;
    let mut high: i64 = 3037000500;
    assert(3037000500int * 3037000500int > i64::MAX);
    while high - low > 1
        invariant
            0 <= low < high <= 3037000500,
            low * low <= n < high * high,
        decreases high - low,
    {
        let mid: i64 = low + (high - low) / 2;
        assert(0 <= mid * mid <= 3037000499int * 3037000499int) by (nonlinear_arith)
            requires
                0 <= mid <= 3037000499,
        ;
        if mid * mid <= n {
            low = mid;
        } else {
            high = mid;
        }
    }
    low
}

/// The bin size for boxes whose largest squared side length is
/// `largest_side_sqr`, and `MIN_BIN_SIZE` where there is no box at all.
pub fn bin_size_for(largest_side_sqr: Option<i32>) -> (size: i32)
    requires
        largest_side_sqr matches Some(sqr) ==> sqr >= 0,
    ensures
        size >= MIN_BIN_SIZE,
        match largest_side_sqr {
            None => size == MIN_BIN_SIZE,
            Some(sqr) => is_bin_size(size as int, sqr as int),
        },
{
    match largest_side_sqr {
        None => MIN_BIN_SIZE,
        Some(sqr) => {
            let twice: i64 = 2 * (sqr as i64);
            let diagonal = integer_sqrt(twice);
            assert(diagonal <= 0x1_0000) by (nonlinear_arith)
                requires
                    0 <= diagonal,
                    diagonal * diagonal <= 0xffff_ffff,
            ;
            assert(is_integer_sqrt(diagonal as int, 2 * (sqr as int)));
            if diagonal > MIN_BIN_SIZE as i64 {
                diagonal as i32
            } else {
                MIN_BIN_SIZE
            }
        },
    }
}

/// The greater of two squared side lengths, either of which may be absent.
pub fn larger(a: Option<i32>, b: Option<i32>) -> (greater: Option<i32>)
    ensures
        greater == spec_larger(a, b),
{
    match (a, b) {
        (None, _) => b,
        (_, None) => a,
        (Some(x), Some(y)) => if x >= y {
            a
        } else {
            b
        },
    }
}

/// The squared side length of the geometry that the map hands out first:
/// one entity stands for all of its kind.
pub fn representative(geometries: &GeomMap) -> (side_sqr: Option<i32>)
    requires
        all_sizable(geometries@),
    ensures
        represents(side_sqr, geometries@),
        side_sqr matches Some(sqr) ==> sqr >= 0,
{
    for entry in it: geometries.iter()
        invariant
            all_sizable(geometries@),
            it.seq() == spec_hash_map_iter(geometries).remaining(),
            it.index() == 0,
    {
        proof {
            let walked = spec_hash_map_iter(geometries).remaining();
            assert(entry == walked[0]);
            assert(geometries@.contains_key(*walked[0].0));
            assert(geometries@[*walked[0].0] == *walked[0].1);
            let e = spec_edge(widen(entry.1@[0]), widen(entry.1@[1]));
            assert(e.0 * e.0 >= 0 && e.1 * e.1 >= 0) by (nonlinear_arith);
        }
        return Some(box_side_len_sqr(entry.1));
    }
    proof {
        assert(spec_hash_map_iter(geometries).remaining().len() == 0);
        assert(geometries@.dom().len() == 0);
        assert(geometries@.dom() =~= Set::<u32>::empty());
    }
    None
}

/// Calculates the bin size from the biggest of four boxes, one that stands
/// for each kind: its diagonal, so that the box fits a bin however it is
/// turned, and no less than `MIN_BIN_SIZE`.
///
/// Which entity stands for its kind is not determined; where all entities of
/// a kind have the same size, neither choice changes the result.
pub fn calc_bin_size(
    walls: &GeomMap,
    baddies: &GeomMap,
    bullets: &GeomMap,
    cannons: &GeomMap,
) -> (size: i32)
    requires
        all_sizable(walls@),
        all_sizable(baddies@),
        all_sizable(bullets@),
        all_sizable(cannons@),
    ensures
        size >= MIN_BIN_SIZE,
        is_bin_size_of(size as int, walls@, baddies@, bullets@, cannons@),
{
    let wall = representative(walls);
    let baddie = representative(baddies);
    let bullet = representative(bullets);
    let cannon = representative(cannons);
    let largest = larger(larger(larger(wall, baddie), bullet), cannon);
    bin_size_for(largest)
}

} // verus!
