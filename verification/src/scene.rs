//! Choice of the closest hit among the distances at which a ray meets the
//! shapes of a scene.
//!
//! A distance is a 32-bit IEEE-754 number, handled here by its bit pattern.
//! Patterns that are numbers compare as those numbers do when they are read
//! as a sign and a magnitude, with both zeros equal. A pattern that is not a
//! number is neither closer nor farther than any other.

use vstd::prelude::*;

verus! {

/// Magnitude of a bit pattern: all bits but the sign.
pub open spec fn spec_magnitude(bits: u32) -> int {
    bits as int % 0x8000_0000
}

/// Whether the sign bit of a pattern is set.
pub open spec fn spec_negative(bits: u32) -> bool {
    bits >= 0x8000_0000
}

/// A pattern is not a number when its magnitude lies above that of infinity.
pub open spec fn spec_is_nan(bits: u32) -> bool {
    spec_magnitude(bits) > 0x7f80_0000
}

/// The pattern read as a sign and a magnitude.
pub open spec fn spec_signed_magnitude(bits: u32) -> int {
    if spec_negative(bits) {
        -spec_magnitude(bits)
    } else {
        spec_magnitude(bits)
    }
}

/// Key of a pattern: its sign-and-magnitude reading above the midpoint of
/// the unsigned range.
pub open spec fn spec_distance_key(bits: u32) -> int {
    0x8000_0000 + spec_signed_magnitude(bits)
}

/// The first distance is strictly smaller than the second: both are numbers
/// and the first reads lower.
pub open spec fn spec_closer(first: u32, second: u32) -> bool {
    &&& !spec_is_nan(first)
    &&& !spec_is_nan(second)
    &&& spec_signed_magnitude(first) < spec_signed_magnitude(second)
}

/// Key by which the distance with the given bit pattern is ordered among
/// the numbers, or `None` when the pattern is not a number.
pub fn distance_key(bits: u32) -> (key: Option<u32>)
    ensures
        key.is_none() <==> spec_is_nan(bits),
        key matches Some(k) ==> k as int == spec_distance_key(bits),
{
    let magnitude: u32 = bits & 0x7fff_ffff;
    let negative: bool = bits & 0x8000_0000 != 0;
    proof {
        assert(magnitude == bits % 0x8000_0000) by (bit_vector)
            requires
                magnitude == bits & 0x7fff_ffff,
        ;
        assert(negative == (bits >= 0x8000_0000)) by (bit_vector)
            requires
                negative == (bits & 0x8000_0000 != 0),
        ;
    }
    if magnitude > 0x7f80_0000 {
        None
    } else if negative {
        Some(0x8000_0000 - magnitude)
    } else {
        Some(0x8000_0000 + magnitude)
    }
}

/// Whether the first distance is strictly smaller than the second.
pub fn closer(first: u32, second: u32) -> (less: bool)
    ensures
        less == spec_closer(first, second),
{
    match (distance_key(first), distance_key(second)) {
        (Some(a), Some(b)) => a < b,
        _ => false,
    }
}

/// Keys order patterns as their sign-and-magnitude readings do; the two
/// zeros, and only they, share a key.
pub proof fn lemma_distance_key_order(first: u32, second: u32)
    ensures
        spec_distance_key(first) < spec_distance_key(second) <==> spec_signed_magnitude(first)
            < spec_signed_magnitude(second),
        spec_distance_key(first) == spec_distance_key(second) <==> (first == second
            || spec_magnitude(first) == 0 && spec_magnitude(second) == 0),
        0 < spec_distance_key(first) <= u32::MAX,
{
}

/// Among numbers, being closer is a strict order in which any two that are
/// not equal as numbers are comparable; nothing compares with a pattern
/// that is not a number.
pub proof fn lemma_closer_is_strict_order(a: u32, b: u32, c: u32)
    ensures
        !spec_closer(a, a),
        spec_closer(a, b) ==> !spec_closer(b, a),
        spec_closer(a, b) && spec_closer(b, c) ==> spec_closer(a, c),
        !spec_is_nan(a) && !spec_is_nan(b) ==> spec_closer(a, b) || spec_closer(b, a)
            || spec_signed_magnitude(a) == spec_signed_magnitude(b),
        spec_is_nan(a) ==> !spec_closer(a, b) && !spec_closer(b, a),
{
}

/// Position `f` holds the first hit: no shape before it is hit.
pub open spec fn is_first_hit(hits: Seq<Option<u32>>, f: int) -> bool {
    &&& 0 <= f < hits.len()
    &&& hits[f].is_some()
    &&& forall|k: int| 0 <= k < f ==> (#[trigger] hits[k]).is_none()
}

/// Position `i` holds the closest hit.
///
/// A hit whose distance is not a number is the closest only when it is the
/// first hit, and then it is: nothing is closer than it. Otherwise the
/// closest hit is a number that no hit undercuts and that undercuts every
/// number before it.
pub open spec fn is_nearest(hits: Seq<Option<u32>>, i: int) -> bool {
    &&& 0 <= i < hits.len()
    &&& hits[i].is_some()
    &&& if spec_is_nan(hits[i].unwrap()) {
        is_first_hit(hits, i)
    } else {
        &&& forall|f: int| #[trigger] is_first_hit(hits, f) ==> !spec_is_nan(hits[f].unwrap())
        &&& forall|j: int|
            0 <= j < hits.len() && (#[trigger] hits[j]).is_some() ==> !spec_closer(
                hits[j].unwrap(),
                hits[i].unwrap(),
            )
        &&& forall|j: int|
            0 <= j < i && (#[trigger] hits[j]).is_some() && !spec_is_nan(hits[j].unwrap())
                ==> spec_closer(hits[i].unwrap(), hits[j].unwrap())
    }
}

/// Position of the closest hit among the distances at which the shapes are
/// hit, in the order of the shapes; `None` stands for a shape that is not
/// hit. The first hit is kept until a later one is strictly closer.
pub fn nearest(hits: &Vec<Option<u32>>) -> (found: Option<usize>)
    ensures
        found.is_none() <==> forall|j: int|
            0 <= j < hits@.len() ==> (#[trigger] hits@[j]).is_none(),
        found matches Some(i) ==> is_nearest(hits@, i as int),
{
    let mut closest: Option<(usize, u32)> = None;
    let mut at: usize = 0;
    while at < hits.len()
        invariant
            at <= hits@.len(),
            closest.is_none() <==> forall|j: int|
                0 <= j < at ==> (#[trigger] hits@[j]).is_none(),
            closest matches Some((i, d)) ==> i < at && hits@[i as int] == Some(d) && is_nearest(
                hits@.subrange(0, at as int),
                i as int,
            ),
        decreases hits@.len() - at,
    {
        let ghost before = hits@.subrange(0, at as int);
        let ghost after = hits@.subrange(0, at as int + 1);
        assert(forall|j: int| 0 <= j < at ==> before[j] == after[j]);
        match hits[at] {
            Some(distance) => {
                match closest {
                    Some((_, least)) => {
                        if closer(distance, least) {
                            closest = Some((at, distance));
                        }
                    },
                    None => {
                        closest = Some((at, distance));
                    },
                }
            },
            None => {},
        }
        at = at + 1;
        proof {
            assert forall|f: int| #[trigger] is_first_hit(after, f) && f < at - 1 implies is_first_hit(
                before,
                f,
            ) by {
                assert(before[f] == after[f]);
            }
            if let Some((i, d)) = closest {
                assert(after[i as int] == Some(d));
            }
        }
    }
    assert(hits@.subrange(0, at as int) =~= hits@);
    match closest {
        Some((i, _)) => Some(i),
        None => None,
    }
}

/// At most one position holds the closest hit.
pub proof fn lemma_nearest_unique(hits: Seq<Option<u32>>, first: int, second: int)
    requires
        is_nearest(hits, first),
        is_nearest(hits, second),
    ensures
        first == second,
{
}

/// The distance of the closest hit does not depend on the order of the
/// shapes when every hit is at a number: two scenes with the same hits, in
/// any order, have closest hits at the same number.
pub proof fn lemma_nearest_order_free(
    first: Seq<Option<u32>>,
    second: Seq<Option<u32>>,
    i: int,
    j: int,
)
    requires
        first.to_multiset() == second.to_multiset(),
        forall|k: int|
            0 <= k < first.len() && (#[trigger] first[k]).is_some() ==> !spec_is_nan(
                first[k].unwrap(),
            ),
        is_nearest(first, i),
        is_nearest(second, j),
    ensures
        spec_signed_magnitude(first[i].unwrap()) == spec_signed_magnitude(second[j].unwrap()),
{
    first.to_multiset_ensures();
    second.to_multiset_ensures();
    assert(first.contains(first[i]));
    assert(second.contains(second[j]));
    assert(second.to_multiset().count(first[i]) > 0);
    assert(first.to_multiset().count(second[j]) > 0);
    assert(second.contains(first[i]));
    assert(first.contains(second[j]));
    let in_second = choose|k: int| 0 <= k < second.len() && second[k] == first[i];
    let in_first = choose|k: int| 0 <= k < first.len() && first[k] == second[j];
    assert(second[in_second].is_some());
    assert(first[in_first].is_some());
}

/// Of two hits at numbers the strictly closer one is the closest, whichever
/// shape comes first; of two hits at equal numbers the first is.
pub proof fn lemma_nearest_of_two(first: u32, second: u32)
    requires
        !spec_is_nan(first),
        !spec_is_nan(second),
    ensures
        spec_closer(second, first) ==> is_nearest(seq![Some(first), Some(second)], 1),
        !spec_closer(second, first) ==> is_nearest(seq![Some(first), Some(second)], 0),
{
    let hits = seq![Some(first), Some(second)];
    assert(hits[0] == Some(first));
    assert(hits[1] == Some(second));
    assert forall|f: int| #[trigger] is_first_hit(hits, f) implies f == 0 by {
        if f > 0 {
            assert(hits[0].is_none());
        }
    }
}

} // verus!
