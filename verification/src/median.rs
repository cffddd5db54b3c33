//! The threshold of a quadrant: the lower median of its pixels.

use vstd::prelude::*;
use vstd::relations::{sorted_by, total_ordering};
use vstd::seq_lib::lemma_sorted_unique;
use crate::hash::SubArea;
use crate::subarea::{lemma_subarea_values_len, subarea_of, subarea_values};
use crate::HASHLEN;

verus! {

/// The order of brightness values.
pub open spec fn byte_leq() -> spec_fn(u8, u8) -> bool {
    |a: u8, b: u8| a <= b
}

/// The value at rank `HASHLEN / 8`, counted from zero, among `values` in
/// ascending order. For the `HASHLEN / 4` pixels of a quadrant this is the
/// upper of the two middle values, not their mean.
pub open spec fn rank_median(values: Seq<u8>) -> u8 {
    values.sort_by(byte_leq())[(HASHLEN / 8) as int]
}

/// The threshold of `area` in the image `gray`.
pub open spec fn subarea_median(gray: Seq<u8>, area: SubArea) -> u8 {
    rank_median(subarea_values(gray, area))
}

/// `slice::sort`: the same values, in ascending order.
#[verifier::external_body]
fn sort_values(values: &mut Vec<u8>)
    ensures
        final(values)@.to_multiset() == old(values)@.to_multiset(),
        forall|i: int, j: int|
            0 <= i < j < final(values)@.len() ==> final(values)@[i] <= final(values)@[j],
{
    values.sort();
}

/// A sequence in ascending order that holds the same values as `values` is
/// `values` sorted.
proof fn lemma_ascending_is_sorted(sorted: Seq<u8>, values: Seq<u8>)
    requires
        sorted.to_multiset() == values.to_multiset(),
        forall|i: int, j: int| 0 <= i < j < sorted.len() ==> sorted[i] <= sorted[j],
    ensures
        sorted == values.sort_by(byte_leq()),
{
    assert(total_ordering(byte_leq()));
    assert(sorted_by(sorted, byte_leq()));
    values.lemma_sort_by_ensures(byte_leq());
    lemma_sorted_unique(sorted, values.sort_by(byte_leq()), byte_leq());
}

/// Each value that `subarea_values` picks is the value of `gray` at an index
/// that lies in `area`; the lemma returns such an index.
proof fn lemma_subarea_values_source(gray: Seq<u8>, area: SubArea, k: int) -> (i: int)
    requires
        0 <= k < subarea_values(gray, area).len(),
    ensures
        0 <= i < gray.len(),
        subarea_of(i) == area,
        gray[i] == subarea_values(gray, area)[k],
    decreases gray.len(),
{
    if subarea_of(gray.len() - 1) == area && k == subarea_values(gray, area).len() - 1 {
        gray.len() - 1
    } else {
        lemma_subarea_values_source(gray.drop_last(), area, k)
    }
}

/// The threshold of a quadrant is the brightness of one of the pixels of that
/// quadrant.
pub proof fn lemma_median_is_pixel(gray: Seq<u8>, area: SubArea)
    requires
        gray.len() == HASHLEN,
    ensures
        exists|i: int|
            0 <= i < HASHLEN && subarea_of(i) == area && #[trigger] gray[i] == subarea_median(
                gray,
                area,
            ),
{
    let values = subarea_values(gray, area);
    let sorted = values.sort_by(byte_leq());
    lemma_subarea_values_len(gray, area);
    assert(total_ordering(byte_leq()));
    values.lemma_sort_by_ensures(byte_leq());
    values.to_multiset_ensures();
    sorted.to_multiset_ensures();
    let m = sorted[(HASHLEN / 8) as int];
    assert(sorted.contains(m));
    assert(values.contains(m));
    let k = choose|k: int| 0 <= k < values.len() && values[k] == m;
    let i = lemma_subarea_values_source(gray, area, k);
    assert(gray[i] == subarea_median(gray, area));
}

/// Where every pixel has the same brightness, that is the threshold of each
/// quadrant.
pub proof fn lemma_constant_median(gray: Seq<u8>, area: SubArea, value: u8)
    requires
        gray.len() == HASHLEN,
        forall|i: int| 0 <= i < gray.len() ==> gray[i] == value,
    ensures
        subarea_median(gray, area) == value,
{
    lemma_median_is_pixel(gray, area);
}

/// The lower median of the pixels of one quadrant, which are handed over in
/// any order.
fn median_of(mut values: Vec<u8>) -> (median: u8)
    requires
        values@.len() == HASHLEN / 4,
    ensures
        median == rank_median(values@),
{
    let ghost unsorted = values@;
    sort_values(&mut values);
    proof {
        lemma_ascending_is_sorted(values@, unsorted);
        values@.to_multiset_ensures();
        unsorted.to_multiset_ensures();
    }
    values[HASHLEN / 8]
}

/// The thresholds of the four quadrants of `gray`, as a table with the
/// horizontal half first (`0` left, `1` right) and the vertical half second
/// (`0` top, `1` bottom).
pub fn subarea_medians(gray: &[u8; HASHLEN]) -> (medians: [[u8; 2]; 2])
    ensures
        medians[0][0] == subarea_median(gray@, SubArea::TopLeft),
        medians[1][0] == subarea_median(gray@, SubArea::TopRight),
        medians[0][1] == subarea_median(gray@, SubArea::BottomLeft),
        medians[1][1] == subarea_median(gray@, SubArea::BottomRight),
{
    let mut top_left: Vec<u8> = Vec::with_capacity(HASHLEN / 4);
    let mut top_right: Vec<u8> = Vec::with_capacity(HASHLEN / 4);
    let mut bot_left: Vec<u8> = Vec::with_capacity(HASHLEN / 4);
    let mut bot_right: Vec<u8> = Vec::with_capacity(HASHLEN / 4);

    for i in 0..HASHLEN
        invariant
            top_left@ == subarea_values(gray@.take(i as int), SubArea::TopLeft),
            top_right@ == subarea_values(gray@.take(i as int), SubArea::TopRight),
            bot_left@ == subarea_values(gray@.take(i as int), SubArea::BottomLeft),
            bot_right@ == subarea_values(gray@.take(i as int), SubArea::BottomRight),
    {
        proof {
            assert(gray@.take(i + 1).drop_last() == gray@.take(i as int));
        }
        match SubArea::at(i) {
            SubArea::TopLeft => top_left.push(gray[i]),
            SubArea::TopRight => top_right.push(gray[i]),
            SubArea::BottomLeft => bot_left.push(gray[i]),
            SubArea::BottomRight => bot_right.push(gray[i]),
        }
    }
    proof {
        assert(gray@.take(HASHLEN as int) == gray@);
        lemma_subarea_values_len(gray@, SubArea::TopLeft);
        lemma_subarea_values_len(gray@, SubArea::TopRight);
        lemma_subarea_values_len(gray@, SubArea::BottomLeft);
        lemma_subarea_values_len(gray@, SubArea::BottomRight);
    }
    [
        [median_of(top_left), median_of(bot_left)],
        [median_of(top_right), median_of(bot_right)],
    ]
}

} // verus!
