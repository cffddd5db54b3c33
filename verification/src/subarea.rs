//! The four quadrants: which pixel lies in which, and how many pixels each
//! one holds.

use vstd::prelude::*;
use crate::hash::SubArea;
use crate::{HASHLEN, SIZE};

verus! {

/// The quadrant of the pixel with index `i`, where the pixel in column `x` of
/// row `y` has the index `x + SIZE * y`. The left half holds the columns
/// below `SIZE / 2`, the top half the indices below `HASHLEN / 2`.
pub open spec fn subarea_of(i: int) -> SubArea {
    if i % (SIZE as int) < SIZE / 2 {
        if i < HASHLEN / 2 {
            SubArea::TopLeft
        } else {
            SubArea::BottomLeft
        }
    } else {
        if i < HASHLEN / 2 {
            SubArea::TopRight
        } else {
            SubArea::BottomRight
        }
    }
}

/// The top half, which holds the indices below `HASHLEN / 2`, is made of the
/// rows below `SIZE / 2`, and the left half of the columns below `SIZE / 2`.
pub proof fn lemma_subarea_of_coordinates(x: int, y: int)
    requires
        0 <= x < SIZE,
        0 <= y < SIZE,
    ensures
        subarea_of(x + SIZE * y) == if x < SIZE / 2 {
            if y < SIZE / 2 {
                SubArea::TopLeft
            } else {
                SubArea::BottomLeft
            }
        } else {
            if y < SIZE / 2 {
                SubArea::TopRight
            } else {
                SubArea::BottomRight
            }
        },
{
}

/// The values of `gray` at the indices that lie in `area`, in index order.
pub open spec fn subarea_values(gray: Seq<u8>, area: SubArea) -> Seq<u8>
    decreases gray.len(),
{
    if gray.len() == 0 {
        Seq::empty()
    } else if subarea_of(gray.len() - 1) == area {
        subarea_values(gray.drop_last(), area).push(gray.last())
    } else {
        subarea_values(gray.drop_last(), area)
    }
}

/// The indices below `n` that lie in `area`.
pub open spec fn subarea_indices(n: int, area: SubArea) -> Set<int> {
    Set::new(|i: int| 0 <= i < n && subarea_of(i) == area)
}

/// How many indices below `n` lie in the left half.
pub open spec fn left_count(n: int) -> int {
    (SIZE / 2) * (n / (SIZE as int)) + if n % (SIZE as int) < SIZE / 2 {
        n % (SIZE as int)
    } else {
        (SIZE / 2) as int
    }
}

/// How many indices below `n` lie in `area`, for `n` up to `HASHLEN`.
pub open spec fn subarea_count(n: int, area: SubArea) -> int {
    let top = if n < HASHLEN / 2 {
        n
    } else {
        (HASHLEN / 2) as int
    };
    match area {
        SubArea::TopLeft => left_count(top),
        SubArea::TopRight => top - left_count(top),
        SubArea::BottomLeft => left_count(n) - left_count(top),
        SubArea::BottomRight => (n - top) - (left_count(n) - left_count(top)),
    }
}

/// One more index adds one to the count of its own quadrant and nothing to
/// the others.
proof fn lemma_subarea_count_step(n: int, area: SubArea)
    requires
        0 <= n < HASHLEN,
    ensures
        subarea_count(n + 1, area) == subarea_count(n, area) + if subarea_of(n) == area {
            1int
        } else {
            0int
        },
{
}

/// `subarea_values` picks as many values as there are indices in the quadrant.
pub proof fn lemma_subarea_values_len(gray: Seq<u8>, area: SubArea)
    requires
        gray.len() <= HASHLEN,
    ensures
        subarea_values(gray, area).len() == subarea_count(gray.len() as int, area),
    decreases gray.len(),
{
    if gray.len() > 0 {
        lemma_subarea_values_len(gray.drop_last(), area);
        lemma_subarea_count_step(gray.len() - 1, area);
    }
}

/// The indices of a quadrant below `n` are finitely many, and
/// `subarea_count` counts them.
pub proof fn lemma_subarea_indices_len(n: int, area: SubArea)
    requires
        0 <= n <= HASHLEN,
    ensures
        subarea_indices(n, area).finite(),
        subarea_indices(n, area).len() == subarea_count(n, area),
    decreases n,
{
    if n == 0 {
        assert(subarea_indices(0, area) =~= Set::<int>::empty());
    } else {
        lemma_subarea_indices_len(n - 1, area);
        lemma_subarea_count_step(n - 1, area);
        if subarea_of(n - 1) == area {
            assert(subarea_indices(n, area) =~= subarea_indices(n - 1, area).insert(n - 1));
        } else {
            assert(subarea_indices(n, area) =~= subarea_indices(n - 1, area));
        }
    }
}

/// The four quadrants partition the pixel indices into parts of equal size:
/// every index below `HASHLEN` lies in the quadrant that `subarea_of` names
/// and in no other, and each quadrant holds `HASHLEN / 4` indices.
pub proof fn lemma_subareas_partition()
    ensures
        forall|i: int, area: SubArea|
            0 <= i < HASHLEN ==> (#[trigger] subarea_indices(HASHLEN as int, area).contains(i)
                <==> subarea_of(i) == area),
        forall|area: SubArea|
            (#[trigger] subarea_indices(HASHLEN as int, area)).finite() && subarea_indices(
                HASHLEN as int,
                area,
            ).len() == HASHLEN / 4,
{
    assert forall|area: SubArea|
        (#[trigger] subarea_indices(HASHLEN as int, area)).finite() && subarea_indices(
            HASHLEN as int,
            area,
        ).len() == HASHLEN / 4 by {
        lemma_subarea_indices_len(HASHLEN as int, area);
    }
}

} // verus!
