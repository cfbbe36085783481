//! Overlap of half-open image ranges.

use vstd::prelude::*;

use crate::pe::types::UnavailablePeRange;

verus! {

/// The end of a range, at most the end of the address range.
pub open spec fn saturated_end(rva: int, size: int) -> int {
    if rva + size > usize::MAX {
        usize::MAX as int
    } else {
        rva + size
    }
}

/// Whether a half-open range holds the byte at `at`.
pub open spec fn range_holds(rva: int, size: int, at: int) -> bool {
    rva <= at < rva + size
}

/// Whether two half-open ranges overlap: neither is empty, and each begins before the other ends.
pub open spec fn overlap(left_rva: int, left_size: int, right_rva: int, right_size: int) -> bool {
    &&& left_size > 0
    &&& right_size > 0
    &&& left_rva < right_rva + right_size
    &&& right_rva < left_rva + left_size
}

/// Reports whether two half-open image ranges share at least one byte.
pub fn ranges_overlap(left_rva: usize, left_size: usize, right_rva: usize, right_size: usize) -> (r:
    bool)
    ensures
        r == overlap(left_rva as int, left_size as int, right_rva as int, right_size as int),
        r <==> exists|at: int| #[trigger]
            range_holds(left_rva as int, left_size as int, at) && range_holds(
                right_rva as int,
                right_size as int,
                at,
            ),
{
    proof {
        law_overlap_means_shared_byte(
            left_rva as int,
            left_size as int,
            right_rva as int,
            right_size as int,
        );
    }
    if left_size == 0 || right_size == 0 {
        return false;
    }
    if left_rva <= right_rva {
        right_rva - left_rva < left_size
    } else {
        left_rva - right_rva < right_size
    }
}

/// Two ranges overlap exactly when they share a byte.
pub proof fn law_overlap_means_shared_byte(
    left_rva: int,
    left_size: int,
    right_rva: int,
    right_size: int,
)
    ensures
        overlap(left_rva, left_size, right_rva, right_size) <==> exists|at: int| #[trigger]
            range_holds(left_rva, left_size, at) && range_holds(right_rva, right_size, at),
{
    let at = if left_rva >= right_rva {
        left_rva
    } else {
        right_rva
    };
    if overlap(left_rva, left_size, right_rva, right_size) {
        assert(range_holds(left_rva, left_size, at) && range_holds(right_rva, right_size, at));
    }
}

/// Whether the range shares no byte with any of `ranges`.
pub open spec fn avoids_all(ranges: Seq<UnavailablePeRange>, rva: int, size: int) -> bool {
    forall|i: int|
        0 <= i < ranges.len() ==> !overlap(
            rva,
            size,
            (#[trigger] ranges[i]).rva as int,
            ranges[i].size as int,
        )
}

/// Reports whether a range overlaps none of the unavailable ranges.
pub fn avoids_unavailable(ranges: &[UnavailablePeRange], rva: usize, size: usize) -> (r: bool)
    ensures
        r == avoids_all(ranges@, rva as int, size as int),
{
    let mut index: usize = 0;
    while index < ranges.len()
        invariant
            index <= ranges@.len(),
            forall|i: int|
                0 <= i < index ==> !overlap(
                    rva as int,
                    size as int,
                    (#[trigger] ranges@[i]).rva as int,
                    ranges@[i].size as int,
                ),
        decreases ranges.len() - index,
    {
        let ghost seen = ranges@[index as int];
        if ranges_overlap(rva, size, ranges[index].rva, ranges[index].size) {
            assert(overlap(rva as int, size as int, seen.rva as int, seen.size as int));
            return false;
        }
        index += 1;
    }
    true
}

} // verus!
