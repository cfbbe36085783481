//! Alignment arithmetic.

use vstd::prelude::*;

verus! {

/// Whether `n` is a power of two.
pub open spec fn power_of_two(n: nat) -> bool
    decreases n,
{
    n == 1 || (n > 1 && n % 2 == 0 && power_of_two(n / 2))
}

/// The least multiple of `alignment` that is not below `value`.
pub open spec fn align_up(value: int, alignment: int) -> int {
    if value % alignment == 0 {
        value
    } else {
        value - value % alignment + alignment
    }
}

/// `align_up` is the least multiple of the alignment that is not below the value.
pub proof fn lemma_align_up(value: int, alignment: int)
    requires
        0 <= value,
        0 < alignment,
    ensures
        value <= align_up(value, alignment) < value + alignment,
        align_up(value, alignment) % alignment == 0,
{
    assert(0 <= value % alignment < alignment);
    if value % alignment != 0 {
        let q = value / alignment;
        assert(value == alignment * q + value % alignment) by (nonlinear_arith)
            requires q == value / alignment, alignment > 0;
        let top = align_up(value, alignment);
        assert(top == (q + 1) * alignment) by (nonlinear_arith)
            requires top == value - value % alignment + alignment,
                value == alignment * q + value % alignment;
        assert(((q + 1) * alignment) % alignment == 0) by (nonlinear_arith)
            requires alignment > 0;
    }
}

/// A multiple of the alignment that is not below the value is not below `align_up`.
pub proof fn lemma_align_up_least(value: int, alignment: int, other: int)
    requires
        0 <= value <= other,
        0 < alignment,
        other % alignment == 0,
    ensures
        align_up(value, alignment) <= other,
{
    if value % alignment != 0 {
        let q = value / alignment;
        let p = other / alignment;
        let rem = value % alignment;
        assert(value == alignment * q + rem && 0 <= rem < alignment) by (nonlinear_arith)
            requires q == value / alignment, rem == value % alignment, alignment > 0;
        assert(other == alignment * p) by (nonlinear_arith)
            requires p == other / alignment, other % alignment == 0, alignment > 0;
        assert(p >= q + 1) by (nonlinear_arith)
            requires alignment * q + rem <= alignment * p, rem > 0, alignment > 0;
        assert(alignment * p >= alignment * (q + 1)) by (nonlinear_arith)
            requires p >= q + 1, alignment > 0;
        assert(alignment * (q + 1) == alignment * q + alignment) by (nonlinear_arith);
    }
}

/// Reports whether `value` is a power of two.
pub fn is_power_of_two(value: usize) -> (r: bool)
    ensures
        r == power_of_two(value as nat),
{
    let mut rest: usize = value;
    while rest > 1 && rest % 2 == 0
        invariant
            power_of_two(rest as nat) == power_of_two(value as nat),
        decreases rest,
    {
        rest = rest / 2;
    }
    rest == 1
}

/// Rounds `value` up to a multiple of `alignment`; `None` for a zero alignment or a result above
/// `usize::MAX`.
pub fn checked_align_up(value: usize, alignment: usize) -> (r: Option<usize>)
    ensures
        r == (if alignment == 0 || align_up(value as int, alignment as int) > usize::MAX {
            None
        } else {
            Some(align_up(value as int, alignment as int) as usize)
        }),
{
    if alignment == 0 {
        return None;
    }
    let rest: usize = value % alignment;
    if rest == 0 {
        return Some(value);
    }
    proof {
        assert(rest <= value) by (nonlinear_arith)
            requires rest == value % alignment, alignment > 0, value >= 0;
    }
    (value - rest).checked_add(alignment)
}

/// The smaller of two values.
pub fn min_usize(left: usize, right: usize) -> (r: usize)
    ensures
        r == (if left <= right { left } else { right }),
{
    if left <= right {
        left
    } else {
        right
    }
}

} // verus!
