//! Linear interpolation between integer ranges.
use vstd::prelude::*;

verus! {

/// Bound on every argument of `map_range`, so the intermediate product
/// fits in `i64`.
pub const MAP_RANGE_BOUND: i64 = 1_000_000_000;

/// What `map_range` returns: the value carried linearly from the source
/// range onto the target range, or the target's start where the source
/// range is empty.
pub open spec fn spec_map_range(value: int, from_start: int, from_end: int, to_start: int, to_end: int) -> int {
    if from_end == from_start {
        to_start
    } else {
        to_start + (value - from_start) * (to_end - to_start) / (from_end - from_start)
    }
}

/// Map `value` from the range `from_start..from_end` onto
/// `to_start..to_end`. A zero-width source range yields `to_start`.
///
/// Interpolation only: the value must lie inside the source range and
/// the target range must ascend — the domain every caller here uses.
/// The magnitude bounds keep the intermediate product inside `i64`.
pub fn map_range(value: i64, from_start: i64, from_end: i64, to_start: i64, to_end: i64) -> (r: i64)
    requires
        from_start <= value <= from_end,
        to_start <= to_end,
        -MAP_RANGE_BOUND <= from_start,
        from_end <= MAP_RANGE_BOUND,
        -MAP_RANGE_BOUND <= to_start,
        to_end <= MAP_RANGE_BOUND,
    ensures
        r == spec_map_range(value as int, from_start as int, from_end as int, to_start as int, to_end as int),
        to_start <= r <= to_end,
{
    if from_end == from_start {
        return to_start;
    }
    let num = value - from_start;
    let span = from_end - from_start;
    let to_span = to_end - to_start;
    proof {
        assert(0 <= num * to_span <= span * to_span && span * to_span <= 0x7fff_ffff_ffff_ffff
            && (num as int) * (to_span as int) / (span as int) <= to_span
            && (num as int) * (to_span as int) / (span as int) >= 0)
            by (nonlinear_arith)
            requires
                0 <= num <= span,
                0 < span <= 2_000_000_000,
                0 <= to_span <= 2_000_000_000,
        ;
    }
    to_start + num * to_span / span
}

} // verus!
