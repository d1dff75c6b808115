//! Arithmetic on longitudes that wrap around the sphere.
//!
//! Angles are whole numbers of micro-arcseconds, so a full turn is an exact
//! integer and adding or removing one never changes the direction that a
//! longitude stands for. At the entry of the tessellation a longitude lies in
//! `[0, FULL_TURN)`; inside it, the start of a span that crosses the zero
//! meridian is moved one turn down, so that the span stays contiguous.

use vstd::prelude::*;

verus! {

/// A full turn, 360 degrees, in micro-arcseconds.
pub const FULL_TURN: i64 = 1_296_000_000_000;

/// Half a turn, 180 degrees, in micro-arcseconds.
pub const HALF_TURN: i64 = 648_000_000_000;

/// How far beyond half a turn a span may reach before it is split: one
/// microradian, in micro-arcseconds.
pub const SPLIT_SLACK: i64 = 206_265;

/// Whether `lon` is a longitude in its canonical range.
pub open spec fn is_longitude(lon: int) -> bool {
    0 <= lon < FULL_TURN
}

/// The angle swept from `lon1` to `lon2` by increasing longitude, through the
/// zero meridian where `lon2` lies before `lon1`.
pub open spec fn forward_length(lon1: int, lon2: int) -> int {
    if lon1 > lon2 {
        lon2 + FULL_TURN - lon1
    } else {
        lon2 - lon1
    }
}

/// The longitude half way from `lon1` to `lon2`, rounded down.
pub open spec fn midpoint(lon1: int, lon2: int) -> int {
    (lon1 + lon2) / 2
}

/// The two halves, each as a start and a forward length, into which a span
/// of forward length `lon_len` from `lon1` is split at the antipode of its
/// start.
///
/// The halves meet half a turn after `lon1`, at a longitude brought back into
/// the canonical range; the start of the first half is moved along with it,
/// so that the first half ends where the second begins.
pub open spec fn antipode_halves(lon1: int, lon_len: int) -> ((int, int), (int, int)) {
    let lon_mid = if lon1 + HALF_TURN >= FULL_TURN {
        lon1 + HALF_TURN - FULL_TURN
    } else {
        lon1 + HALF_TURN
    };
    ((lon_mid - HALF_TURN, HALF_TURN as int), (lon_mid, lon_len - HALF_TURN))
}

/// Whether `lon0` lies in the directed interval from `lon1` to `lon2`.
///
/// Two longitudes no more than half a turn apart bound the plain interval
/// between them. Two that are further apart bound the interval that runs
/// the other way round, through the zero meridian. Either way the interval
/// holds its smaller bound and not its larger one.
pub open spec fn in_lon_range(lon0: int, lon1: int, lon2: int) -> bool {
    let dlon = lon2 - lon1;
    if dlon < 0 {
        (dlon >= -HALF_TURN) == (lon2 <= lon0 && lon0 < lon1)
    } else {
        (dlon <= HALF_TURN) == (lon1 <= lon0 && lon0 < lon2)
    }
}

/// Whether the edge from `lon1` to `lon2` runs towards increasing longitude:
/// directly, or through the zero meridian.
pub open spec fn runs_forward(lon1: int, lon2: int) -> bool {
    0 < lon2 - lon1 <= HALF_TURN || lon2 - lon1 < -HALF_TURN
}

/// Whether the edge from `lon1` to `lon2` runs towards decreasing longitude:
/// directly, or through the zero meridian.
pub open spec fn runs_backward(lon1: int, lon2: int) -> bool {
    -HALF_TURN <= lon2 - lon1 < 0 || lon2 - lon1 > HALF_TURN
}

/// The forward angular distance from `lon1` to `lon2`.
pub fn interval_length(lon1: i64, lon2: i64) -> (lon_len: i64)
    requires
        is_longitude(lon1 as int),
        is_longitude(lon2 as int),
    ensures
        lon_len == forward_length(lon1 as int, lon2 as int),
        0 <= lon_len < FULL_TURN,
{
    if lon1 > lon2 {
        lon2 + FULL_TURN - lon1
    } else {
        lon2 - lon1
    }
}

/// The longitude half way from `lon1` to `lon2`, rounded down.
pub fn halfway(lon1: i64, lon2: i64) -> (lon0: i64)
    ensures
        lon0 == midpoint(lon1 as int, lon2 as int),
{
    let sum: i128 = lon1 as i128 + lon2 as i128;
    // Division rounds towards zero: a negative sum is rounded down by hand.
    let half: i128 = if sum >= 0 {
        sum / 2
    } else {
        -((1 - sum) / 2)
    };
    half as i64
}

/// Splits the span of forward length `lon_len` from `lon1`, which reaches at
/// least half way round the sphere, at the antipode of `lon1`. Each half is
/// returned as its start and its forward length.
pub fn split_at_antipode(lon1: i64, lon_len: i64) -> (halves: ((i64, i64), (i64, i64)))
    requires
        is_longitude(lon1 as int),
        HALF_TURN <= lon_len < FULL_TURN,
    ensures
        ((halves.0.0 as int, halves.0.1 as int), (halves.1.0 as int, halves.1.1 as int))
            == antipode_halves(lon1 as int, lon_len as int),
{
    let lon_mid: i64 = if lon1 + HALF_TURN >= FULL_TURN {
        lon1 + HALF_TURN - FULL_TURN
    } else {
        lon1 + HALF_TURN
    };
    ((lon_mid - HALF_TURN, HALF_TURN), (lon_mid, lon_len - HALF_TURN))
}

/// Whether `lon0` lies in the directed interval from `lon1` to `lon2`.
pub fn is_in_lon_range(lon0: i64, lon1: i64, lon2: i64) -> (inside: bool)
    ensures
        inside == in_lon_range(lon0 as int, lon1 as int, lon2 as int),
{
    let dlon: i128 = lon2 as i128 - lon1 as i128;
    if dlon < 0 {
        (dlon >= -(HALF_TURN as i128)) == (lon2 <= lon0 && lon0 < lon1)
    } else {
        (dlon <= HALF_TURN as i128) == (lon1 <= lon0 && lon0 < lon2)
    }
}

/// The forward length between two canonical longitudes is less than a full
/// turn, and leads from the first to a longitude that stands for the second.
pub proof fn lemma_forward_length_wraps(lon1: int, lon2: int)
    requires
        is_longitude(lon1),
        is_longitude(lon2),
    ensures
        0 <= forward_length(lon1, lon2) < FULL_TURN,
        lon1 + forward_length(lon1, lon2) == lon2 || lon1 + forward_length(lon1, lon2) == lon2
            + FULL_TURN,
        forward_length(lon1, lon2) == 0 <==> lon1 == lon2,
{
}

/// The halves of a split put end to end give back the span: the first
/// starts at a longitude that stands for `lon1` and is half a turn long, the
/// second starts where the first ends, at a canonical longitude, and ends at
/// a longitude that stands for `lon2`; the two lengths add up to the forward
/// length of the span, and the second, measured between its own ends, is a
/// forward length of less than half a turn.
pub proof fn lemma_split_reconstructs_span(lon1: int, lon2: int)
    requires
        is_longitude(lon1),
        is_longitude(lon2),
        forward_length(lon1, lon2) >= HALF_TURN,
    ensures
        ({
            let lon_len = forward_length(lon1, lon2);
            let (first, second) = antipode_halves(lon1, lon_len);
            &&& first.0 == lon1 || first.0 == lon1 - FULL_TURN
            &&& first.0 + first.1 == second.0
            &&& is_longitude(second.0)
            &&& second.0 + second.1 == lon2 || second.0 + second.1 == lon2 + FULL_TURN
            &&& first.1 + second.1 == lon_len
            &&& first.1 == HALF_TURN
            &&& second.1 == forward_length(second.0, lon2)
            &&& 0 <= second.1 < HALF_TURN
        }),
{
}

/// Between two longitudes no more than half a turn apart, the test is the
/// plain half-open one: the smaller bound is inside, the larger is not.
pub proof fn lemma_plain_interval(lon0: int, lon1: int, lon2: int)
    requires
        -HALF_TURN <= lon2 - lon1 <= HALF_TURN,
    ensures
        lon1 <= lon2 ==> in_lon_range(lon0, lon1, lon2) == (lon1 <= lon0 < lon2),
        lon2 <= lon1 ==> in_lon_range(lon0, lon1, lon2) == (lon2 <= lon0 < lon1),
{
}

/// Between two longitudes more than half a turn apart, the interval is the
/// one through the zero meridian: what lies at or beyond the larger bound, or
/// before the smaller.
pub proof fn lemma_wrapping_interval(lon0: int, lon1: int, lon2: int)
    requires
        lon2 - lon1 > HALF_TURN || lon2 - lon1 < -HALF_TURN,
    ensures
        lon1 <= lon2 ==> in_lon_range(lon0, lon1, lon2) == (lon0 < lon1 || lon2 <= lon0),
        lon2 <= lon1 ==> in_lon_range(lon0, lon1, lon2) == (lon0 < lon2 || lon1 <= lon0),
{
}

/// An edge that runs forward holds its start and not its end; one that runs
/// backward holds its end and not its start.
pub proof fn lemma_edge_holds_one_end(lon1: int, lon2: int)
    ensures
        runs_forward(lon1, lon2) ==> in_lon_range(lon1, lon1, lon2) && !in_lon_range(
            lon2,
            lon1,
            lon2,
        ),
        runs_backward(lon1, lon2) ==> in_lon_range(lon2, lon1, lon2) && !in_lon_range(
            lon1,
            lon1,
            lon2,
        ),
{
}

/// A longitude at the vertex that two consecutive edges share, one of them
/// through the zero meridian or not, is counted exactly once where both edges
/// run the same way.
pub proof fn lemma_shared_vertex_counted_once(lon_a: int, lon_b: int, lon_c: int)
    requires
        runs_forward(lon_a, lon_b) && runs_forward(lon_b, lon_c) || runs_backward(lon_a, lon_b)
            && runs_backward(lon_b, lon_c),
    ensures
        in_lon_range(lon_b, lon_a, lon_b) != in_lon_range(lon_b, lon_b, lon_c),
{
}

/// A longitude at the vertex where a path turns back is counted by both of
/// the edges that meet there or by neither.
pub proof fn lemma_turning_vertex_counted_evenly(lon_a: int, lon_b: int, lon_c: int)
    requires
        runs_forward(lon_a, lon_b) && runs_backward(lon_b, lon_c) || runs_backward(lon_a, lon_b)
            && runs_forward(lon_b, lon_c),
    ensures
        in_lon_range(lon_b, lon_a, lon_b) == in_lon_range(lon_b, lon_b, lon_c),
{
}

} // verus!
