//! Location of the edge of a projection's domain along a parallel.
//!
//! Given a longitude at which the projection is defined and one at which it
//! is not, bisection narrows the pair down until the two are no further apart
//! than a tolerance that follows the camera's aperture: coarse when zoomed
//! out, fine when zoomed in.

use vstd::prelude::*;
use crate::longitude::halfway;
use crate::longitude::midpoint;
use crate::projection::follows;
use crate::projection::total;
use crate::vertex::Vertex;

verus! {

/// The edge of the domain is located to within the aperture divided by this
/// number, that is to two hundredths of the field of view.
pub const TOLERANCE_DIVISOR: i64 = 50;

/// The tolerance of the boundary search for a camera of the given aperture,
/// never finer than one micro-arcsecond, the resolution of a longitude.
pub open spec fn boundary_tolerance(aperture: int) -> int {
    if aperture < TOLERANCE_DIVISOR {
        1
    } else {
        aperture / (TOLERANCE_DIVISOR as int)
    }
}

/// Angular distance between two longitudes of one contiguous span.
pub open spec fn separation(lon1: int, lon2: int) -> int {
    if lon1 < lon2 {
        lon2 - lon1
    } else {
        lon1 - lon2
    }
}

/// The pair on which bisection from `(valid, invalid)` ends: the last
/// longitude taken for defined, then the last taken for undefined.
///
/// While the two are further apart than `tolerance`, and than one
/// micro-arcsecond, the midpoint replaces `valid` where the chart is defined
/// there and `invalid` where it is not.
pub open spec fn bracket(
    chart: spec_fn(int, int) -> Option<Vertex>,
    lat: int,
    valid: int,
    invalid: int,
    tolerance: int,
) -> (int, int)
    decreases separation(valid, invalid),
{
    if separation(valid, invalid) <= tolerance || separation(valid, invalid) <= 1 {
        (valid, invalid)
    } else if chart(midpoint(valid, invalid), lat) is Some {
        bracket(chart, lat, midpoint(valid, invalid), invalid, tolerance)
    } else {
        bracket(chart, lat, valid, midpoint(valid, invalid), tolerance)
    }
}

/// A pair of longitudes with the smaller one first.
pub open spec fn ordered(pair: (int, int)) -> (int, int) {
    if pair.0 <= pair.1 {
        pair
    } else {
        (pair.1, pair.0)
    }
}

/// The part of the span between `valid` and `invalid` that is kept for
/// drawing: from `valid` to the last longitude that bisection took for
/// defined, the smaller one first.
pub open spec fn valid_span(
    chart: spec_fn(int, int) -> Option<Vertex>,
    lat: int,
    valid: int,
    invalid: int,
    tolerance: int,
) -> (int, int) {
    let reached = bracket(chart, lat, valid, invalid, tolerance).0;
    if valid > invalid {
        (reached, valid)
    } else {
        (valid, reached)
    }
}

/// The tolerance of the boundary search for a camera of the given aperture.
pub fn tolerance_for(aperture: i64) -> (tolerance: i64)
    ensures
        tolerance == boundary_tolerance(aperture as int),
        tolerance >= 1,
{
    if aperture < TOLERANCE_DIVISOR {
        1
    } else {
        aperture / TOLERANCE_DIVISOR
    }
}

/// Whether two longitudes are further apart than `tolerance`.
fn further_apart(lon1: i64, lon2: i64, tolerance: i64) -> (apart: bool)
    ensures
        apart == (separation(lon1 as int, lon2 as int) > tolerance),
{
    let gap: i128 = if lon1 < lon2 {
        lon2 as i128 - lon1 as i128
    } else {
        lon1 as i128 - lon2 as i128
    };
    gap > tolerance as i128
}

/// Bisects between `valid_lon`, where the projection is taken to be defined,
/// and `invalid_lon`, where it is taken to be undefined, on the parallel at
/// `lat`, and returns the last longitude found defined and the last found
/// undefined, in that order.
fn bisect<F: Fn(i64, i64) -> Option<Vertex>>(
    lat: i64,
    valid_lon: i64,
    invalid_lon: i64,
    projection: &F,
    tolerance: i64,
) -> (ends: (i64, i64))
    requires
        total(*projection),
        tolerance >= 1,
    ensures
        separation(ends.0 as int, ends.1 as int) <= tolerance,
        valid_lon <= invalid_lon ==> valid_lon <= ends.0 <= ends.1 <= invalid_lon,
        valid_lon > invalid_lon ==> invalid_lon <= ends.1 < ends.0 <= valid_lon,
        forall|chart: spec_fn(int, int) -> Option<Vertex>| #[trigger]
            follows(*projection, chart) ==> (ends.0 as int, ends.1 as int) == bracket(
                chart,
                lat as int,
                valid_lon as int,
                invalid_lon as int,
                tolerance as int,
            ),
{
    let mut l_valid: i64 = valid_lon;
    let mut l_invalid: i64 = invalid_lon;
    while further_apart(l_valid, l_invalid, tolerance)
        invariant
            total(*projection),
            tolerance >= 1,
            valid_lon <= invalid_lon ==> valid_lon <= l_valid <= l_invalid <= invalid_lon,
            valid_lon > invalid_lon ==> invalid_lon <= l_invalid < l_valid <= valid_lon,
            forall|chart: spec_fn(int, int) -> Option<Vertex>| #[trigger]
                follows(*projection, chart) ==> bracket(
                    chart,
                    lat as int,
                    l_valid as int,
                    l_invalid as int,
                    tolerance as int,
                ) == bracket(
                    chart,
                    lat as int,
                    valid_lon as int,
                    invalid_lon as int,
                    tolerance as int,
                ),
        decreases separation(l_valid as int, l_invalid as int),
    {
        let lm = halfway(l_valid, l_invalid);
        if projection(lm, lat).is_some() {
            l_valid = lm;
        } else {
            l_invalid = lm;
        }
    }
    (l_valid, l_invalid)
}

/// Locates the edge of the projection's domain between `valid_lon` and
/// `invalid_lon` on the parallel at `lat`, and returns the two longitudes on
/// which bisection ends, the smaller one first.
///
/// The search is meant for a `valid_lon` at which the projection is defined
/// and an `invalid_lon` at which it is not; it ends on any pair, and then
/// says nothing of an edge.
pub fn locate_boundary<F: Fn(i64, i64) -> Option<Vertex>>(
    lat: i64,
    valid_lon: i64,
    invalid_lon: i64,
    projection: &F,
    aperture: i64,
) -> (bounds: (i64, i64))
    requires
        total(*projection),
    ensures
        bounds.0 <= bounds.1,
        bounds.1 - bounds.0 <= boundary_tolerance(aperture as int),
        valid_lon <= invalid_lon ==> valid_lon <= bounds.0 && bounds.1 <= invalid_lon,
        valid_lon > invalid_lon ==> invalid_lon <= bounds.0 && bounds.1 <= valid_lon,
        forall|chart: spec_fn(int, int) -> Option<Vertex>| #[trigger]
            follows(*projection, chart) ==> (bounds.0 as int, bounds.1 as int) == ordered(
                bracket(
                    chart,
                    lat as int,
                    valid_lon as int,
                    invalid_lon as int,
                    boundary_tolerance(aperture as int),
                ),
            ),
{
    let ends = bisect(lat, valid_lon, invalid_lon, projection, tolerance_for(aperture));
    if ends.0 <= ends.1 {
        ends
    } else {
        (ends.1, ends.0)
    }
}

/// Clips the span between `valid_lon` and `invalid_lon` of the parallel at
/// `lat` to the projection's domain: returns the span from `valid_lon` to the
/// last longitude that the boundary search found defined, the smaller one
/// first.
pub fn sub_valid_domain<F: Fn(i64, i64) -> Option<Vertex>>(
    lat: i64,
    valid_lon: i64,
    invalid_lon: i64,
    projection: &F,
    aperture: i64,
) -> (span: (i64, i64))
    requires
        total(*projection),
    ensures
        span.0 <= span.1,
        valid_lon <= invalid_lon ==> span.0 == valid_lon && span.1 <= invalid_lon,
        valid_lon > invalid_lon ==> span.1 == valid_lon && invalid_lon < span.0,
        forall|chart: spec_fn(int, int) -> Option<Vertex>| #[trigger]
            follows(*projection, chart) ==> (span.0 as int, span.1 as int) == valid_span(
                chart,
                lat as int,
                valid_lon as int,
                invalid_lon as int,
                boundary_tolerance(aperture as int),
            ),
{
    let ends = bisect(lat, valid_lon, invalid_lon, projection, tolerance_for(aperture));
    if valid_lon > invalid_lon {
        (ends.0, valid_lon)
    } else {
        (valid_lon, ends.0)
    }
}

/// Bisection ends within tolerance and between the longitudes it started
/// from, whatever the chart: the longitude taken for defined stays on the
/// side of `valid`, the one taken for undefined on the side of `invalid`.
pub proof fn lemma_bracket_narrows(
    chart: spec_fn(int, int) -> Option<Vertex>,
    lat: int,
    valid: int,
    invalid: int,
    tolerance: int,
)
    requires
        tolerance >= 1,
    ensures
        ({
            let (reached, missed) = bracket(chart, lat, valid, invalid, tolerance);
            &&& separation(reached, missed) <= tolerance
            &&& valid <= invalid ==> valid <= reached <= missed <= invalid
            &&& valid >= invalid ==> invalid <= missed <= reached <= valid
        }),
    decreases separation(valid, invalid),
{
    if separation(valid, invalid) > tolerance {
        let middle = midpoint(valid, invalid);
        if chart(middle, lat) is Some {
            lemma_bracket_narrows(chart, lat, middle, invalid, tolerance);
        } else {
            lemma_bracket_narrows(chart, lat, valid, middle, tolerance);
        }
    }
}

/// Started from a longitude at which the chart is defined and one at which
/// it is not, bisection ends on such a pair: the edge of the domain lies
/// between the two longitudes that it returns.
pub proof fn lemma_bracket_holds_edge(
    chart: spec_fn(int, int) -> Option<Vertex>,
    lat: int,
    valid: int,
    invalid: int,
    tolerance: int,
)
    requires
        chart(valid, lat) is Some,
        chart(invalid, lat) is None,
    ensures
        ({
            let (reached, missed) = bracket(chart, lat, valid, invalid, tolerance);
            &&& chart(reached, lat) is Some
            &&& chart(missed, lat) is None
        }),
    decreases separation(valid, invalid),
{
    if !(separation(valid, invalid) <= tolerance || separation(valid, invalid) <= 1) {
        let middle = midpoint(valid, invalid);
        if chart(middle, lat) is Some {
            lemma_bracket_holds_edge(chart, lat, middle, invalid, tolerance);
        } else {
            lemma_bracket_holds_edge(chart, lat, valid, middle, tolerance);
        }
    }
}

/// Where the chart is defined on a parallel exactly below the longitude
/// `edge`, and the search starts from a defined longitude below the edge and
/// an undefined one at or above it, the two longitudes returned are no
/// further apart than the tolerance and the edge lies between them: above
/// the first and not above the second.
pub proof fn lemma_hard_edge_located(
    chart: spec_fn(int, int) -> Option<Vertex>,
    lat: int,
    valid: int,
    invalid: int,
    aperture: int,
    edge: int,
)
    requires
        forall|lon: int| #[trigger] chart(lon, lat) is Some <==> lon < edge,
        valid < edge <= invalid,
    ensures
        ({
            let tolerance = boundary_tolerance(aperture);
            let (low, high) = ordered(bracket(chart, lat, valid, invalid, tolerance));
            &&& high - low <= tolerance
            &&& low < edge <= high
        }),
{
    let tolerance = boundary_tolerance(aperture);
    lemma_bracket_narrows(chart, lat, valid, invalid, tolerance);
    lemma_bracket_holds_edge(chart, lat, valid, invalid, tolerance);
}

/// The span kept for drawing lies within the span that was searched, starts
/// or ends at `valid`, and reaches to within the tolerance of a longitude
/// that bisection found undefined; where the chart is defined at `valid` and
/// undefined at `invalid`, it is defined at both ends of the span kept.
pub proof fn lemma_valid_span_is_clipped(
    chart: spec_fn(int, int) -> Option<Vertex>,
    lat: int,
    valid: int,
    invalid: int,
    tolerance: int,
)
    requires
        tolerance >= 1,
    ensures
        ({
            let kept = valid_span(chart, lat, valid, invalid, tolerance);
            let (reached, missed) = bracket(chart, lat, valid, invalid, tolerance);
            &&& kept.0 <= kept.1
            &&& valid <= invalid ==> kept == (valid, reached) && reached <= invalid
            &&& valid > invalid ==> kept == (reached, valid) && invalid <= reached
            &&& separation(reached, missed) <= tolerance
            &&& chart(valid, lat) is Some && chart(invalid, lat) is None ==> chart(kept.0, lat) is Some
                && chart(kept.1, lat) is Some && chart(missed, lat) is None
        }),
{
    lemma_bracket_narrows(chart, lat, valid, invalid, tolerance);
    if chart(valid, lat) is Some && chart(invalid, lat) is None {
        lemma_bracket_holds_edge(chart, lat, valid, invalid, tolerance);
    }
}

} // verus!
