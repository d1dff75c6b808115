//! Projection of an arc of a parallel onto the device plane.
//!
//! The arc runs from one longitude to another by increasing longitude. An
//! arc of more than half a turn is cut at the antipode of its start, each
//! part is clipped to the domain of the projection where one of its ends
//! falls outside, and what remains is refined into line segments.

use vstd::prelude::*;
use crate::boundary::boundary_tolerance;
use crate::boundary::lemma_valid_span_is_clipped;
use crate::boundary::sub_valid_domain;
use crate::boundary::valid_span;
use crate::longitude::antipode_halves;
use crate::longitude::forward_length;
use crate::longitude::FULL_TURN;
use crate::longitude::HALF_TURN;
use crate::longitude::interval_length;
use crate::longitude::is_longitude;
use crate::longitude::split_at_antipode;
use crate::longitude::SPLIT_SLACK;
use crate::projection::follows;
use crate::projection::total;
use crate::subdivide::joins;
use crate::subdivide::lemma_joins_append;
use crate::subdivide::lemma_seeded_of_point;
use crate::subdivide::lemma_seeded_on_span;
use crate::subdivide::lemma_seeded_within_budget;
use crate::subdivide::lemma_seeds_tile_span;
use crate::subdivide::lemma_segment_budget_step;
use crate::subdivide::lemma_straight_seeds;
use crate::subdivide::lemma_unbroken_seeded_joins;
use crate::subdivide::seed_bound;
use crate::subdivide::SEED_INTERVALS;
use crate::subdivide::seeded;
use crate::subdivide::straight_seed;
use crate::subdivide::subdivide_multi;
use crate::subdivide::unbroken;
use crate::subdivide::unbroken_seeds;
use crate::vertex::Vertex;

verus! {

/// The largest number of segments drawn for a span that is not split: the
/// budget of depth zero for each seed interval.
pub const MAX_SPAN_SEGMENTS: usize = 80;

/// The ends between which a span of forward length `lon_len` from `lon1` is
/// drawn: `lon1` and `lon1 + lon_len`, both moved one turn down where the
/// span reaches beyond a full turn, so that the pair stays contiguous.
pub open spec fn span_ends(lon1: int, lon_len: int) -> (int, int) {
    if lon1 + lon_len > FULL_TURN {
        (lon1 - FULL_TURN, lon1 + lon_len - FULL_TURN)
    } else {
        (lon1, lon1 + lon_len)
    }
}

/// The vertices drawn for the span of forward length `lon_len` from `lon1`
/// on the parallel at `lat`.
///
/// Where the chart is defined at both ends the whole span is refined. Where
/// it is defined at one end only, the span is first clipped to the part that
/// the boundary search finds defined. Where it is defined at neither end,
/// nothing is drawn.
pub open spec fn span_vertices(
    chart: spec_fn(int, int) -> Option<Vertex>,
    lat: int,
    lon1: int,
    lon_len: int,
    aperture: int,
) -> Seq<Vertex> {
    let (start, end) = span_ends(lon1, lon_len);
    let tolerance = boundary_tolerance(aperture);
    if chart(start, lat) is Some && chart(end, lat) is Some {
        seeded(chart, lat, start, end)
    } else if chart(end, lat) is Some {
        let kept = valid_span(chart, lat, end, start, tolerance);
        seeded(chart, lat, kept.0, kept.1)
    } else if chart(start, lat) is Some {
        let kept = valid_span(chart, lat, start, end, tolerance);
        seeded(chart, lat, kept.0, kept.1)
    } else {
        Seq::empty()
    }
}

/// The vertices drawn for the arc from `lon1` to `lon2` of the parallel at
/// `lat`, two for each segment, in the order in which the arc runs.
///
/// An arc longer than half a turn and the slack is drawn as its two halves,
/// the one that starts at `lon1` first.
pub open spec fn arc(
    chart: spec_fn(int, int) -> Option<Vertex>,
    lat: int,
    lon1: int,
    lon2: int,
    aperture: int,
) -> Seq<Vertex> {
    let lon_len = forward_length(lon1, lon2);
    if lon_len > HALF_TURN + SPLIT_SLACK {
        let (first, second) = antipode_halves(lon1, lon_len);
        span_vertices(chart, lat, first.0, first.1, aperture) + span_vertices(
            chart,
            lat,
            second.0,
            second.1,
            aperture,
        )
    } else {
        span_vertices(chart, lat, lon1, lon_len, aperture)
    }
}

/// Whether `vertices` is what a projection that computes some chart is bound
/// to return for the arc from `lon1` to `lon2` of the parallel at `lat`.
pub open spec fn drawn<F: Fn(i64, i64) -> Option<Vertex>>(
    projection: F,
    lat: int,
    lon1: int,
    lon2: int,
    aperture: int,
    vertices: Seq<Vertex>,
) -> bool {
    forall|chart: spec_fn(int, int) -> Option<Vertex>| #[trigger]
        follows(projection, chart) ==> vertices == arc(chart, lat, lon1, lon2, aperture)
}

/// Draws the span of forward length `lon_len` from `lon1` on the parallel at
/// `lat`. The end of the span, `lon1 + lon_len`, has to fit a longitude.
pub fn project_span<F: Fn(i64, i64) -> Option<Vertex>>(
    lat: i64,
    lon1: i64,
    lon_len: i64,
    aperture: i64,
    projection: &F,
) -> (vertices: Vec<Vertex>)
    requires
        i64::MIN <= lon1 + lon_len <= i64::MAX,
        total(*projection),
    ensures
        vertices@.len() % 2 == 0,
        vertices@.len() <= 2 * MAX_SPAN_SEGMENTS,
        forall|chart: spec_fn(int, int) -> Option<Vertex>| #[trigger]
            follows(*projection, chart) ==> vertices@ == span_vertices(
                chart,
                lat as int,
                lon1 as int,
                lon_len as int,
                aperture as int,
            ),
{
    let mut vertices: Vec<Vertex> = Vec::new();
    proof {
        lemma_segment_budget_step(0);
    }
    if lon_len == 0 {
        // Refinement would sample one point over and over, and find nothing.
        proof {
            assert forall|chart: spec_fn(int, int) -> Option<Vertex>| #[trigger]
                follows(*projection, chart) implies vertices@ == span_vertices(
                chart,
                lat as int,
                lon1 as int,
                lon_len as int,
                aperture as int,
            ) by {
                lemma_seeded_of_point(
                    chart,
                    lat as int,
                    span_ends(lon1 as int, lon_len as int).0,
                    SEED_INTERVALS as nat,
                );
            }
        }
        return vertices;
    }
    let mut start: i64 = lon1;
    let mut end: i64 = lon1 + lon_len;
    // The span can cross the zero meridian, but not both it and its antipode.
    if end > FULL_TURN {
        end -= FULL_TURN;
        start -= FULL_TURN;
    }
    let v1 = projection(start, lat);
    let v2 = projection(end, lat);
    match (v1, v2) {
        (Some(_), Some(_)) => {
            subdivide_multi(&mut vertices, lat, start, end, projection);
        },
        (None, Some(_)) => {
            let (start, end) = sub_valid_domain(lat, end, start, projection, aperture);
            subdivide_multi(&mut vertices, lat, start, end, projection);
        },
        (Some(_), None) => {
            let (start, end) = sub_valid_domain(lat, start, end, projection, aperture);
            subdivide_multi(&mut vertices, lat, start, end, projection);
        },
        (None, None) => {},
    }
    vertices
}

/// Draws the arc from `lon1` to `lon2` of the parallel at `lat` as line
/// segments of the device plane, and returns their ends, two for each
/// segment, in the order in which the arc runs.
///
/// `aperture` is the camera's field of view, which sets how finely the edge
/// of the projection's domain is located. No more than twice
/// `MAX_SPAN_SEGMENTS` segments are drawn, and no more than
/// `MAX_SPAN_SEGMENTS` for an arc that is not split.
pub fn project<F: Fn(i64, i64) -> Option<Vertex>>(
    lat: i64,
    lon1: i64,
    lon2: i64,
    aperture: i64,
    projection: &F,
) -> (vertices: Vec<Vertex>)
    requires
        is_longitude(lon1 as int),
        is_longitude(lon2 as int),
        total(*projection),
    ensures
        vertices@.len() % 2 == 0,
        vertices@.len() <= 4 * MAX_SPAN_SEGMENTS,
        forward_length(lon1 as int, lon2 as int) <= HALF_TURN + SPLIT_SLACK ==> vertices@.len() <= 2
            * MAX_SPAN_SEGMENTS,
        drawn(*projection, lat as int, lon1 as int, lon2 as int, aperture as int, vertices@),
{
    let lon_len = interval_length(lon1, lon2);
    if lon_len > HALF_TURN + SPLIT_SLACK {
        let (first, second) = split_at_antipode(lon1, lon_len);
        let mut vertices = project_span(lat, first.0, first.1, aperture, projection);
        let mut second_half = project_span(lat, second.0, second.1, aperture, projection);
        vertices.append(&mut second_half);
        vertices
    } else {
        project_span(lat, lon1, lon_len, aperture, projection)
    }
}

/// Whether `lon` stands for a point of the arc of forward length `lon_len`
/// from `lon1`: going forward from `lon1`, it is met within `lon_len`.
pub open spec fn within_arc(lon1: int, lon_len: int, lon: int) -> bool {
    (lon - lon1) % (FULL_TURN as int) <= lon_len
}

/// Whether `v` is where the chart puts some point of the arc of forward
/// length `lon_len` from `lon1` on the parallel at `lat`.
pub open spec fn on_arc(
    chart: spec_fn(int, int) -> Option<Vertex>,
    lat: int,
    lon1: int,
    lon_len: int,
    v: Vertex,
) -> bool {
    exists|lon: int| within_arc(lon1, lon_len, lon) && #[trigger] chart(lon, lat) == Some(v)
}

/// A span is drawn in whole segments, no more of them than an unsplit span
/// may have.
pub proof fn lemma_span_within_budget(
    chart: spec_fn(int, int) -> Option<Vertex>,
    lat: int,
    lon1: int,
    lon_len: int,
    aperture: int,
)
    ensures
        span_vertices(chart, lat, lon1, lon_len, aperture).len() % 2 == 0,
        span_vertices(chart, lat, lon1, lon_len, aperture).len() <= 2 * MAX_SPAN_SEGMENTS,
{
    let (start, end) = span_ends(lon1, lon_len);
    let tolerance = boundary_tolerance(aperture);
    let toward_start = valid_span(chart, lat, end, start, tolerance);
    let toward_end = valid_span(chart, lat, start, end, tolerance);
    lemma_segment_budget_step(0);
    lemma_seeded_within_budget(chart, lat, start, end, SEED_INTERVALS as nat);
    lemma_seeded_within_budget(
        chart,
        lat,
        toward_start.0,
        toward_start.1,
        SEED_INTERVALS as nat,
    );
    lemma_seeded_within_budget(chart, lat, toward_end.0, toward_end.1, SEED_INTERVALS as nat);
}

/// An arc is drawn in whole segments: no more than an unsplit span may have
/// where the arc is not split, and no more than twice as many where it is.
pub proof fn lemma_arc_within_budget(
    chart: spec_fn(int, int) -> Option<Vertex>,
    lat: int,
    lon1: int,
    lon2: int,
    aperture: int,
)
    ensures
        arc(chart, lat, lon1, lon2, aperture).len() % 2 == 0,
        arc(chart, lat, lon1, lon2, aperture).len() <= 4 * MAX_SPAN_SEGMENTS,
        forward_length(lon1, lon2) <= HALF_TURN + SPLIT_SLACK ==> arc(
            chart,
            lat,
            lon1,
            lon2,
            aperture,
        ).len() <= 2 * MAX_SPAN_SEGMENTS,
{
    let lon_len = forward_length(lon1, lon2);
    let (first, second) = antipode_halves(lon1, lon_len);
    lemma_span_within_budget(chart, lat, lon1, lon_len, aperture);
    lemma_span_within_budget(chart, lat, first.0, first.1, aperture);
    lemma_span_within_budget(chart, lat, second.0, second.1, aperture);
}

/// Drawing is a function of its arguments: two polylines drawn for the same
/// arc, with the same aperture, through a projection that computes a chart,
/// are equal.
pub proof fn lemma_drawn_is_determined<F: Fn(i64, i64) -> Option<Vertex>>(
    projection: F,
    chart: spec_fn(int, int) -> Option<Vertex>,
    lat: int,
    lon1: int,
    lon2: int,
    aperture: int,
    once: Seq<Vertex>,
    again: Seq<Vertex>,
)
    requires
        follows(projection, chart),
        drawn(projection, lat, lon1, lon2, aperture, once),
        drawn(projection, lat, lon1, lon2, aperture, again),
    ensures
        once == again,
        once == arc(chart, lat, lon1, lon2, aperture),
{
}

/// A span that the chart draws as a straight line, seed interval by seed
/// interval, is drawn in as many segments as there are seed intervals, from
/// the image of its start to the image of its end, each segment starting
/// where the one before it ends.
pub proof fn lemma_straight_span_drawn_seed_by_seed(
    chart: spec_fn(int, int) -> Option<Vertex>,
    lat: int,
    lon1: int,
    lon_len: int,
    aperture: int,
)
    requires
        forall|i: int|
            0 <= i < SEED_INTERVALS ==> straight_seed(
                chart,
                lat,
                span_ends(lon1, lon_len).0,
                span_ends(lon1, lon_len).1,
                i,
            ),
    ensures
        ({
            let (start, end) = span_ends(lon1, lon_len);
            let line = span_vertices(chart, lat, lon1, lon_len, aperture);
            &&& line.len() == 2 * SEED_INTERVALS
            &&& line[0] == chart(start, lat).unwrap()
            &&& line[2 * SEED_INTERVALS - 1] == chart(end, lat).unwrap()
            &&& forall|i: int|
                0 <= i < SEED_INTERVALS ==> {
                    &&& #[trigger] line[2 * i] == chart(seed_bound(start, end, i), lat).unwrap()
                    &&& line[2 * i + 1] == chart(seed_bound(start, end, i + 1), lat).unwrap()
                }
        }),
{
    let (start, end) = span_ends(lon1, lon_len);
    lemma_straight_seeds(chart, lat, start, end, SEED_INTERVALS as nat);
    lemma_seeds_tile_span(start, end, 0);
    assert(straight_seed(chart, lat, start, end, 0));
    assert(straight_seed(chart, lat, start, end, SEED_INTERVALS - 1));
    let line = seeded(chart, lat, start, end);
    assert(line[2 * 0int] == chart(seed_bound(start, end, 0), lat).unwrap());
    assert(line[2 * (SEED_INTERVALS - 1) + 1] == chart(
        seed_bound(start, end, SEED_INTERVALS as int),
        lat,
    ).unwrap());
}

/// Whether the chart repeats after a full turn along the parallel at `lat`.
#[verifier::opaque]
pub open spec fn periodic(chart: spec_fn(int, int) -> Option<Vertex>, lat: int) -> bool {
    forall|lon: int| #[trigger] chart(lon, lat) == chart(lon + FULL_TURN, lat)
}

/// A chart that repeats after a full turn has the same value one turn on.
pub proof fn lemma_periodic_at(chart: spec_fn(int, int) -> Option<Vertex>, lat: int, lon: int)
    requires
        periodic(chart, lat),
    ensures
        chart(lon, lat) == chart(lon + FULL_TURN, lat),
{
    reveal(periodic);
}

/// Whether refinement drops nothing anywhere in the span of forward length
/// `lon_len` from `lon1`.
pub open spec fn unbroken_span(
    chart: spec_fn(int, int) -> Option<Vertex>,
    lat: int,
    lon1: int,
    lon_len: int,
) -> bool {
    let (start, end) = span_ends(lon1, lon_len);
    unbroken_seeds(chart, lat, start, end, SEED_INTERVALS as nat)
}

/// Whether refinement drops nothing anywhere in the arc from `lon1` to
/// `lon2`: in the arc itself, or in both of its halves where it is split.
pub open spec fn unbroken_arc(
    chart: spec_fn(int, int) -> Option<Vertex>,
    lat: int,
    lon1: int,
    lon2: int,
) -> bool {
    let lon_len = forward_length(lon1, lon2);
    if lon_len > HALF_TURN + SPLIT_SLACK {
        let (first, second) = antipode_halves(lon1, lon_len);
        unbroken_span(chart, lat, first.0, first.1) && unbroken_span(
            chart,
            lat,
            second.0,
            second.1,
        )
    } else {
        unbroken_span(chart, lat, lon1, lon_len)
    }
}

/// A span in which refinement drops nothing is drawn without a gap from the
/// image of its start to the image of its end.
pub proof fn lemma_unbroken_span_joins(
    chart: spec_fn(int, int) -> Option<Vertex>,
    lat: int,
    lon1: int,
    lon_len: int,
    aperture: int,
)
    requires
        unbroken_span(chart, lat, lon1, lon_len),
    ensures
        joins(
            span_vertices(chart, lat, lon1, lon_len, aperture),
            chart(span_ends(lon1, lon_len).0, lat).unwrap(),
            chart(span_ends(lon1, lon_len).1, lat).unwrap(),
        ),
{
    let (start, end) = span_ends(lon1, lon_len);
    lemma_seeds_tile_span(start, end, 0);
    lemma_unbroken_seeded_joins(chart, lat, start, end, SEED_INTERVALS as nat);
    assert(unbroken(chart, lat, seed_bound(start, end, 0), seed_bound(start, end, 0int + 1), 0));
    assert(unbroken(
        chart,
        lat,
        seed_bound(start, end, SEED_INTERVALS - 1),
        seed_bound(start, end, SEED_INTERVALS - 1 + 1),
        0,
    ));
}

/// The whole arc is drawn, and in one piece, where refinement drops
/// nothing: for a chart that repeats after a full turn, the polyline leads
/// from the image of `lon1` to the image of `lon2` without a gap, also across
/// the antipode where the arc is split.
pub proof fn lemma_unbroken_arc_joins(
    chart: spec_fn(int, int) -> Option<Vertex>,
    lat: int,
    lon1: int,
    lon2: int,
    aperture: int,
)
    requires
        is_longitude(lon1),
        is_longitude(lon2),
        periodic(chart, lat),
        unbroken_arc(chart, lat, lon1, lon2),
    ensures
        joins(
            arc(chart, lat, lon1, lon2, aperture),
            chart(lon1, lat).unwrap(),
            chart(lon2, lat).unwrap(),
        ),
{
    let lon_len = forward_length(lon1, lon2);
    lemma_periodic_at(chart, lat, lon1 - FULL_TURN);
    lemma_periodic_at(chart, lat, lon2 - FULL_TURN);
    lemma_periodic_at(chart, lat, lon2);
    if lon_len > HALF_TURN + SPLIT_SLACK {
        let (first, second) = antipode_halves(lon1, lon_len);
        lemma_periodic_at(chart, lat, second.0 - FULL_TURN);
        lemma_unbroken_span_joins(chart, lat, first.0, first.1, aperture);
        lemma_unbroken_span_joins(chart, lat, second.0, second.1, aperture);
        lemma_joins_append(
            span_vertices(chart, lat, first.0, first.1, aperture),
            span_vertices(chart, lat, second.0, second.1, aperture),
            chart(lon1, lat).unwrap(),
            chart(second.0, lat).unwrap(),
            chart(lon2, lat).unwrap(),
        );
    } else {
        lemma_unbroken_span_joins(chart, lat, lon1, lon_len, aperture);
    }
}

/// A point of a part of an arc is a point of the arc: where the part starts
/// `offset` after the start of the arc, up to whole turns, and ends within
/// the arc, what is met within the part is met within the arc.
proof fn lemma_part_within_arc(
    lon1: int,
    lon_len: int,
    start: int,
    part_len: int,
    offset: int,
    lon: int,
)
    requires
        0 <= offset,
        0 <= part_len,
        offset + part_len <= lon_len < FULL_TURN,
        (start - lon1 - offset) % (FULL_TURN as int) == 0,
        within_arc(start, part_len, lon),
    ensures
        within_arc(lon1, lon_len, lon),
{
    let turn = FULL_TURN as int;
    let met = (lon - start) % turn;
    assert((lon - lon1) % turn == met + offset) by {
        assert(lon - lon1 == (lon - start) + (start - lon1 - offset) + offset);
    }
}

/// Every vertex drawn for a span is the image of a point of the span.
pub proof fn lemma_span_on_arc(
    chart: spec_fn(int, int) -> Option<Vertex>,
    lat: int,
    lon1: int,
    lon_len: int,
    aperture: int,
    k: int,
)
    requires
        0 <= lon_len < FULL_TURN,
        0 <= k < span_vertices(chart, lat, lon1, lon_len, aperture).len(),
    ensures
        on_arc(chart, lat, lon1, lon_len, span_vertices(chart, lat, lon1, lon_len, aperture)[k]),
{
    let (start, end) = span_ends(lon1, lon_len);
    let tolerance = boundary_tolerance(aperture);
    let v = span_vertices(chart, lat, lon1, lon_len, aperture)[k];
    let kept = if chart(start, lat) is Some && chart(end, lat) is Some {
        (start, end)
    } else if chart(end, lat) is Some {
        valid_span(chart, lat, end, start, tolerance)
    } else {
        valid_span(chart, lat, start, end, tolerance)
    };
    lemma_valid_span_is_clipped(chart, lat, end, start, tolerance);
    lemma_valid_span_is_clipped(chart, lat, start, end, tolerance);
    lemma_seeded_on_span(chart, lat, kept.0, kept.1, SEED_INTERVALS as nat, start, end, k);
    let lon = choose|lon: int| start <= lon <= end && #[trigger] chart(lon, lat) == Some(v);
    assert(within_arc(start, lon_len, lon));
    lemma_part_within_arc(lon1, lon_len, start, lon_len, 0, lon);
}

/// Nothing is drawn outside the arc: every vertex drawn for the arc from
/// `lon1` to `lon2` is the image of a point of the parallel that is met, going
/// forward from `lon1`, no later than `lon2`.
pub proof fn lemma_arc_on_arc(
    chart: spec_fn(int, int) -> Option<Vertex>,
    lat: int,
    lon1: int,
    lon2: int,
    aperture: int,
    k: int,
)
    requires
        is_longitude(lon1),
        is_longitude(lon2),
        0 <= k < arc(chart, lat, lon1, lon2, aperture).len(),
    ensures
        on_arc(
            chart,
            lat,
            lon1,
            forward_length(lon1, lon2),
            arc(chart, lat, lon1, lon2, aperture)[k],
        ),
{
    let lon_len = forward_length(lon1, lon2);
    let v = arc(chart, lat, lon1, lon2, aperture)[k];
    if lon_len > HALF_TURN + SPLIT_SLACK {
        let (first, second) = antipode_halves(lon1, lon_len);
        let head = span_vertices(chart, lat, first.0, first.1, aperture);
        if k < head.len() {
            lemma_span_on_arc(chart, lat, first.0, first.1, aperture, k);
            let lon = choose|lon: int|
                within_arc(first.0, first.1, lon) && #[trigger] chart(lon, lat) == Some(v);
            lemma_part_within_arc(lon1, lon_len, first.0, first.1, 0, lon);
        } else {
            lemma_span_on_arc(chart, lat, second.0, second.1, aperture, k - head.len());
            let lon = choose|lon: int|
                within_arc(second.0, second.1, lon) && #[trigger] chart(lon, lat) == Some(v);
            lemma_part_within_arc(lon1, lon_len, second.0, second.1, HALF_TURN as int, lon);
        }
    } else {
        lemma_span_on_arc(chart, lat, lon1, lon_len, aperture, k);
    }
}

} // verus!
