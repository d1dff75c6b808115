//! Adaptive refinement of a span of a parallel into line segments.
//!
//! A span is refined by looking at the bend that the projected curve makes
//! at the middle of the span: where the curve is straight one segment is
//! enough, where it bends gently two are, and where it bends sharply each
//! half is refined in turn, down to a fixed depth.

use vstd::prelude::*;
use vstd::arithmetic::power2::pow2;
use vstd::arithmetic::power2::lemma_pow2_unfold;
use vstd::arithmetic::power2::lemma2_to64;
use crate::longitude::halfway;
use crate::longitude::midpoint;
use crate::projection::follows;
use crate::projection::total;
use crate::turn::Bend;
use crate::turn::bend;
use crate::turn::classify;
use crate::vertex::Vertex;

verus! {

/// Depth at which refinement gives up on a span.
pub const MAX_ITERATION: usize = 4;

/// Number of seed intervals into which a span is cut before it is refined.
pub const SEED_INTERVALS: usize = 5;

/// The vertices that refinement at `depth` emits for the span from `lon1` to
/// `lon2` of the parallel at `lat`, two for each segment.
///
/// Nothing is emitted at the depth limit, nor where the chart is undefined at
/// either end or at the midpoint of the span. A straight span gives the one
/// segment between its ends, a gentle bend the two legs through the
/// midpoint. Where the legs are lopsided the shorter leg alone is drawn: the
/// other half is neither drawn nor refined. A sharp bend between comparable
/// legs has each half refined one level down, the half at `lon1` first.
pub open spec fn refined(
    chart: spec_fn(int, int) -> Option<Vertex>,
    lat: int,
    lon1: int,
    lon2: int,
    depth: nat,
) -> Seq<Vertex>
    decreases MAX_ITERATION - depth,
{
    let lon0 = midpoint(lon1, lon2);
    if depth >= MAX_ITERATION {
        Seq::empty()
    } else if chart(lon1, lat) is Some && chart(lon0, lat) is Some && chart(lon2, lat) is Some {
        let near = chart(lon1, lat).unwrap();
        let middle = chart(lon0, lat).unwrap();
        let far = chart(lon2, lat).unwrap();
        match bend(near, middle, far) {
            Bend::Straight => seq![near, far],
            Bend::Gentle => seq![near, middle, middle, far],
            Bend::ShortLead => seq![near, middle],
            Bend::ShortTail => seq![middle, far],
            Bend::Sharp => refined(chart, lat, lon1, lon0, depth + 1) + refined(
                chart,
                lat,
                lon0,
                lon2,
                depth + 1,
            ),
        }
    } else {
        Seq::empty()
    }
}

/// The largest number of segments that refinement at `depth` can emit.
pub open spec fn segment_budget(depth: nat) -> nat {
    if depth >= MAX_ITERATION {
        0
    } else {
        pow2((MAX_ITERATION - depth) as nat)
    }
}

/// The budget of a depth covers two segments, and the budgets of both halves
/// one level down.
pub proof fn lemma_segment_budget_step(depth: nat)
    requires
        depth < MAX_ITERATION,
    ensures
        2 <= segment_budget(depth),
        2 * segment_budget(depth + 1) <= segment_budget(depth),
        segment_budget(0) == 16,
{
    lemma2_to64();
    lemma_pow2_unfold((MAX_ITERATION - depth) as nat);
}

/// Refines the span from `lon1` to `lon2` of the parallel at `lat`, and
/// appends the segments found to `vertices`, from `lon1` towards `lon2`.
pub fn subdivide<F: Fn(i64, i64) -> Option<Vertex>>(
    vertices: &mut Vec<Vertex>,
    lat: i64,
    lon1: i64,
    lon2: i64,
    projection: &F,
    iter: usize,
)
    requires
        total(*projection),
    ensures
        old(vertices)@.is_prefix_of(final(vertices)@),
        (final(vertices)@.len() - old(vertices)@.len()) % 2 == 0,
        final(vertices)@.len() - old(vertices)@.len() <= 2 * segment_budget(iter as nat),
        forall|chart: spec_fn(int, int) -> Option<Vertex>| #[trigger]
            follows(*projection, chart) ==> final(vertices)@ == old(vertices)@ + refined(
                chart,
                lat as int,
                lon1 as int,
                lon2 as int,
                iter as nat,
            ),
    decreases MAX_ITERATION - iter,
{
    if iter < MAX_ITERATION {
        proof {
            lemma_segment_budget_step(iter as nat);
        }
        let near = projection(lon1, lat);
        let far = projection(lon2, lat);
        let lon0 = halfway(lon1, lon2);
        let middle = projection(lon0, lat);
        match (near, middle, far) {
            (Some(near), Some(middle), Some(far)) => {
                match classify(near, middle, far) {
                    Bend::Straight => {
                        vertices.push(near);
                        vertices.push(far);
                    },
                    Bend::Gentle => {
                        vertices.push(near);
                        vertices.push(middle);
                        vertices.push(middle);
                        vertices.push(far);
                    },
                    Bend::ShortLead => {
                        vertices.push(near);
                        vertices.push(middle);
                    },
                    Bend::ShortTail => {
                        vertices.push(middle);
                        vertices.push(far);
                    },
                    Bend::Sharp => {
                        subdivide(vertices, lat, lon1, lon0, projection, iter + 1);
                        subdivide(vertices, lat, lon0, lon2, projection, iter + 1);
                    },
                }
            },
            _ => {},
        }
    }
    assert forall|chart: spec_fn(int, int) -> Option<Vertex>| #[trigger]
        follows(*projection, chart) implies vertices@ == old(vertices)@ + refined(
        chart,
        lat as int,
        lon1 as int,
        lon2 as int,
        iter as nat,
    ) by {
        assert(vertices@ =~= old(vertices)@ + refined(
            chart,
            lat as int,
            lon1 as int,
            lon2 as int,
            iter as nat,
        ));
    }
}

/// The longitude at which seed interval `i` of the span from `lon_s` to
/// `lon_e` starts and seed interval `i - 1` ends: the point `i` fifths of the
/// way along the span, rounded down.
pub open spec fn seed_bound(lon_s: int, lon_e: int, i: int) -> int {
    lon_s + (i * (lon_e - lon_s)) / (SEED_INTERVALS as int)
}

/// The vertices that the first `count` seed intervals of the span from
/// `lon_s` to `lon_e` contribute, each refined from depth zero.
pub open spec fn seeded_upto(
    chart: spec_fn(int, int) -> Option<Vertex>,
    lat: int,
    lon_s: int,
    lon_e: int,
    count: nat,
) -> Seq<Vertex>
    decreases count,
{
    if count == 0 {
        Seq::empty()
    } else {
        seeded_upto(chart, lat, lon_s, lon_e, (count - 1) as nat) + refined(
            chart,
            lat,
            seed_bound(lon_s, lon_e, count - 1),
            seed_bound(lon_s, lon_e, count as int),
            0,
        )
    }
}

/// The vertices emitted for the span from `lon_s` to `lon_e` of the parallel
/// at `lat`: those of its seed intervals, in order.
pub open spec fn seeded(
    chart: spec_fn(int, int) -> Option<Vertex>,
    lat: int,
    lon_s: int,
    lon_e: int,
) -> Seq<Vertex> {
    seeded_upto(chart, lat, lon_s, lon_e, SEED_INTERVALS as nat)
}

/// The bound between seed intervals `i - 1` and `i` of the span from `lon_s`
/// to `lon_e`.
pub fn seed_longitude(lon_s: i64, lon_e: i64, i: usize) -> (lon: i64)
    requires
        i <= SEED_INTERVALS,
    ensures
        lon == seed_bound(lon_s as int, lon_e as int, i as int),
{
    let parts: i128 = SEED_INTERVALS as i128;
    let span: i128 = lon_e as i128 - lon_s as i128;
    let steps: i128 = i as i128;
    assert(steps * span == i * (lon_e - lon_s) && -parts * 0x1_0000_0000_0000_0000 <= steps * span
        <= parts * 0x1_0000_0000_0000_0000) by (nonlinear_arith)
        requires
            0 <= steps <= parts,
            steps == i,
            span == lon_e - lon_s,
            -0x1_0000_0000_0000_0000 <= span <= 0x1_0000_0000_0000_0000,
    ;
    let scaled: i128 = steps * span;
    // Division rounds towards zero: a negative product is rounded down by hand.
    let offset: i128 = if scaled >= 0 {
        scaled / parts
    } else {
        -((parts - 1 - scaled) / parts)
    };
    assert(0 <= offset <= span || span <= offset <= 0) by (nonlinear_arith)
        requires
            offset == scaled / 5,
            scaled == steps * span,
            0 <= steps <= 5,
    ;
    (lon_s as i128 + offset) as i64
}

/// Cuts the span from `lon_s` to `lon_e` of the parallel at `lat` into seed
/// intervals, refines each from depth zero and appends the segments found to
/// `vertices`, from `lon_s` towards `lon_e`.
///
/// Seeding keeps a curve that is bent as a whole, but looks straight when
/// sampled at its ends and its middle alone, from passing for a line.
pub fn subdivide_multi<F: Fn(i64, i64) -> Option<Vertex>>(
    vertices: &mut Vec<Vertex>,
    lat: i64,
    lon_s: i64,
    lon_e: i64,
    projection: &F,
)
    requires
        total(*projection),
    ensures
        old(vertices)@.is_prefix_of(final(vertices)@),
        (final(vertices)@.len() - old(vertices)@.len()) % 2 == 0,
        final(vertices)@.len() - old(vertices)@.len() <= 2 * SEED_INTERVALS * segment_budget(0),
        forall|chart: spec_fn(int, int) -> Option<Vertex>| #[trigger]
            follows(*projection, chart) ==> final(vertices)@ == old(vertices)@ + seeded(
                chart,
                lat as int,
                lon_s as int,
                lon_e as int,
            ),
{
    let ghost before = vertices@;
    proof {
        lemma_segment_budget_step(0);
    }
    for i in 0..SEED_INTERVALS
        invariant
            total(*projection),
            segment_budget(0) == 16,
            before.is_prefix_of(vertices@),
            (vertices@.len() - before.len()) % 2 == 0,
            vertices@.len() - before.len() <= 2 * i * 16,
            forall|chart: spec_fn(int, int) -> Option<Vertex>| #[trigger]
                follows(*projection, chart) ==> vertices@ == before + seeded_upto(
                    chart,
                    lat as int,
                    lon_s as int,
                    lon_e as int,
                    i as nat,
                ),
    {
        let lon1 = seed_longitude(lon_s, lon_e, i);
        let lon2 = seed_longitude(lon_s, lon_e, i + 1);
        subdivide(vertices, lat, lon1, lon2, projection, 0);
        assert forall|chart: spec_fn(int, int) -> Option<Vertex>| #[trigger]
            follows(*projection, chart) implies vertices@ == before + seeded_upto(
            chart,
            lat as int,
            lon_s as int,
            lon_e as int,
            (i + 1) as nat,
        ) by {
            assert(vertices@ =~= before + seeded_upto(
                chart,
                lat as int,
                lon_s as int,
                lon_e as int,
                (i + 1) as nat,
            ));
        }
    }
}

/// Refinement emits whole segments, and no more of them than the budget of
/// its depth.
pub proof fn lemma_refined_within_budget(
    chart: spec_fn(int, int) -> Option<Vertex>,
    lat: int,
    lon1: int,
    lon2: int,
    depth: nat,
)
    ensures
        refined(chart, lat, lon1, lon2, depth).len() % 2 == 0,
        refined(chart, lat, lon1, lon2, depth).len() <= 2 * segment_budget(depth),
    decreases MAX_ITERATION - depth,
{
    if depth < MAX_ITERATION {
        lemma_segment_budget_step(depth);
        let lon0 = midpoint(lon1, lon2);
        lemma_refined_within_budget(chart, lat, lon1, lon0, depth + 1);
        lemma_refined_within_budget(chart, lat, lon0, lon2, depth + 1);
    }
}

/// A span of length zero is refined to nothing: its three sample points
/// coincide, a repeated vertex shows no direction, and so the span is halved
/// into itself until the depth limit.
pub proof fn lemma_refined_of_point(
    chart: spec_fn(int, int) -> Option<Vertex>,
    lat: int,
    lon: int,
    depth: nat,
)
    ensures
        refined(chart, lat, lon, lon, depth) == Seq::<Vertex>::empty(),
    decreases MAX_ITERATION - depth,
{
    if depth < MAX_ITERATION {
        lemma_refined_of_point(chart, lat, lon, depth + 1);
        if chart(lon, lat) is Some {
            let p = chart(lon, lat).unwrap();
            assert(bend(p, p, p) == Bend::Sharp);
        }
        assert(refined(chart, lat, lon, lon, depth) =~= Seq::<Vertex>::empty());
    }
}

/// The seed intervals tile the span: the first starts at `lon_s`, the last
/// ends at `lon_e`, each ends where the next starts, and every bound lies
/// between the ends of the span, in the order in which the span runs.
pub proof fn lemma_seeds_tile_span(lon_s: int, lon_e: int, i: int)
    requires
        0 <= i < SEED_INTERVALS,
    ensures
        seed_bound(lon_s, lon_e, 0) == lon_s,
        seed_bound(lon_s, lon_e, SEED_INTERVALS as int) == lon_e,
        lon_s <= lon_e ==> lon_s <= seed_bound(lon_s, lon_e, i) <= seed_bound(lon_s, lon_e, i + 1)
            <= lon_e,
        lon_s >= lon_e ==> lon_s >= seed_bound(lon_s, lon_e, i) >= seed_bound(lon_s, lon_e, i + 1)
            >= lon_e,
{
    let span = lon_e - lon_s;
    assert(0 * span == 0 && 5 * span == span * 5);
    assert(lon_s <= lon_e ==> 0 <= i * span <= (i + 1) * span <= 5 * span) by (nonlinear_arith)
        requires
            0 <= i < 5,
            span == lon_e - lon_s,
    ;
    assert(lon_s >= lon_e ==> 0 >= i * span >= (i + 1) * span >= 5 * span) by (nonlinear_arith)
        requires
            0 <= i < 5,
            span == lon_e - lon_s,
    ;
}

/// The seed intervals contribute whole segments, and no interval more than
/// the budget of depth zero.
pub proof fn lemma_seeded_within_budget(
    chart: spec_fn(int, int) -> Option<Vertex>,
    lat: int,
    lon_s: int,
    lon_e: int,
    count: nat,
)
    ensures
        seeded_upto(chart, lat, lon_s, lon_e, count).len() % 2 == 0,
        seeded_upto(chart, lat, lon_s, lon_e, count).len() <= 2 * count * segment_budget(0),
    decreases count,
{
    lemma_segment_budget_step(0);
    if count > 0 {
        lemma_seeded_within_budget(chart, lat, lon_s, lon_e, (count - 1) as nat);
        lemma_refined_within_budget(
            chart,
            lat,
            seed_bound(lon_s, lon_e, count - 1),
            seed_bound(lon_s, lon_e, count as int),
            0,
        );
    }
}

/// A span of length zero contributes no segment.
pub proof fn lemma_seeded_of_point(
    chart: spec_fn(int, int) -> Option<Vertex>,
    lat: int,
    lon: int,
    count: nat,
)
    ensures
        seeded_upto(chart, lat, lon, lon, count) == Seq::<Vertex>::empty(),
    decreases count,
{
    if count > 0 {
        lemma_seeded_of_point(chart, lat, lon, (count - 1) as nat);
        assert(seed_bound(lon, lon, count - 1) == lon && seed_bound(lon, lon, count as int) == lon)
            by (nonlinear_arith)
            requires
                seed_bound(lon, lon, count - 1) == lon + ((count - 1) * (lon - lon)) / 5,
                seed_bound(lon, lon, count as int) == lon + (count * (lon - lon)) / 5,
        ;
        lemma_refined_of_point(chart, lat, lon, 0);
        assert(seeded_upto(chart, lat, lon, lon, count) =~= Seq::<Vertex>::empty());
    }
}

/// Whether `v` is where the chart puts some point of the parallel at `lat`
/// whose longitude lies from `low` to `high`.
pub open spec fn charted_between(
    chart: spec_fn(int, int) -> Option<Vertex>,
    lat: int,
    low: int,
    high: int,
    v: Vertex,
) -> bool {
    exists|lon: int| low <= lon <= high && #[trigger] chart(lon, lat) == Some(v)
}

/// Every vertex that refinement emits is the image of a point of the span.
pub proof fn lemma_refined_on_span(
    chart: spec_fn(int, int) -> Option<Vertex>,
    lat: int,
    lon1: int,
    lon2: int,
    depth: nat,
    low: int,
    high: int,
    k: int,
)
    requires
        low <= lon1 <= high,
        low <= lon2 <= high,
        0 <= k < refined(chart, lat, lon1, lon2, depth).len(),
    ensures
        charted_between(chart, lat, low, high, refined(chart, lat, lon1, lon2, depth)[k]),
    decreases MAX_ITERATION - depth,
{
    let lon0 = midpoint(lon1, lon2);
    let near = chart(lon1, lat).unwrap();
    let middle = chart(lon0, lat).unwrap();
    let far = chart(lon2, lat).unwrap();
    assert(chart(lon1, lat) == Some(near) && chart(lon0, lat) == Some(middle) && chart(lon2, lat) == Some(
        far,
    ));
    if bend(near, middle, far) == Bend::Sharp {
        let head = refined(chart, lat, lon1, lon0, depth + 1);
        if k < head.len() {
            lemma_refined_on_span(chart, lat, lon1, lon0, depth + 1, low, high, k);
        } else {
            lemma_refined_on_span(chart, lat, lon0, lon2, depth + 1, low, high, k - head.len());
        }
    }
}

/// Every vertex that the seed intervals contribute is the image of a point
/// of the span.
pub proof fn lemma_seeded_on_span(
    chart: spec_fn(int, int) -> Option<Vertex>,
    lat: int,
    lon_s: int,
    lon_e: int,
    count: nat,
    low: int,
    high: int,
    k: int,
)
    requires
        count <= SEED_INTERVALS,
        low <= lon_s <= high,
        low <= lon_e <= high,
        0 <= k < seeded_upto(chart, lat, lon_s, lon_e, count).len(),
    ensures
        charted_between(chart, lat, low, high, seeded_upto(chart, lat, lon_s, lon_e, count)[k]),
    decreases count,
{
    let head = seeded_upto(chart, lat, lon_s, lon_e, (count - 1) as nat);
    if k < head.len() {
        lemma_seeded_on_span(chart, lat, lon_s, lon_e, (count - 1) as nat, low, high, k);
    } else {
        lemma_seeds_tile_span(lon_s, lon_e, count - 1);
        lemma_refined_on_span(
            chart,
            lat,
            seed_bound(lon_s, lon_e, count - 1),
            seed_bound(lon_s, lon_e, count as int),
            0,
            low,
            high,
            k - head.len(),
        );
    }
}

/// Whether the chart draws seed interval `i` of the span from `lon_s` to
/// `lon_e` as a straight line: it is defined at both ends and at the midpoint
/// of the interval, and puts the three on one line.
pub open spec fn straight_seed(
    chart: spec_fn(int, int) -> Option<Vertex>,
    lat: int,
    lon_s: int,
    lon_e: int,
    i: int,
) -> bool {
    let lon1 = seed_bound(lon_s, lon_e, i);
    let lon2 = seed_bound(lon_s, lon_e, i + 1);
    let lon0 = midpoint(lon1, lon2);
    &&& chart(lon1, lat) is Some
    &&& chart(lon0, lat) is Some
    &&& chart(lon2, lat) is Some
    &&& bend(chart(lon1, lat).unwrap(), chart(lon0, lat).unwrap(), chart(lon2, lat).unwrap())
        == Bend::Straight
}

/// Where the chart draws each of the first `count` seed intervals as a
/// straight line, each contributes the one segment between its ends: the
/// polyline has `count` segments, each from the image of one seed bound to
/// the image of the next, so that it starts at the image of `lon_s` and each
/// segment starts where the one before it ends.
pub proof fn lemma_straight_seeds(
    chart: spec_fn(int, int) -> Option<Vertex>,
    lat: int,
    lon_s: int,
    lon_e: int,
    count: nat,
)
    requires
        forall|i: int| 0 <= i < count ==> straight_seed(chart, lat, lon_s, lon_e, i),
    ensures
        seeded_upto(chart, lat, lon_s, lon_e, count).len() == 2 * count,
        forall|i: int|
            0 <= i < count ==> {
                &&& #[trigger] seeded_upto(chart, lat, lon_s, lon_e, count)[2 * i] == chart(
                    seed_bound(lon_s, lon_e, i),
                    lat,
                ).unwrap()
                &&& seeded_upto(chart, lat, lon_s, lon_e, count)[2 * i + 1] == chart(
                    seed_bound(lon_s, lon_e, i + 1),
                    lat,
                ).unwrap()
            },
    decreases count,
{
    if count > 0 {
        lemma_straight_seeds(chart, lat, lon_s, lon_e, (count - 1) as nat);
        assert(straight_seed(chart, lat, lon_s, lon_e, count - 1));
        let lon1 = seed_bound(lon_s, lon_e, count - 1);
        let lon2 = seed_bound(lon_s, lon_e, count as int);
        let head = seeded_upto(chart, lat, lon_s, lon_e, (count - 1) as nat);
        let tail = refined(chart, lat, lon1, lon2, 0);
        assert(tail =~= seq![chart(lon1, lat).unwrap(), chart(lon2, lat).unwrap()]);
        let all = seeded_upto(chart, lat, lon_s, lon_e, count);
        assert(all == head + tail);
        assert forall|i: int| 0 <= i < count implies {
            &&& #[trigger] all[2 * i] == chart(seed_bound(lon_s, lon_e, i), lat).unwrap()
            &&& all[2 * i + 1] == chart(seed_bound(lon_s, lon_e, i + 1), lat).unwrap()
        } by {
            if i < count - 1 {
                assert(all[2 * i] == head[2 * i]);
                assert(all[2 * i + 1] == head[2 * i + 1]);
            } else {
                assert(all[2 * i] == tail[0]);
                assert(all[2 * i + 1] == tail[1]);
            }
        }
    }
}

/// Whether a polyline leads from `from` to `to` without a gap: it is made of
/// whole segments, at least one, the first starts at `from`, each starts
/// where the one before it ends, and the last ends at `to`.
pub open spec fn joins(line: Seq<Vertex>, from: Vertex, to: Vertex) -> bool {
    &&& line.len() >= 2
    &&& line.len() % 2 == 0
    &&& line[0] == from
    &&& line[line.len() - 1] == to
    &&& forall|i: int| 0 <= i && 2 * i + 2 < line.len() ==> line[2 * i + 1] == #[trigger] line[2 * i
        + 2]
}

/// Whether refinement at `depth` of the span from `lon1` to `lon2` drops
/// nothing: the chart is defined at every point sampled, no bend is
/// lopsided, and every sharp bend is met above the last level.
pub open spec fn unbroken(
    chart: spec_fn(int, int) -> Option<Vertex>,
    lat: int,
    lon1: int,
    lon2: int,
    depth: nat,
) -> bool
    decreases MAX_ITERATION - depth,
{
    let lon0 = midpoint(lon1, lon2);
    &&& depth < MAX_ITERATION
    &&& chart(lon1, lat) is Some
    &&& chart(lon0, lat) is Some
    &&& chart(lon2, lat) is Some
    &&& match bend(
        chart(lon1, lat).unwrap(),
        chart(lon0, lat).unwrap(),
        chart(lon2, lat).unwrap(),
    ) {
        Bend::Straight => true,
        Bend::Gentle => true,
        Bend::ShortLead => false,
        Bend::ShortTail => false,
        Bend::Sharp => unbroken(chart, lat, lon1, lon0, depth + 1) && unbroken(
            chart,
            lat,
            lon0,
            lon2,
            depth + 1,
        ),
    }
}

/// Two polylines without a gap, the second of which starts where the first
/// ends, make one polyline without a gap.
pub proof fn lemma_joins_append(
    head: Seq<Vertex>,
    tail: Seq<Vertex>,
    from: Vertex,
    through: Vertex,
    to: Vertex,
)
    requires
        joins(head, from, through),
        joins(tail, through, to),
    ensures
        joins(head + tail, from, to),
{
    let line = head + tail;
    assert forall|i: int| 0 <= i && 2 * i + 2 < line.len() implies line[2 * i + 1] == #[trigger] line[2
        * i + 2] by {
        if 2 * i + 2 < head.len() {
            assert(head[2 * i + 1] == head[2 * i + 2]);
        } else if 2 * i + 2 == head.len() {
            assert(line[2 * i + 1] == head[head.len() - 1]);
            assert(line[2 * i + 2] == tail[0]);
        } else {
            let j = i - head.len() / 2;
            assert(2 * j + 2 == 2 * i + 2 - head.len());
            assert(tail[2 * j + 1] == tail[2 * j + 2]);
            assert(line[2 * i + 1] == tail[2 * j + 1]);
            assert(line[2 * i + 2] == tail[2 * j + 2]);
        }
    }
    assert(line[0] == head[0]);
    assert(line[line.len() - 1] == tail[tail.len() - 1]);
}

/// Where refinement drops nothing, what it emits leads from the image of
/// `lon1` to the image of `lon2` without a gap.
pub proof fn lemma_unbroken_refined_joins(
    chart: spec_fn(int, int) -> Option<Vertex>,
    lat: int,
    lon1: int,
    lon2: int,
    depth: nat,
)
    requires
        unbroken(chart, lat, lon1, lon2, depth),
    ensures
        joins(
            refined(chart, lat, lon1, lon2, depth),
            chart(lon1, lat).unwrap(),
            chart(lon2, lat).unwrap(),
        ),
    decreases MAX_ITERATION - depth,
{
    let lon0 = midpoint(lon1, lon2);
    let near = chart(lon1, lat).unwrap();
    let middle = chart(lon0, lat).unwrap();
    let far = chart(lon2, lat).unwrap();
    let line = refined(chart, lat, lon1, lon2, depth);
    if bend(near, middle, far) == Bend::Sharp {
        lemma_unbroken_refined_joins(chart, lat, lon1, lon0, depth + 1);
        lemma_unbroken_refined_joins(chart, lat, lon0, lon2, depth + 1);
        lemma_joins_append(
            refined(chart, lat, lon1, lon0, depth + 1),
            refined(chart, lat, lon0, lon2, depth + 1),
            near,
            middle,
            far,
        );
    } else if bend(near, middle, far) == Bend::Gentle {
        assert(line =~= seq![near, middle, middle, far]);
        assert forall|i: int| 0 <= i && 2 * i + 2 < line.len() implies line[2 * i + 1]
            == #[trigger] line[2 * i + 2] by {
            assert(i == 0);
        }
    } else {
        assert(line =~= seq![near, far]);
    }
}

/// Whether refinement drops nothing in any of the first `count` seed
/// intervals of the span from `lon_s` to `lon_e`.
pub open spec fn unbroken_seeds(
    chart: spec_fn(int, int) -> Option<Vertex>,
    lat: int,
    lon_s: int,
    lon_e: int,
    count: nat,
) -> bool {
    forall|i: int|
        0 <= i < count ==> unbroken(
            chart,
            lat,
            #[trigger] seed_bound(lon_s, lon_e, i),
            seed_bound(lon_s, lon_e, i + 1),
            0,
        )
}

/// Where refinement drops nothing in the first `count` seed intervals, what
/// they contribute leads from the image of `lon_s` to the image of the end
/// of the last of them without a gap.
pub proof fn lemma_unbroken_seeded_joins(
    chart: spec_fn(int, int) -> Option<Vertex>,
    lat: int,
    lon_s: int,
    lon_e: int,
    count: nat,
)
    requires
        1 <= count,
        unbroken_seeds(chart, lat, lon_s, lon_e, count),
    ensures
        joins(
            seeded_upto(chart, lat, lon_s, lon_e, count),
            chart(lon_s, lat).unwrap(),
            chart(seed_bound(lon_s, lon_e, count as int), lat).unwrap(),
        ),
    decreases count,
{
    let lon1 = seed_bound(lon_s, lon_e, count - 1);
    let lon2 = seed_bound(lon_s, lon_e, count as int);
    assert(unbroken(chart, lat, lon1, seed_bound(lon_s, lon_e, count - 1 + 1), 0));
    lemma_unbroken_refined_joins(chart, lat, lon1, lon2, 0);
    let tail = refined(chart, lat, lon1, lon2, 0);
    if count == 1 {
        assert(seed_bound(lon_s, lon_e, 0) == lon_s);
        assert(seeded_upto(chart, lat, lon_s, lon_e, 0) =~= Seq::<Vertex>::empty());
        assert(seeded_upto(chart, lat, lon_s, lon_e, 1) =~= tail);
    } else {
        assert(unbroken_seeds(chart, lat, lon_s, lon_e, (count - 1) as nat));
        lemma_unbroken_seeded_joins(chart, lat, lon_s, lon_e, (count - 1) as nat);
        lemma_joins_append(
            seeded_upto(chart, lat, lon_s, lon_e, (count - 1) as nat),
            tail,
            chart(lon_s, lat).unwrap(),
            chart(lon1, lat).unwrap(),
            chart(lon2, lat).unwrap(),
        );
    }
}

} // verus!
