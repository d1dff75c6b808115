use sky_parallel::subdivide::seed_longitude;
use sky_parallel::subdivide::subdivide;
use sky_parallel::subdivide::subdivide_multi;
use sky_parallel::subdivide::MAX_ITERATION;
use sky_parallel::subdivide::SEED_INTERVALS;
use sky_parallel::vertex::Vertex;
use std::cell::Cell;

const DEG: i64 = 3_600_000_000;

fn pt(x: i32, y: i32) -> Vertex {
    Vertex::new(x, y).unwrap()
}

/// A chart that draws every parallel as a horizontal line.
fn level(lon: i64, lat: i64) -> Option<Vertex> {
    Vertex::new((lon / 100_000) as i32, (lat / 100_000) as i32)
}

/// A chart that winds the parallel round a circle of radius one million.
fn ring(lon: i64, _lat: i64) -> Option<Vertex> {
    let angle = (lon as f64 / DEG as f64).to_radians();
    Vertex::new((1.0e6 * angle.cos()).round() as i32, (1.0e6 * angle.sin()).round() as i32)
}

#[test]
fn refinement_constants() {
    assert_eq!(MAX_ITERATION, 4);
    assert_eq!(SEED_INTERVALS, 5);
}

#[test]
fn seed_bounds_cut_the_span_in_fifths() {
    let bounds: Vec<i64> = (0..=5).map(|i| seed_longitude(0, 10, i)).collect();
    assert_eq!(bounds, vec![0, 2, 4, 6, 8, 10]);
    let bounds: Vec<i64> = (0..=5).map(|i| seed_longitude(160 * DEG, 200 * DEG, i)).collect();
    assert_eq!(bounds, vec![160 * DEG, 168 * DEG, 176 * DEG, 184 * DEG, 192 * DEG, 200 * DEG]);
}

#[test]
fn seed_bounds_round_down_and_reach_the_end() {
    let bounds: Vec<i64> = (0..=5).map(|i| seed_longitude(0, 7, i)).collect();
    assert_eq!(bounds, vec![0, 1, 2, 4, 5, 7]);
    let bounds: Vec<i64> = (0..=5).map(|i| seed_longitude(-3, 4, i)).collect();
    assert_eq!(bounds, vec![-3, -2, -1, 1, 2, 4]);
}

#[test]
fn seed_bounds_of_a_span_that_runs_backwards() {
    let bounds: Vec<i64> = (0..=5).map(|i| seed_longitude(10, 0, i)).collect();
    assert_eq!(bounds, vec![10, 8, 6, 4, 2, 0]);
    let bounds: Vec<i64> = (0..=5).map(|i| seed_longitude(0, -7, i)).collect();
    assert_eq!(bounds, vec![0, -2, -3, -5, -6, -7]);
}

#[test]
fn seed_bounds_of_extreme_spans() {
    assert_eq!(seed_longitude(i64::MIN, i64::MAX, 0), i64::MIN);
    assert_eq!(seed_longitude(i64::MIN, i64::MAX, 5), i64::MAX);
    assert_eq!(seed_longitude(i64::MAX, i64::MIN, 5), i64::MIN);
    assert_eq!(seed_longitude(i64::MIN, i64::MAX, 1), i64::MIN + (u64::MAX / 5) as i64);
}

#[test]
fn straight_span_is_one_segment() {
    let mut vertices = Vec::new();
    subdivide(&mut vertices, 10 * DEG, 0, 30 * DEG, &level, 0);
    assert_eq!(vertices, vec![pt(0, 360_000), pt(1_080_000, 360_000)]);
}

#[test]
fn gentle_bend_is_two_segments() {
    // An arc of 18 degrees of the circle: the chords turn by 9 degrees.
    let mut vertices = Vec::new();
    subdivide(&mut vertices, 0, 0, 18 * DEG, &ring, 0);
    let (near, middle, far) = (pt(1_000_000, 0), pt(987_688, 156_434), pt(951_057, 309_017));
    assert_eq!(vertices, vec![near, middle, middle, far]);
}

#[test]
fn sharp_bend_is_refined_in_both_halves() {
    // An arc of 36 degrees: the chords turn by 18 degrees, those of each half by 9.
    let mut vertices = Vec::new();
    subdivide(&mut vertices, 0, 0, 36 * DEG, &ring, 0);
    let expected = vec![
        pt(1_000_000, 0),
        pt(987_688, 156_434),
        pt(987_688, 156_434),
        pt(951_057, 309_017),
        pt(951_057, 309_017),
        pt(891_007, 453_990),
        pt(891_007, 453_990),
        pt(809_017, 587_785),
    ];
    assert_eq!(vertices, expected);
}

#[test]
fn refinement_appends_to_what_is_there() {
    let mut vertices = vec![pt(1, 1), pt(2, 2)];
    subdivide(&mut vertices, 0, 0, 18 * DEG, &ring, 0);
    assert_eq!(vertices.len(), 6);
    assert_eq!(&vertices[..2], &[pt(1, 1), pt(2, 2)]);
    assert_eq!(vertices[2], pt(1_000_000, 0));
}

#[test]
fn nothing_is_emitted_at_the_depth_limit() {
    let mut vertices = Vec::new();
    subdivide(&mut vertices, 0, 0, 30 * DEG, &level, 4);
    assert!(vertices.is_empty());
    subdivide(&mut vertices, 0, 0, 30 * DEG, &level, usize::MAX);
    assert!(vertices.is_empty());
    // One level above the limit a straight span is still drawn.
    subdivide(&mut vertices, 0, 0, 30 * DEG, &level, 3);
    assert_eq!(vertices.len(), 2);
}

#[test]
fn sharp_bend_at_the_last_level_is_dropped() {
    let mut vertices = Vec::new();
    subdivide(&mut vertices, 0, 0, 36 * DEG, &ring, 3);
    assert!(vertices.is_empty());
    // The chords of half a turn, a quarter and an eighth all turn sharply.
    subdivide(&mut vertices, 0, 0, 360 * DEG, &ring, 0);
    assert!(vertices.is_empty());
    subdivide(&mut vertices, 0, 0, 180 * DEG, &ring, 0);
    assert_eq!(vertices.len(), 32);
}

#[test]
fn undefined_sample_drops_the_span() {
    let no_start = |lon: i64, lat: i64| if lon == 0 { None } else { level(lon, lat) };
    let no_middle = |lon: i64, lat: i64| if lon == 15 * DEG { None } else { level(lon, lat) };
    let no_end = |lon: i64, lat: i64| if lon == 30 * DEG { None } else { level(lon, lat) };
    let mut vertices = Vec::new();
    subdivide(&mut vertices, 0, 0, 30 * DEG, &no_start, 0);
    subdivide(&mut vertices, 0, 0, 30 * DEG, &no_middle, 0);
    subdivide(&mut vertices, 0, 0, 30 * DEG, &no_end, 0);
    assert!(vertices.is_empty());
}

#[test]
fn lopsided_legs_keep_the_short_one() {
    // The first leg is ten long, the second a thousand, at a right angle.
    let short_first = |lon: i64, _lat: i64| match lon {
        0 => Vertex::new(0, 0),
        50 => Vertex::new(0, 10),
        _ => Vertex::new(1000, 10),
    };
    let mut vertices = Vec::new();
    subdivide(&mut vertices, 0, 0, 100, &short_first, 0);
    assert_eq!(vertices, vec![pt(0, 0), pt(0, 10)]);
    let short_last = |lon: i64, _lat: i64| match lon {
        0 => Vertex::new(0, 0),
        50 => Vertex::new(1000, 0),
        _ => Vertex::new(1000, 10),
    };
    let mut vertices = Vec::new();
    subdivide(&mut vertices, 0, 0, 100, &short_last, 0);
    assert_eq!(vertices, vec![pt(1000, 0), pt(1000, 10)]);
}

#[test]
fn span_of_length_zero_is_refined_to_nothing() {
    let calls = Cell::new(0u32);
    let counting = |lon: i64, lat: i64| {
        calls.set(calls.get() + 1);
        level(lon, lat)
    };
    let mut vertices = Vec::new();
    subdivide(&mut vertices, 0, 40 * DEG, 40 * DEG, &counting, 0);
    assert!(vertices.is_empty());
    // Each of the fifteen spans down to the depth limit is sampled three times.
    assert_eq!(calls.get(), 45);
    subdivide_multi(&mut vertices, 0, 40 * DEG, 40 * DEG, &counting);
    assert!(vertices.is_empty());
}

#[test]
fn refinement_samples_are_bounded() {
    let calls = Cell::new(0u32);
    let counting = |lon: i64, lat: i64| {
        calls.set(calls.get() + 1);
        ring(lon, lat)
    };
    let mut vertices = Vec::new();
    subdivide_multi(&mut vertices, 0, 0, 1800 * DEG, &counting);
    assert!(vertices.len() <= 2 * 5 * 16);
    assert!(calls.get() <= 5 * 15 * 3);
}

#[test]
fn seeded_straight_span_is_five_segments() {
    let mut vertices = Vec::new();
    subdivide_multi(&mut vertices, 0, 160 * DEG, 200 * DEG, &level);
    let expected = vec![
        pt(5_760_000, 0),
        pt(6_048_000, 0),
        pt(6_048_000, 0),
        pt(6_336_000, 0),
        pt(6_336_000, 0),
        pt(6_624_000, 0),
        pt(6_624_000, 0),
        pt(6_912_000, 0),
        pt(6_912_000, 0),
        pt(7_200_000, 0),
    ];
    assert_eq!(vertices, expected);
}

#[test]
fn seeded_span_drops_seeds_with_undefined_samples() {
    let band = |lon: i64, lat: i64| {
        if 170 * DEG < lon && lon < 190 * DEG {
            None
        } else {
            level(lon, lat)
        }
    };
    let mut vertices = Vec::new();
    subdivide_multi(&mut vertices, 0, 160 * DEG, 200 * DEG, &band);
    let expected = vec![pt(5_760_000, 0), pt(6_048_000, 0), pt(6_912_000, 0), pt(7_200_000, 0)];
    assert_eq!(vertices, expected);
}

#[test]
fn seeded_ring_is_refined_seed_by_seed() {
    // Seeds of 36 degrees, each refined into four segments.
    let mut vertices = Vec::new();
    subdivide_multi(&mut vertices, 0, 0, 180 * DEG, &ring);
    assert_eq!(vertices.len(), 2 * 20);
    assert_eq!(vertices[0], pt(1_000_000, 0));
    assert_eq!(vertices[39], pt(-1_000_000, 0));
    for i in 0..19 {
        assert_eq!(vertices[2 * i + 1], vertices[2 * i + 2]);
    }
}

#[test]
fn seeded_span_that_runs_backwards_is_drawn_backwards() {
    let mut vertices = Vec::new();
    subdivide_multi(&mut vertices, 0, 10 * DEG, 0, &level);
    assert_eq!(vertices.len(), 10);
    assert_eq!(vertices[0], pt(360_000, 0));
    assert_eq!(vertices[1], pt(288_000, 0));
    assert_eq!(vertices[9], pt(0, 0));
}
