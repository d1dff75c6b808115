use sky_parallel::longitude::halfway;
use sky_parallel::longitude::interval_length;
use sky_parallel::longitude::is_in_lon_range;
use sky_parallel::longitude::split_at_antipode;
use sky_parallel::longitude::FULL_TURN;
use sky_parallel::longitude::HALF_TURN;
use sky_parallel::longitude::SPLIT_SLACK;

const DEG: i64 = 3_600_000_000;

#[test]
fn turn_constants_are_degrees() {
    assert_eq!(FULL_TURN, 360 * DEG);
    assert_eq!(HALF_TURN, 180 * DEG);
    assert_eq!(2 * HALF_TURN, FULL_TURN);
    // One microradian is 0.2062648 arcseconds.
    assert_eq!(SPLIT_SLACK, 206_265);
}

#[test]
fn interval_length_without_wrap() {
    assert_eq!(interval_length(10 * DEG, 350 * DEG), 340 * DEG);
    assert_eq!(interval_length(0, FULL_TURN - 1), FULL_TURN - 1);
}

#[test]
fn interval_length_through_zero_meridian() {
    assert_eq!(interval_length(350 * DEG, 10 * DEG), 20 * DEG);
    assert_eq!(interval_length(FULL_TURN - 1, 0), 1);
}

#[test]
fn interval_length_of_a_point_is_zero() {
    assert_eq!(interval_length(0, 0), 0);
    assert_eq!(interval_length(123 * DEG, 123 * DEG), 0);
}

#[test]
fn interval_length_stays_below_a_full_turn() {
    let samples = [0, 1, 90 * DEG, HALF_TURN - 1, HALF_TURN, HALF_TURN + 1, 270 * DEG, FULL_TURN - 1];
    for &a in samples.iter() {
        for &b in samples.iter() {
            let len = interval_length(a, b);
            assert!(0 <= len && len < FULL_TURN);
            assert_eq!((a + len) % FULL_TURN, b);
        }
    }
}

#[test]
fn split_keeps_a_start_below_half_a_turn() {
    let (first, second) = split_at_antipode(0, 359 * DEG);
    assert_eq!(first, (0, 180 * DEG));
    assert_eq!(second, (180 * DEG, 179 * DEG));
}

#[test]
fn split_rewraps_a_start_beyond_half_a_turn() {
    let (first, second) = split_at_antipode(350 * DEG, 359 * DEG);
    assert_eq!(first, (-10 * DEG, 180 * DEG));
    assert_eq!(second, (170 * DEG, 179 * DEG));
}

#[test]
fn split_of_a_start_at_half_a_turn_meets_at_zero() {
    let (first, second) = split_at_antipode(HALF_TURN, 200 * DEG);
    assert_eq!(first, (-HALF_TURN, HALF_TURN));
    assert_eq!(second, (0, 20 * DEG));
}

#[test]
fn split_halves_reconstruct_the_span() {
    let starts = [0, 1, 90 * DEG, HALF_TURN - 1, HALF_TURN, 270 * DEG, FULL_TURN - 1];
    let ends = [0, 5 * DEG, 179 * DEG, HALF_TURN, 181 * DEG, 355 * DEG, FULL_TURN - 1];
    for &lon1 in starts.iter() {
        for &lon2 in ends.iter() {
            let len = interval_length(lon1, lon2);
            if len < HALF_TURN {
                continue;
            }
            let (first, second) = split_at_antipode(lon1, len);
            assert_eq!(first.0.rem_euclid(FULL_TURN), lon1);
            assert_eq!(first.1, HALF_TURN);
            assert_eq!(first.0 + first.1, second.0);
            assert!(0 <= second.0 && second.0 < FULL_TURN);
            assert_eq!((second.0 + second.1) % FULL_TURN, lon2);
            assert_eq!(first.1 + second.1, len);
            assert_eq!(interval_length(second.0, lon2), second.1);
        }
    }
}

#[test]
fn plain_interval_is_half_open() {
    assert!(is_in_lon_range(10 * DEG, 10 * DEG, 20 * DEG));
    assert!(is_in_lon_range(15 * DEG, 10 * DEG, 20 * DEG));
    assert!(!is_in_lon_range(20 * DEG, 10 * DEG, 20 * DEG));
    assert!(!is_in_lon_range(9 * DEG, 10 * DEG, 20 * DEG));
    assert!(!is_in_lon_range(21 * DEG, 10 * DEG, 20 * DEG));
}

#[test]
fn plain_interval_given_backwards_is_the_same_interval() {
    assert!(is_in_lon_range(10 * DEG, 20 * DEG, 10 * DEG));
    assert!(is_in_lon_range(15 * DEG, 20 * DEG, 10 * DEG));
    assert!(!is_in_lon_range(20 * DEG, 20 * DEG, 10 * DEG));
    assert!(!is_in_lon_range(9 * DEG, 20 * DEG, 10 * DEG));
}

#[test]
fn plain_interval_matches_simple_range_test() {
    let bounds = [0, 10 * DEG, 100 * DEG, 190 * DEG, 359 * DEG];
    let points = [0, 1, 10 * DEG - 1, 10 * DEG, 50 * DEG, 100 * DEG, 190 * DEG, 359 * DEG, FULL_TURN - 1];
    for &lon1 in bounds.iter() {
        for &lon2 in bounds.iter() {
            if lon1 > lon2 || lon2 - lon1 > HALF_TURN {
                continue;
            }
            for &lon0 in points.iter() {
                assert_eq!(is_in_lon_range(lon0, lon1, lon2), lon1 <= lon0 && lon0 < lon2);
            }
        }
    }
}

#[test]
fn interval_through_zero_meridian() {
    assert!(is_in_lon_range(355 * DEG, 350 * DEG, 10 * DEG));
    assert!(!is_in_lon_range(180 * DEG, 350 * DEG, 10 * DEG));
    assert!(is_in_lon_range(5 * DEG, 350 * DEG, 10 * DEG));
    assert!(is_in_lon_range(0, 350 * DEG, 10 * DEG));
    assert!(is_in_lon_range(350 * DEG, 350 * DEG, 10 * DEG));
    assert!(!is_in_lon_range(10 * DEG, 350 * DEG, 10 * DEG));
    assert!(!is_in_lon_range(349 * DEG, 350 * DEG, 10 * DEG));
}

#[test]
fn interval_through_zero_meridian_given_backwards() {
    assert!(is_in_lon_range(355 * DEG, 10 * DEG, 350 * DEG));
    assert!(!is_in_lon_range(180 * DEG, 10 * DEG, 350 * DEG));
    assert!(is_in_lon_range(5 * DEG, 10 * DEG, 350 * DEG));
    assert!(!is_in_lon_range(10 * DEG, 10 * DEG, 350 * DEG));
    assert!(is_in_lon_range(350 * DEG, 10 * DEG, 350 * DEG));
}

#[test]
fn interval_of_exactly_half_a_turn_is_plain() {
    assert!(is_in_lon_range(90 * DEG, 0, HALF_TURN));
    assert!(!is_in_lon_range(270 * DEG, 0, HALF_TURN));
    assert!(is_in_lon_range(90 * DEG, HALF_TURN, 0));
    // One micro-arcsecond more, and the interval is the one the other way round.
    assert!(is_in_lon_range(270 * DEG, 0, HALF_TURN + 1));
    assert!(!is_in_lon_range(90 * DEG, 0, HALF_TURN + 1));
}

#[test]
fn shared_vertex_of_plain_and_wrapping_edge_counts_once() {
    // A path that runs forward from 340 to 350 degrees and on, through the
    // zero meridian, to 10 degrees: a point at the shared vertex is on one edge.
    let (a, b, c) = (340 * DEG, 350 * DEG, 10 * DEG);
    let hits = [is_in_lon_range(b, a, b), is_in_lon_range(b, b, c)];
    assert_eq!(hits, [false, true]);
    // The same path walked backwards.
    let hits = [is_in_lon_range(b, c, b), is_in_lon_range(b, b, a)];
    assert_eq!(hits, [true, false]);
    // A path that runs forward through the zero meridian first.
    let (a, b, c) = (350 * DEG, 10 * DEG, 20 * DEG);
    let hits = [is_in_lon_range(b, a, b), is_in_lon_range(b, b, c)];
    assert_eq!(hits, [false, true]);
}

#[test]
fn turning_vertex_counts_twice_or_not_at_all() {
    // Forward to 350 degrees, then back.
    let (a, b, c) = (340 * DEG, 350 * DEG, 345 * DEG);
    assert_eq!([is_in_lon_range(b, a, b), is_in_lon_range(b, b, c)], [false, false]);
    // Backward to 340 degrees, then forward through the zero meridian.
    let (a, b, c) = (350 * DEG, 340 * DEG, 10 * DEG);
    assert_eq!([is_in_lon_range(b, a, b), is_in_lon_range(b, b, c)], [true, true]);
}

#[test]
fn range_test_takes_extreme_longitudes() {
    assert!(!is_in_lon_range(0, i64::MIN, i64::MAX));
    assert!(is_in_lon_range(i64::MAX, i64::MIN, i64::MAX));
    assert!(!is_in_lon_range(i64::MIN, i64::MAX, i64::MIN));
}

#[test]
fn halfway_rounds_down() {
    assert_eq!(halfway(0, 10), 5);
    assert_eq!(halfway(1, 2), 1);
    assert_eq!(halfway(2, 1), 1);
    assert_eq!(halfway(-3, 0), -2);
    assert_eq!(halfway(-1, -2), -2);
    assert_eq!(halfway(-1, 1), 0);
    assert_eq!(halfway(-1, 0), -1);
    assert_eq!(halfway(7, 7), 7);
}

#[test]
fn halfway_of_extreme_longitudes() {
    assert_eq!(halfway(i64::MAX, i64::MAX), i64::MAX);
    assert_eq!(halfway(i64::MIN, i64::MIN), i64::MIN);
    assert_eq!(halfway(i64::MIN, i64::MAX), -1);
    assert_eq!(halfway(i64::MAX, i64::MAX - 1), i64::MAX - 1);
}
