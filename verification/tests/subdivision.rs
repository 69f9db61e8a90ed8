use robot_trajectory::trajectory::spline_parameterizer::{parameterize, MAX_ITERATIONS, UNIT};
use robot_trajectory::trajectory::trajectory_generator::{spline_points_from_splines, SplinePoint};
use std::cell::Cell;

#[test]
fn whole_range_within_tolerance_gives_the_two_ends() {
    let judged = Cell::new(0u32);
    let samples = parameterize(|_, _| {
        judged.set(judged.get() + 1);
        true
    })
    .unwrap();
    assert_eq!(samples, vec![0, UNIT]);
    assert_eq!(judged.get(), 1);
}

#[test]
fn pieces_of_an_eighth_give_nine_samples_in_path_order() {
    let eighth = UNIT / 8;
    let samples = parameterize(|t0, t1| t1 - t0 <= eighth).unwrap();
    let expected: Vec<u64> = (0..=8).map(|k| k * eighth).collect();
    assert_eq!(samples, expected);
}

#[test]
fn lower_half_is_judged_before_upper_half() {
    let order = std::cell::RefCell::new(Vec::new());
    let quarter = UNIT / 4;
    let samples = parameterize(|t0, t1| {
        order.borrow_mut().push((t0, t1));
        t1 - t0 <= quarter
    })
    .unwrap();
    assert_eq!(samples, vec![0, quarter, 2 * quarter, 3 * quarter, UNIT]);
    assert_eq!(
        order.into_inner(),
        vec![
            (0, UNIT),
            (0, UNIT / 2),
            (0, quarter),
            (quarter, UNIT / 2),
            (UNIT / 2, UNIT),
            (UNIT / 2, 3 * quarter),
            (3 * quarter, UNIT),
        ]
    );
}

#[test]
fn uneven_subdivision_follows_the_curve() {
    // Only the first quarter of the spline bends: pieces there must be an
    // eighth or less, elsewhere a half will do.
    let samples = parameterize(|t0, t1| {
        if t0 < UNIT / 4 {
            t1 - t0 <= UNIT / 8
        } else {
            t1 - t0 <= UNIT / 2
        }
    })
    .unwrap();
    assert_eq!(samples, vec![0, UNIT / 8, UNIT / 4, UNIT / 2, UNIT]);
}

#[test]
fn a_spline_that_never_settles_is_malformed() {
    let judged = Cell::new(0u32);
    let r = parameterize(|_, _| {
        judged.set(judged.get() + 1);
        false
    });
    assert!(r.is_err());
    assert_eq!(judged.get(), MAX_ITERATIONS as u32);
}

#[test]
fn depth_eleven_settles_within_the_allowance() {
    let piece = UNIT / 2048;
    let samples = parameterize(|t0, t1| t1 - t0 <= piece).unwrap();
    assert_eq!(samples.len(), 2049);
    assert!(samples.windows(2).all(|w| w[1] - w[0] == piece));
}

#[test]
fn depth_twelve_exhausts_the_allowance() {
    let piece = UNIT / 4096;
    assert!(parameterize(|t0, t1| t1 - t0 <= piece).is_err());
}

/// Accepts pieces of 1/4096, and pieces of 1/2048 from the `split`-th on, so
/// that the spline falls into `2048 + split` pieces.
fn into_pieces(split: u64) -> impl Fn(u64, u64) -> bool {
    let coarse = UNIT / 2048;
    move |t0, t1| t1 - t0 <= coarse / 2 || (t1 - t0 == coarse && t0 >= split * coarse)
}

#[test]
fn the_allowance_is_enough_for_2500_pieces() {
    // 2500 pieces take 4999 judgements.
    let samples = parameterize(into_pieces(452)).unwrap();
    assert_eq!(samples.len(), 2501);
    assert_eq!(samples[0], 0);
    assert_eq!(samples[2500], UNIT);
    assert!(samples.windows(2).all(|w| w[0] < w[1]));
}

#[test]
fn the_allowance_is_not_enough_for_2501_pieces() {
    assert!(parameterize(into_pieces(453)).is_err());
}

#[test]
fn splines_are_joined_without_repeating_the_joints() {
    let half = UNIT / 2;
    let points = spline_points_from_splines(3, |spline, t0, t1| {
        if spline == 1 {
            t1 - t0 <= half
        } else {
            true
        }
    })
    .unwrap();
    assert_eq!(
        points,
        vec![
            SplinePoint { spline: 0, t: 0 },
            SplinePoint { spline: 0, t: UNIT },
            SplinePoint { spline: 1, t: half },
            SplinePoint { spline: 1, t: UNIT },
            SplinePoint { spline: 2, t: UNIT },
        ]
    );
}

#[test]
fn no_splines_give_no_points() {
    let points = spline_points_from_splines(0, |_, _, _| true).unwrap();
    assert!(points.is_empty());
}

#[test]
fn one_malformed_spline_fails_the_path() {
    let asked_third = Cell::new(false);
    let r = spline_points_from_splines(3, |spline, _, _| {
        if spline == 2 {
            asked_third.set(true);
        }
        spline != 1
    });
    assert!(r.is_err());
    assert!(!asked_third.get());
}
