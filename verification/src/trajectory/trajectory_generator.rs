//! Joining the samples of consecutive splines into one path.

use crate::trajectory::spline_parameterizer::{
    decides, lemma_samples_in_path_order, parameterization, step_within, parameterize, Interval,
    MalformedSplineError, UNIT,
};
use vstd::prelude::*;

verus! {

/// A place on a path of splines: the parameter `t` on the spline numbered
/// `spline`.
#[derive(Clone, Copy, Debug, PartialEq, Eq, Structural)]
pub struct SplinePoint {
    pub spline: usize,
    pub t: u64,
}

/// The parameters `ts` as places on the spline numbered `spline`.
pub open spec fn on_spline(spline: int, ts: Seq<u64>) -> Seq<SplinePoint> {
    Seq::new(ts.len(), |j: int| SplinePoint { spline: spline as usize, t: ts[j] })
}

/// The judgement `within` on the spline numbered `spline`.
pub open spec fn on_one(within: spec_fn(int, Interval) -> bool, spline: int) -> spec_fn(
    Interval,
) -> bool {
    |piece: Interval| within(spline, piece)
}

/// The places to sample on a path of `count` splines, in path order, under
/// the judgement `within`.
///
/// The path begins with the start of the first spline. Each spline then adds
/// its samples after its start, which is where the spline before it ended.
/// `None` when one of the splines cannot be sampled.
pub open spec fn spline_points(within: spec_fn(int, Interval) -> bool, count: nat) -> Option<
    Seq<SplinePoint>,
>
    decreases count,
{
    if count == 0 {
        Some(Seq::empty())
    } else {
        let spline = count - 1;
        match (spline_points(within, spline as nat), parameterization(on_one(within, spline))) {
            (Some(before), Some(samples)) => Some(
                before + on_spline(
                    spline,
                    if spline == 0 {
                        samples
                    } else {
                        samples.skip(1)
                    },
                ),
            ),
            _ => None,
        }
    }
}

/// Every answer that `judge` can give on a piece of a spline is the one that
/// `within` gives.
pub open spec fn decides_each<F: Fn(usize, u64, u64) -> bool>(
    judge: F,
    within: spec_fn(int, Interval) -> bool,
) -> bool {
    forall|spline: usize, t0: u64, t1: u64, answer: bool| #[trigger]
        call_ensures(judge, (spline, t0, t1), answer) ==> answer == within(
            spline as int,
            Interval { t0, t1 },
        )
}

/// A path on which one spline cannot be sampled cannot be sampled, however
/// many splines follow.
proof fn lemma_failure_stays(within: spec_fn(int, Interval) -> bool, failed: nat, count: nat)
    requires
        failed <= count,
        spline_points(within, failed) is None,
    ensures
        spline_points(within, count) is None,
    decreases count,
{
    if failed < count {
        lemma_failure_stays(within, failed, (count - 1) as nat);
    }
}

/// Adds the parameters of `samples` from position `from` on, as places on
/// the spline numbered `spline`, to `points`.
fn append_on_spline(points: &mut Vec<SplinePoint>, spline: usize, samples: &Vec<u64>, from: usize)
    requires
        from <= samples.len(),
    ensures
        final(points)@ == old(points)@ + on_spline(spline as int, samples@.skip(from as int)),
{
    let ghost kept = samples@.skip(from as int);
    let mut j: usize = from;
    assert(on_spline(spline as int, kept).take(0) =~= Seq::<SplinePoint>::empty());
    assert(points@ =~= old(points)@ + Seq::<SplinePoint>::empty());
    while j < samples.len()
        invariant
            from <= j <= samples.len(),
            kept == samples@.skip(from as int),
            points@ == old(points)@ + on_spline(spline as int, kept).take(j - from),
        decreases samples.len() - j,
    {
        points.push(SplinePoint { spline, t: samples[j] });
        assert(on_spline(spline as int, kept).take(j + 1 - from) =~= on_spline(
            spline as int,
            kept,
        ).take(j - from).push(SplinePoint { spline, t: samples@[j as int] }));
        j += 1;
        assert(points@ =~= old(points)@ + on_spline(spline as int, kept).take(j - from));
    }
    assert(on_spline(spline as int, kept).take(j - from) =~= on_spline(spline as int, kept));
}

/// Samples the spline numbered `spline` of a path.
fn sample_spline<F: Fn(usize, u64, u64) -> bool>(spline: usize, within_tolerance: &F) -> (r: Result<
    Vec<u64>,
    MalformedSplineError,
>)
    requires
        forall|t0: u64, t1: u64|
            t0 <= t1 <= UNIT ==> call_requires(*within_tolerance, (spline, t0, t1)),
    ensures
        forall|within: spec_fn(int, Interval) -> bool| #[trigger]
            decides_each(*within_tolerance, within) ==> match r {
                Ok(samples) => parameterization(on_one(within, spline as int)) == Some(samples@),
                Err(_) => parameterization(on_one(within, spline as int)) is None,
            },
        r matches Ok(samples) ==> samples@.len() >= 1,
{
    let judge = |t0: u64, t1: u64| -> (answer: bool)
        requires
            t0 <= t1 <= UNIT,
        ensures
            call_ensures(*within_tolerance, (spline, t0, t1), answer),
        { within_tolerance(spline, t0, t1) };
    let sampled = parameterize(&judge);
    proof {
        assert forall|within: spec_fn(int, Interval) -> bool| #[trigger]
            decides_each(*within_tolerance, within) implies decides(
            &judge,
            on_one(within, spline as int),
        ) by {
            assert forall|t0: u64, t1: u64, answer: bool| #[trigger]
                call_ensures(&judge, (t0, t1), answer) implies answer == on_one(
                within,
                spline as int,
            )(Interval { t0, t1 }) by {
                assert(call_ensures(*within_tolerance, (spline, t0, t1), answer));
            }
        }
    }
    sampled
}

/// A path of one spline more is the path so far followed by the samples of
/// that spline after its start.
proof fn lemma_one_more(
    within: spec_fn(int, Interval) -> bool,
    spline: nat,
    before: Seq<SplinePoint>,
    samples: Seq<u64>,
)
    requires
        spline_points(within, spline) == Some(before),
        parameterization(on_one(within, spline as int)) == Some(samples),
    ensures
        spline_points(within, spline + 1) == Some(
            before + on_spline(
                spline as int,
                samples.skip(
                    if spline == 0 {
                        0int
                    } else {
                        1int
                    },
                ),
            ),
        ),
{
    assert(samples.skip(0) =~= samples);
}

/// Lists the places to sample on a path of `num_splines` splines.
///
/// `within_tolerance(i, t0, t1)` says whether the arc of spline `i` from
/// parameter `t0` to parameter `t1` may be left whole. The splines are taken
/// in order and each is subdivided on its own. The first that cannot be
/// sampled ends the work with its error.
pub fn spline_points_from_splines<F: Fn(usize, u64, u64) -> bool>(
    num_splines: usize,
    within_tolerance: F,
) -> (r: Result<Vec<SplinePoint>, MalformedSplineError>)
    requires
        forall|spline: usize, t0: u64, t1: u64|
            spline < num_splines && t0 <= t1 <= UNIT ==> call_requires(
                within_tolerance,
                (spline, t0, t1),
            ),
    ensures
        forall|within: spec_fn(int, Interval) -> bool| #[trigger]
            decides_each(within_tolerance, within) ==> match r {
                Ok(points) => spline_points(within, num_splines as nat) == Some(points@),
                Err(_) => spline_points(within, num_splines as nat) is None,
            },
{
    let mut points: Vec<SplinePoint> = Vec::new();
    let mut i: usize = 0;
    while i < num_splines
        invariant
            i <= num_splines,
            forall|spline: usize, t0: u64, t1: u64|
                spline < num_splines && t0 <= t1 <= UNIT ==> call_requires(
                    within_tolerance,
                    (spline, t0, t1),
                ),
            forall|within: spec_fn(int, Interval) -> bool| #[trigger]
                decides_each(within_tolerance, within) ==> spline_points(within, i as nat) == Some(
                    points@,
                ),
        decreases num_splines - i,
    {
        let ghost before = points@;
        match sample_spline(i, &within_tolerance) {
            Err(e) => {
                proof {
                    assert forall|within: spec_fn(int, Interval) -> bool| #[trigger]
                        decides_each(within_tolerance, within) implies spline_points(
                        within,
                        num_splines as nat,
                    ) is None by {
                        assert(spline_points(within, (i + 1) as nat) is None);
                        lemma_failure_stays(within, (i + 1) as nat, num_splines as nat);
                    }
                }
                return Err(e);
            },
            Ok(samples) => {
                let from: usize = if i == 0 {
                    0
                } else {
                    1
                };
                append_on_spline(&mut points, i, &samples, from);
                proof {
                    assert forall|within: spec_fn(int, Interval) -> bool| #[trigger]
                        decides_each(within_tolerance, within) implies spline_points(
                        within,
                        (i + 1) as nat,
                    ) == Some(points@) by {
                        lemma_one_more(within, i as nat, before, samples@);
                    }
                }
            },
        }
        i += 1;
    }
    Ok(points)
}

/// The place `next` comes straight after the place `here` on a sampled
/// path: further along the same spline, or on the spline that begins where
/// the spline of `here` ends; and the arc between the two is one that the
/// judgement accepts.
pub open spec fn follows(
    within: spec_fn(int, Interval) -> bool,
    here: SplinePoint,
    next: SplinePoint,
) -> bool {
    ||| next.spline == here.spline && here.t <= next.t && within(
        here.spline as int,
        Interval { t0: here.t, t1: next.t },
    )
    ||| next.spline == here.spline + 1 && here.t == UNIT && within(
        next.spline as int,
        Interval { t0: 0, t1: next.t },
    )
}

/// The place numbered `i` of `points` follows the one before it.
pub open spec fn follows_at(
    within: spec_fn(int, Interval) -> bool,
    points: Seq<SplinePoint>,
    i: int,
) -> bool {
    follows(within, points[i - 1], points[i])
}

/// Every place of `points` but the first follows the one before it.
pub open spec fn in_path_order(within: spec_fn(int, Interval) -> bool, points: Seq<SplinePoint>) -> bool {
    forall|i: int| 1 <= i < points.len() ==> #[trigger] follows_at(within, points, i)
}

/// Two stretches of path in order make one where the second begins with a
/// place that follows the end of the first.
proof fn lemma_join_in_path_order(
    within: spec_fn(int, Interval) -> bool,
    first: Seq<SplinePoint>,
    second: Seq<SplinePoint>,
)
    requires
        in_path_order(within, first),
        in_path_order(within, second),
        first.len() > 0 && second.len() > 0 ==> follows(within, first.last(), second[0]),
    ensures
        in_path_order(within, first + second),
{
    let all = first + second;
    assert forall|i: int| 1 <= i < all.len() implies #[trigger] follows_at(within, all, i) by {
        if i < first.len() {
            assert(follows_at(within, first, i));
        } else if i == first.len() {
        } else {
            assert(follows_at(within, second, i - first.len()));
        }
    }
}

/// The samples of one spline, from the `from`-th on, are in path order.
proof fn lemma_one_spline_in_path_order(
    within: spec_fn(int, Interval) -> bool,
    spline: int,
    samples: Seq<u64>,
    from: int,
)
    requires
        0 <= spline <= usize::MAX,
        0 <= from <= samples.len(),
        forall|i: int|
            1 <= i < samples.len() ==> #[trigger] step_within(on_one(within, spline), samples, i),
    ensures
        in_path_order(within, on_spline(spline, samples.skip(from))),
{
    let points = on_spline(spline, samples.skip(from));
    assert forall|i: int| 1 <= i < points.len() implies #[trigger] follows_at(within, points, i) by {
        assert(step_within(on_one(within, spline), samples, from + i));
    }
}

/// A sampled path runs from the start of its first spline to the end of its
/// last, every place follows the one before it, and no joint between two
/// splines is given twice.
pub proof fn lemma_spline_points_in_path_order(within: spec_fn(int, Interval) -> bool, count: nat)
    requires
        0 < count <= usize::MAX,
    ensures
        spline_points(within, count) matches Some(points) ==> {
            &&& points.len() > count
            &&& points[0] == (SplinePoint { spline: 0, t: 0 })
            &&& points.last() == (SplinePoint { spline: (count - 1) as usize, t: UNIT })
            &&& in_path_order(within, points)
        },
    decreases count,
{
    let spline = (count - 1) as int;
    if spline_points(within, count) is Some {
        let before = spline_points(within, spline as nat).unwrap();
        let samples = parameterization(on_one(within, spline)).unwrap();
        let from: int = if spline == 0 {
            0
        } else {
            1
        };
        let added = on_spline(spline, samples.skip(from));
        assert(spline_points(within, count) == Some(before + added));
        lemma_samples_in_path_order(on_one(within, spline));
        lemma_one_spline_in_path_order(within, spline, samples, from);
        assert(added.len() == samples.len() - from);
        assert(added.last().t == samples.last());
        if spline == 0 {
            assert(before =~= Seq::<SplinePoint>::empty());
            assert(before + added =~= added);
            assert(added[0].t == samples[0]);
        } else {
            lemma_spline_points_in_path_order(within, spline as nat);
            assert(added[0].t == samples[1]);
            assert(step_within(on_one(within, spline), samples, 1));
            assert(follows(within, before.last(), added[0]));
            lemma_join_in_path_order(within, before, added);
            assert((before + added)[0] == before[0]);
            assert((before + added).last() == added.last());
        }
    }
}

} // verus!
