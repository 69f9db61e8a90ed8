//! Adaptive subdivision of one spline.
//!
//! A spline is sampled where its curve bends: the parameter interval
//! `[0, 1]` is bisected until the arc over every piece is within the
//! caller's tolerance. The caller judges a piece; this module decides which
//! piece is judged next, keeps the samples in path order and stops a
//! subdivision that does not settle.
//!
//! Parameters are exact binary fractions: the integer `k` stands for
//! `k / UNIT`.

use crate::geometry::{Pose2d, Twist2d};
use crate::scalar::{beyond, exceeds};
use vstd::arithmetic::power2::{lemma2_to64, lemma_pow2_pos, lemma_pow2_unfold, pow2};
use vstd::prelude::*;

verus! {

/// A sample of a path: the pose there, and the curvature of the path.
pub type PoseWithCurvature = (Pose2d, i64);

/// The integer that stands for the parameter 1; `2^53`.
pub const UNIT: u64 = 9_007_199_254_740_992;

/// The number of pieces that may be judged before a spline is given up.
pub const MAX_ITERATIONS: u16 = 5000;

/// The subdivision of a spline did not settle within its allowance of steps.
#[derive(Debug, Clone, Copy)]
pub struct MalformedSplineError;

/// What `MalformedSplineError` says.
pub open spec fn malformed_spline_text() -> Seq<char> {
    "Could not parameterize a malformed spline. This means that you probably had two or more adjacent waypoints that were very close together with headings in opposing directions."@
}

impl MalformedSplineError {
    /// The error as a sentence for the user.
    pub fn to_string(&self) -> (r: String)
        ensures
            r@ == malformed_spline_text(),
    {
        String::from_str(
            "Could not parameterize a malformed spline. This means that you probably had two or more adjacent waypoints that were very close together with headings in opposing directions.",
        )
    }
}

/// How far apart the poses at the two ends of an arc may be for the arc to
/// be left whole: along the heading, across it, and in heading.
#[derive(Debug, Clone, Copy, PartialEq, Eq, Structural)]
pub struct Tolerance {
    pub max_dx: i64,
    pub max_dy: i64,
    pub max_dth: i64,
}

impl Tolerance {
    /// No part of `twist` is larger than its tolerance.
    pub open spec fn admits(self, twist: Twist2d) -> bool {
        !(exceeds(twist.dy, self.max_dy) || exceeds(twist.dx, self.max_dx) || exceeds(
            twist.dth,
            self.max_dth,
        ))
    }

    /// Whether an arc may be left whole, given the twist that carries the
    /// pose at its start to the pose at its end.
    pub fn within(&self, twist: &Twist2d) -> (r: bool)
        ensures
            r == self.admits(*twist),
    {
        !(beyond(twist.dy, self.max_dy) || beyond(twist.dx, self.max_dx) || beyond(
            twist.dth,
            self.max_dth,
        ))
    }
}

/// A piece of the parameter range, from `t0` to `t1`.
#[derive(Debug, Clone, Copy, PartialEq, Eq, Structural)]
pub struct Interval {
    pub t0: u64,
    pub t1: u64,
}

impl Interval {
    /// The piece lies inside `[0, 1]` and does not run backwards.
    pub open spec fn valid(self) -> bool {
        self.t0 <= self.t1 <= UNIT
    }

    /// The parameter halfway along the piece, rounded down.
    pub open spec fn mid(self) -> u64 {
        ((self.t0 + self.t1) / 2) as u64
    }

    /// The half that comes first along the path.
    pub open spec fn lower(self) -> Interval {
        Interval { t0: self.t0, t1: self.mid() }
    }

    /// The half that comes second along the path.
    pub open spec fn upper(self) -> Interval {
        Interval { t0: self.mid(), t1: self.t1 }
    }
}

/// The whole parameter range.
pub open spec fn whole() -> Interval {
    Interval { t0: 0, t1: UNIT }
}

/// Bisection of `piece` under the judgement `within`, with `budget` pieces
/// left to judge.
///
/// A piece that `within` accepts contributes its end `t1`. A piece that it
/// rejects is replaced by its lower half followed by its upper half. The
/// result holds the ends of the accepted pieces in path order and the number
/// of pieces that were judged; it is `None` when more than `budget` pieces
/// would have to be judged.
pub open spec fn bisect(within: spec_fn(Interval) -> bool, piece: Interval, budget: nat) -> Option<
    (Seq<u64>, nat),
>
    decreases budget,
{
    if budget == 0 {
        None
    } else if within(piece) {
        Some((seq![piece.t1], 1nat))
    } else {
        match bisect(within, piece.lower(), (budget - 1) as nat) {
            None => None,
            Some((first, used)) => {
                let left = budget - 1 - used;
                if left <= 0 {
                    None
                } else {
                    match bisect(within, piece.upper(), left as nat) {
                        None => None,
                        Some((second, more)) => Some((first + second, 1 + used + more)),
                    }
                }
            },
        }
    }
}

/// The samples of a spline under the judgement `within`: the parameter 0,
/// then the ends of the accepted pieces of `[0, 1]` in path order. `None`
/// when `MAX_ITERATIONS` or more pieces would have to be judged.
pub open spec fn parameterization(within: spec_fn(Interval) -> bool) -> Option<Seq<u64>> {
    match bisect(within, whole(), (MAX_ITERATIONS - 1) as nat) {
        Some((ends, _)) => Some(seq![0u64] + ends),
        None => None,
    }
}

/// Every answer that `judge` can give on a piece is the one that `within`
/// gives.
pub open spec fn decides<F: Fn(u64, u64) -> bool>(judge: F, within: spec_fn(Interval) -> bool) -> bool {
    forall|t0: u64, t1: u64, answer: bool| #[trigger]
        call_ensures(judge, (t0, t1), answer) ==> answer == within(Interval { t0, t1 })
}

/// What is still to come from the pieces on `stack`, its last entry first,
/// with `budget` pieces left to judge.
spec fn drain(within: spec_fn(Interval) -> bool, stack: Seq<Interval>, budget: nat) -> Option<
    Seq<u64>,
>
    decreases stack.len(),
{
    if stack.len() == 0 {
        Some(Seq::empty())
    } else {
        match bisect(within, stack.last(), budget) {
            None => None,
            Some((ends, used)) => match drain(within, stack.drop_last(), (budget - used) as nat) {
                None => None,
                Some(rest) => Some(ends + rest),
            },
        }
    }
}

/// The samples so far followed by what is still to come.
spec fn outcome(samples: Seq<u64>, coming: Option<Seq<u64>>) -> Option<Seq<u64>> {
    match coming {
        Some(rest) => Some(samples + rest),
        None => None,
    }
}

/// A bisection that succeeds judges at least one piece and no more than its
/// budget.
proof fn lemma_bisect_used(within: spec_fn(Interval) -> bool, piece: Interval, budget: nat)
    ensures
        bisect(within, piece, budget) matches Some((ends, used)) ==> 1 <= used <= budget,
    decreases budget,
{
    if budget > 0 && !within(piece) {
        lemma_bisect_used(within, piece.lower(), (budget - 1) as nat);
        if let Some((first, used)) = bisect(within, piece.lower(), (budget - 1) as nat) {
            if budget - 1 - used > 0 {
                lemma_bisect_used(within, piece.upper(), (budget - 1 - used) as nat);
            }
        }
    }
}

/// Taking an accepted piece off the stack yields its end.
proof fn lemma_drain_accept(
    within: spec_fn(Interval) -> bool,
    rest: Seq<Interval>,
    top: Interval,
    budget: nat,
)
    requires
        budget > 0,
        within(top),
    ensures
        drain(within, rest.push(top), budget) == outcome(
            seq![top.t1],
            drain(within, rest, (budget - 1) as nat),
        ),
{
    let stack = rest.push(top);
    assert(stack.last() == top);
    assert(stack.drop_last() =~= rest);
}

/// Replacing a rejected piece on the stack by its halves, the lower half on
/// top, changes nothing in what is still to come.
proof fn lemma_drain_split(
    within: spec_fn(Interval) -> bool,
    rest: Seq<Interval>,
    top: Interval,
    budget: nat,
)
    requires
        budget > 0,
        !within(top),
    ensures
        drain(within, rest.push(top), budget) == drain(
            within,
            rest.push(top.upper()).push(top.lower()),
            (budget - 1) as nat,
        ),
{
    let stack = rest.push(top);
    assert(stack.last() == top);
    assert(stack.drop_last() =~= rest);
    let halves = rest.push(top.upper()).push(top.lower());
    assert(halves.last() == top.lower());
    assert(halves.drop_last() =~= rest.push(top.upper()));
    assert(rest.push(top.upper()).last() == top.upper());
    assert(rest.push(top.upper()).drop_last() =~= rest);
    let b1 = (budget - 1) as nat;
    let mid_stack = rest.push(top.upper());
    lemma_bisect_used(within, top.lower(), b1);
    match bisect(within, top.lower(), b1) {
        None => {
            assert(bisect(within, top, budget) is None);
            assert(drain(within, halves, b1) is None);
        },
        Some((first, used)) => {
            let b2 = (b1 - used) as nat;
            assert(drain(within, halves, b1) == match drain(within, mid_stack, b2) {
                None => None,
                Some(after) => Some(first + after),
            });
            if b2 == 0 {
                assert(bisect(within, top, budget) is None);
                assert(bisect(within, top.upper(), 0) is None);
                assert(drain(within, mid_stack, b2) is None);
            } else {
                lemma_bisect_used(within, top.upper(), b2);
                match bisect(within, top.upper(), b2) {
                    None => {
                        assert(bisect(within, top, budget) is None);
                        assert(drain(within, mid_stack, b2) is None);
                    },
                    Some((second, more)) => {
                        let b3 = (b2 - more) as nat;
                        assert(bisect(within, top, budget) == Some(
                            (first + second, 1 + used + more),
                        ));
                        assert((budget - (1 + used + more)) as nat == b3);
                        assert(drain(within, mid_stack, b2) == match drain(within, rest, b3) {
                            None => None,
                            Some(tail) => Some(second + tail),
                        });
                        match drain(within, rest, b3) {
                            None => {},
                            Some(tail) => {
                                assert((first + second) + tail =~= first + (second + tail));
                            },
                        }
                    },
                }
            }
        },
    }
}

/// Samples one spline adaptively.
///
/// `within_tolerance(t0, t1)` says whether the arc from parameter `t0` to
/// parameter `t1` is short and straight enough to be left whole. Starting
/// from `[0, 1]`, the piece nearest the start of the path is judged next; a
/// rejected piece gives way to its two halves. The result lists the
/// parameters to sample, in path order, beginning with 0. When
/// `MAX_ITERATIONS` pieces have been judged the spline is given up.
pub fn parameterize<F: Fn(u64, u64) -> bool>(within_tolerance: F) -> (r: Result<
    Vec<u64>,
    MalformedSplineError,
>)
    requires
        forall|t0: u64, t1: u64| t0 <= t1 <= UNIT ==> call_requires(within_tolerance, (t0, t1)),
    ensures
        forall|within: spec_fn(Interval) -> bool| #[trigger]
            decides(within_tolerance, within) ==> match r {
                Ok(samples) => parameterization(within) == Some(samples@),
                Err(_) => parameterization(within).is_none(),
            },
        r matches Ok(samples) ==> samples@.len() >= 1 && samples@[0] == 0,
{
    let mut spline_points: Vec<u64> = Vec::new();
    spline_points.push(0);
    let mut stack: Vec<Interval> = Vec::new();
    stack.push(Interval { t0: 0, t1: UNIT });
    let mut iterations: u16 = 0;

    proof {
        assert(stack@ =~= Seq::<Interval>::empty().push(whole()));
        assert forall|within: spec_fn(Interval) -> bool| #[trigger]
            decides(within_tolerance, within) implies outcome(
            spline_points@,
            drain(within, stack@, (MAX_ITERATIONS - 1 - iterations) as nat),
        ) == parameterization(within) by {
            let budget = (MAX_ITERATIONS - 1) as nat;
            assert(stack@.last() == whole());
            assert(stack@.drop_last() =~= Seq::<Interval>::empty());
            lemma_bisect_used(within, whole(), budget);
            match bisect(within, whole(), budget) {
                None => {},
                Some((ends, used)) => {
                    assert(drain(within, Seq::<Interval>::empty(), (budget - used) as nat) == Some(
                        Seq::<u64>::empty(),
                    ));
                    assert(ends + Seq::<u64>::empty() =~= ends);
                    assert(spline_points@ =~= seq![0u64]);
                },
            }
        }
    }

    while stack.len() > 0
        invariant
            iterations < MAX_ITERATIONS,
            spline_points@.len() >= 1,
            spline_points@[0] == 0,
            forall|t0: u64, t1: u64| t0 <= t1 <= UNIT ==> call_requires(within_tolerance, (t0, t1)),
            forall|i: int| 0 <= i < stack.len() ==> (#[trigger] stack[i]).valid(),
            forall|within: spec_fn(Interval) -> bool| #[trigger]
                decides(within_tolerance, within) ==> outcome(
                    spline_points@,
                    drain(within, stack@, (MAX_ITERATIONS - 1 - iterations) as nat),
                ) == parameterization(within),
        decreases MAX_ITERATIONS - iterations,
    {
        let ghost before = stack@;
        let ghost sampled = spline_points@;
        let ghost budget = (MAX_ITERATIONS - 1 - iterations) as nat;
        let current = stack.pop().unwrap();
        assert(before[before.len() - 1].valid());
        assert(before =~= stack@.push(current));
        let accepted = within_tolerance(current.t0, current.t1);
        if accepted {
            spline_points.push(current.t1);
        } else {
            let mid = (current.t0 + current.t1) / 2;
            stack.push(Interval { t0: mid, t1: current.t1 });
            stack.push(Interval { t0: current.t0, t1: mid });
        }
        iterations += 1;
        if iterations >= MAX_ITERATIONS {
            proof {
                assert forall|within: spec_fn(Interval) -> bool| #[trigger]
                    decides(within_tolerance, within) implies parameterization(
                    within,
                ).is_none() by {
                    assert(budget == 0);
                    assert(bisect(within, before.last(), 0) is None);
                }
            }
            return Err(MalformedSplineError);
        }
        proof {
            assert forall|within: spec_fn(Interval) -> bool| #[trigger]
                decides(within_tolerance, within) implies outcome(
                spline_points@,
                drain(within, stack@, (MAX_ITERATIONS - 1 - iterations) as nat),
            ) == parameterization(within) by {
                let rest = before.drop_last();
                assert(before =~= rest.push(current));
                assert(within(current) == accepted);
                if accepted {
                    lemma_drain_accept(within, rest, current, budget);
                    assert(stack@ =~= rest);
                    match drain(within, rest, (budget - 1) as nat) {
                        None => {},
                        Some(tail) => {
                            assert(sampled + (seq![current.t1] + tail) =~= sampled.push(
                                current.t1,
                            ) + tail);
                        },
                    }
                } else {
                    lemma_drain_split(within, rest, current, budget);
                    assert(stack@ =~= rest.push(current.upper()).push(current.lower()));
                }
            }
        }
    }
    proof {
        assert forall|within: spec_fn(Interval) -> bool| #[trigger]
            decides(within_tolerance, within) implies parameterization(within) == Some(
            spline_points@,
        ) by {
            assert(stack@ =~= Seq::<Interval>::empty());
            assert(spline_points@ + Seq::<u64>::empty() =~= spline_points@);
        }
    }
    Ok(spline_points)
}

/// A spline whose whole range is within tolerance is sampled at its two
/// ends and nowhere else.
pub proof fn lemma_accepted_whole(within: spec_fn(Interval) -> bool)
    requires
        within(whole()),
    ensures
        parameterization(within) == Some(seq![0u64, UNIT]),
{
    assert(seq![0u64] + seq![UNIT] =~= seq![0u64, UNIT]);
}

/// A judgement that accepts no piece exhausts every budget.
pub proof fn lemma_never_within(within: spec_fn(Interval) -> bool, piece: Interval, budget: nat)
    requires
        forall|p: Interval| !#[trigger] within(p),
    ensures
        bisect(within, piece, budget) is None,
    decreases budget,
{
    if budget > 0 {
        lemma_never_within(within, piece.lower(), (budget - 1) as nat);
    }
}

/// A spline of which no piece is ever within tolerance is given up.
pub proof fn lemma_never_within_fails(within: spec_fn(Interval) -> bool)
    requires
        forall|p: Interval| !#[trigger] within(p),
    ensures
        parameterization(within) is None,
{
    lemma_never_within(within, whole(), (MAX_ITERATIONS - 1) as nat);
}

/// `ends` continues a path that has reached `start`: it runs forward, stops
/// at `stop`, and `within` accepts the piece between each parameter and the
/// one before it.
pub open spec fn covers(within: spec_fn(Interval) -> bool, start: u64, ends: Seq<u64>, stop: u64) -> bool {
    &&& ends.len() >= 1
    &&& ends.last() == stop
    &&& forall|i: int|
        0 <= i < ends.len() ==> {
            let from = if i == 0 {
                start
            } else {
                ends[i - 1]
            };
            &&& from <= #[trigger] ends[i] <= stop
            &&& within(Interval { t0: from, t1: ends[i] })
        }
}

/// Two covers laid end to end cover the whole.
proof fn lemma_covers_join(
    within: spec_fn(Interval) -> bool,
    start: u64,
    first: Seq<u64>,
    mid: u64,
    second: Seq<u64>,
    stop: u64,
)
    requires
        covers(within, start, first, mid),
        covers(within, mid, second, stop),
        mid <= stop,
    ensures
        covers(within, start, first + second, stop),
{
    let all = first + second;
    assert forall|i: int| 0 <= i < all.len() implies {
        let from = if i == 0 {
            start
        } else {
            all[i - 1]
        };
        &&& from <= #[trigger] all[i] <= stop
        &&& within(Interval { t0: from, t1: all[i] })
    } by {
        if i < first.len() {
            assert(all[i] == first[i]);
            if i > 0 {
                assert(all[i - 1] == first[i - 1]);
            }
        } else {
            let j = i - first.len();
            assert(all[i] == second[j]);
            if j == 0 {
                assert(all[i - 1] == first.last());
            } else {
                assert(all[i - 1] == second[j - 1]);
            }
        }
    }
}

/// The ends that a bisection yields run forward from the start of the piece
/// to its end, each piece between neighbours is one that the judgement
/// accepts, and a bisection into `n` pieces judges `2n - 1` of them.
pub proof fn lemma_bisect_covers(within: spec_fn(Interval) -> bool, piece: Interval, budget: nat)
    requires
        piece.valid(),
    ensures
        bisect(within, piece, budget) matches Some((ends, used)) ==> covers(
            within,
            piece.t0,
            ends,
            piece.t1,
        ) && used == 2 * ends.len() - 1,
    decreases budget,
{
    if budget > 0 && !within(piece) {
        let b1 = (budget - 1) as nat;
        lemma_bisect_covers(within, piece.lower(), b1);
        if let Some((first, used)) = bisect(within, piece.lower(), b1) {
            if budget - 1 - used > 0 {
                let b2 = (budget - 1 - used) as nat;
                lemma_bisect_covers(within, piece.upper(), b2);
                if let Some((second, more)) = bisect(within, piece.upper(), b2) {
                    lemma_covers_join(within, piece.t0, first, piece.mid(), second, piece.t1);
                }
            }
        }
    }
}

/// The sample numbered `i` is no earlier on the path than the one before it,
/// and `within` accepts the piece between the two.
pub open spec fn step_within(within: spec_fn(Interval) -> bool, samples: Seq<u64>, i: int) -> bool {
    samples[i - 1] <= samples[i] && within(Interval { t0: samples[i - 1], t1: samples[i] })
}

/// The samples of a spline begin at 0, run forward to 1, are at most 2501,
/// and between each sample and the next lies a piece that the judgement
/// accepts.
pub proof fn lemma_samples_in_path_order(within: spec_fn(Interval) -> bool)
    ensures
        parameterization(within) matches Some(samples) ==> {
            &&& 2 <= samples.len() <= 2501
            &&& samples[0] == 0
            &&& samples.last() == UNIT
            &&& forall|i: int| 1 <= i < samples.len() ==> #[trigger] step_within(within, samples, i)
        },
{
    let budget = (MAX_ITERATIONS - 1) as nat;
    lemma_bisect_covers(within, whole(), budget);
    lemma_bisect_used(within, whole(), budget);
    if let Some((ends, used)) = bisect(within, whole(), budget) {
        let samples = seq![0u64] + ends;
        assert forall|i: int| 1 <= i < samples.len() implies #[trigger] step_within(
            within,
            samples,
            i,
        ) by {
            assert(samples[i] == ends[i - 1]);
            if i > 1 {
                assert(samples[i - 1] == ends[i - 2]);
            }
        }
        assert(samples.last() == ends.last());
    }
}

/// A bisection settles once pieces are short enough: where `within` accepts
/// every piece no longer than `width`, a piece no longer than
/// `width * 2^depth` is bisected with at most `2^(depth + 1) - 1` judgements.
pub proof fn lemma_bisect_settles(
    within: spec_fn(Interval) -> bool,
    piece: Interval,
    width: nat,
    depth: nat,
    budget: nat,
)
    requires
        forall|p: Interval| p.valid() && p.t1 - p.t0 <= width ==> #[trigger] within(p),
        piece.valid(),
        piece.t1 - piece.t0 <= width * pow2(depth),
        budget >= pow2(depth + 1) - 1,
    ensures
        bisect(within, piece, budget) matches Some((ends, used)) && used <= pow2(depth + 1) - 1,
    decreases depth,
{
    lemma_pow2_pos(depth);
    lemma_pow2_unfold(depth + 1);
    if within(piece) {
    } else {
        if depth == 0 {
            lemma2_to64();
            assert(width * pow2(0) == width) by (nonlinear_arith)
                requires
                    pow2(0) == 1,
            ;
        } else {
            let shallower = (depth - 1) as nat;
            lemma_pow2_unfold(depth);
            lemma_pow2_pos(shallower);
            assert(width * pow2(depth) == 2 * (width * pow2(shallower))) by (nonlinear_arith)
                requires
                    pow2(depth) == 2 * pow2(shallower),
            ;
            let b1 = (budget - 1) as nat;
            lemma_bisect_settles(within, piece.lower(), width, shallower, b1);
            let (first, used) = bisect(within, piece.lower(), b1).unwrap();
            let b2 = (budget - 1 - used) as nat;
            lemma_bisect_settles(within, piece.upper(), width, shallower, b2);
        }
    }
}

/// A spline settles once its pieces are short enough: where every piece no
/// longer than `width` is within tolerance and `2^depth` such pieces span the
/// range, the spline is sampled, at no more than `2^depth + 1` parameters.
/// The allowance of steps is enough for `depth` up to 11.
pub proof fn lemma_settles_at_depth(within: spec_fn(Interval) -> bool, width: nat, depth: nat)
    requires
        forall|p: Interval| p.valid() && p.t1 - p.t0 <= width ==> #[trigger] within(p),
        UNIT <= width * pow2(depth),
        depth <= 11,
    ensures
        parameterization(within) matches Some(samples) && samples.len() <= pow2(depth) + 1,
{
    let budget = (MAX_ITERATIONS - 1) as nat;
    lemma2_to64();
    lemma_pow2_unfold(depth + 1);
    lemma_pow2_pos(depth);
    assert(pow2(depth) <= pow2(11)) by {
        if depth < 11 {
            vstd::arithmetic::power2::lemma_pow2_strictly_increases(depth, 11);
        }
    }
    lemma_bisect_settles(within, whole(), width, depth, budget);
    lemma_bisect_covers(within, whole(), budget);
}

} // verus!
