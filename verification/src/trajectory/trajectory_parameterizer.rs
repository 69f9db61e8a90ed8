//! Limits on speed and acceleration along a sampled path.
//!
//! Time parameterization sweeps the samples of a path forward, backward and
//! forward again. At every sample it asks each constraint what it allows and
//! keeps the tightest answer. This module holds that combining, the record
//! that the sweeps work on, and the errors they end in.

use crate::decimal::{decimal, to_decimal};
use crate::scalar::{
    beyond, exceeds, greater, lemma_negated_reverses, lesser, negate, negated,
};
use crate::trajectory::spline_parameterizer::PoseWithCurvature;
use crate::trajectory::{MinMaxAcceleration, TrajectoryConstraint, TrajectoryState};
use vstd::prelude::*;

verus! {

/// What is known of one sample while its limits are worked out: the sample,
/// its distance along the path, the greatest speed found feasible so far and
/// the range of feasible accelerations.
#[derive(Clone, Copy, Debug)]
pub struct ConstrainedState {
    pub pose: PoseWithCurvature,
    pub distance: i64,
    pub max_velocity: i64,
    pub min_acceleration: i64,
    pub max_acceleration: i64,
}

impl ConstrainedState {
    /// The state of a sample of which nothing is known yet.
    pub fn from_pose(pose: PoseWithCurvature) -> (r: Self)
        ensures
            r == (ConstrainedState {
                pose,
                distance: 0,
                max_velocity: 0,
                min_acceleration: 0,
                max_acceleration: 0,
            }),
    {
        Self { pose, distance: 0, max_velocity: 0, min_acceleration: 0, max_acceleration: 0 }
    }

    /// The state at an end of the path: the vehicle is to pass `pose`, at
    /// `distance` along the path, at `velocity`, and may accelerate either
    /// way up to `max_acceleration`.
    pub fn boundary(
        pose: PoseWithCurvature,
        distance: i64,
        velocity: i64,
        max_acceleration: i64,
    ) -> (r: Self)
        ensures
            r == (ConstrainedState {
                pose,
                distance,
                max_velocity: velocity,
                min_acceleration: negated(max_acceleration),
                max_acceleration,
            }),
    {
        Self {
            pose,
            distance,
            max_velocity: velocity,
            min_acceleration: negate(max_acceleration),
            max_acceleration,
        }
    }
}

/// A constraint's bounds contradict each other.
pub open spec fn inverted(limits: MinMaxAcceleration) -> bool {
    limits.min_acceleration > limits.max_acceleration
}

/// The speed that the constraints are asked about: the feasible speed, taken
/// backwards where the vehicle reverses.
pub open spec fn signed_speed(reverse: bool, state: ConstrainedState) -> i64 {
    if reverse {
        negated(state.max_velocity)
    } else {
        state.max_velocity
    }
}

/// A constraint's bounds in the direction of travel. A vehicle that reverses
/// speeds up where its velocity falls, so the two bounds change places and
/// signs.
pub open spec fn directed(reverse: bool, limits: MinMaxAcceleration) -> MinMaxAcceleration {
    if reverse {
        MinMaxAcceleration {
            min_acceleration: negated(limits.max_acceleration),
            max_acceleration: negated(limits.min_acceleration),
        }
    } else {
        limits
    }
}

/// Bounds that do not contradict each other still do not when they are taken
/// in the direction of travel.
pub proof fn lemma_directed_keeps_order(reverse: bool, limits: MinMaxAcceleration)
    requires
        !inverted(limits),
    ensures
        !inverted(directed(reverse, limits)),
{
    lemma_negated_reverses(limits.min_acceleration, limits.max_acceleration);
}

/// `state` with its range of accelerations cut down to what `limits` allows
/// as well.
pub open spec fn tightened(
    reverse: bool,
    limits: MinMaxAcceleration,
    state: ConstrainedState,
) -> ConstrainedState {
    ConstrainedState {
        min_acceleration: greater(
            state.min_acceleration,
            directed(reverse, limits).min_acceleration,
        ),
        max_acceleration: lesser(
            state.max_acceleration,
            directed(reverse, limits).max_acceleration,
        ),
        ..state
    }
}

/// Applies the bounds of one constraint to `state`.
///
/// Bounds that contradict each other are an error and leave `state` alone.
pub fn tighten(reverse: bool, limits: &MinMaxAcceleration, state: &mut ConstrainedState) -> (r:
    Result<(), AccelerationLimitError>)
    ensures
        r is Err <==> inverted(*limits),
        r is Err ==> *final(state) == *old(state),
        r is Ok ==> *final(state) == tightened(reverse, *limits, *old(state)),
{
    if limits.min_acceleration > limits.max_acceleration {
        return Err(AccelerationLimitError);
    }
    let floor = if reverse {
        negate(limits.max_acceleration)
    } else {
        limits.min_acceleration
    };
    let ceiling = if reverse {
        negate(limits.min_acceleration)
    } else {
        limits.max_acceleration
    };
    if floor > state.min_acceleration {
        state.min_acceleration = floor;
    }
    if ceiling < state.max_acceleration {
        state.max_acceleration = ceiling;
    }
    Ok(())
}

/// What the constraints allow at `state`, one answer for each, in their
/// order.
pub open spec fn acceleration_limits(
    reverse: bool,
    constraints: Seq<Box<dyn TrajectoryConstraint>>,
    state: ConstrainedState,
) -> Seq<MinMaxAcceleration> {
    Seq::new(
        constraints.len(),
        |i: int|
            constraints[i].min_max_acceleration_of(
                state.pose.0,
                state.pose.1,
                signed_speed(reverse, state),
            ),
    )
}

/// `state` after the bounds in `limits` have been applied in order, up to the
/// first that contradict each other, and whether none did.
pub open spec fn enforced(
    reverse: bool,
    limits: Seq<MinMaxAcceleration>,
    state: ConstrainedState,
) -> (ConstrainedState, bool)
    decreases limits.len(),
{
    if limits.len() == 0 {
        (state, true)
    } else if inverted(limits[0]) {
        (state, false)
    } else {
        enforced(reverse, limits.skip(1), tightened(reverse, limits[0], state))
    }
}

/// Cuts the range of accelerations of `state` down to what every constraint
/// allows.
///
/// Each constraint is asked about the sample of `state` at its feasible
/// speed. The constraints are taken in order. One whose least acceleration
/// is above its greatest ends the work with an error; what the constraints
/// before it allowed has been applied by then.
pub fn enforce_acceleration_limits(
    reverse: bool,
    constraints: &Vec<Box<dyn TrajectoryConstraint>>,
    state: &mut ConstrainedState,
) -> (r: Result<(), AccelerationLimitError>)
    ensures
        (*final(state), r is Ok) == enforced(
            reverse,
            acceleration_limits(reverse, constraints@, *old(state)),
            *old(state),
        ),
{
    let ghost limits = acceleration_limits(reverse, constraints@, *old(state));
    let speed = if reverse {
        negate(state.max_velocity)
    } else {
        state.max_velocity
    };
    let mut i: usize = 0;
    assert(limits.skip(0) =~= limits);
    while i < constraints.len()
        invariant
            i <= constraints.len(),
            limits == acceleration_limits(reverse, constraints@, *old(state)),
            state.pose == old(state).pose,
            speed == signed_speed(reverse, *old(state)),
            enforced(reverse, limits, *old(state)) == enforced(reverse, limits.skip(i as int), *state),
        decreases constraints.len() - i,
    {
        let min_max_accel = constraints[i].min_max_acceleration(&state.pose.0, state.pose.1, speed);
        let ghost rest = limits.skip(i as int);
        assert(rest[0] == min_max_accel);
        assert(rest.skip(1) =~= limits.skip(i + 1));
        if tighten(reverse, &min_max_accel, state).is_err() {
            return Err(AccelerationLimitError);
        }
        i += 1;
    }
    assert(limits.skip(i as int).len() == 0);
    Ok(())
}

/// The greatest speed that is no more than `velocity` and no more than any
/// of `caps`.
pub open spec fn capped(velocity: i64, caps: Seq<i64>) -> i64
    decreases caps.len(),
{
    if caps.len() == 0 {
        velocity
    } else {
        lesser(capped(velocity, caps.drop_last()), caps.last())
    }
}

/// The speeds that the constraints allow at `state` for a vehicle that may
/// go as fast as `max_velocity`, one answer for each, in their order.
pub open spec fn velocity_limits(
    constraints: Seq<Box<dyn TrajectoryConstraint>>,
    state: ConstrainedState,
    max_velocity: i64,
) -> Seq<i64> {
    Seq::new(
        constraints.len(),
        |i: int| constraints[i].max_velocity_of(state.pose.0, state.pose.1, max_velocity),
    )
}

/// Cuts the feasible speed of `state` down to what every constraint allows.
///
/// Each constraint is asked about the sample of `state` and the greatest
/// speed `max_velocity` of the whole trajectory.
pub fn enforce_velocity_limits(
    constraints: &Vec<Box<dyn TrajectoryConstraint>>,
    state: &mut ConstrainedState,
    max_velocity: i64,
)
    ensures
        *final(state) == (ConstrainedState {
            max_velocity: capped(
                old(state).max_velocity,
                velocity_limits(constraints@, *old(state), max_velocity),
            ),
            ..*old(state)
        }),
{
    let ghost caps = velocity_limits(constraints@, *old(state), max_velocity);
    let mut i: usize = 0;
    assert(caps.take(0) =~= Seq::<i64>::empty());
    while i < constraints.len()
        invariant
            i <= constraints.len(),
            caps == velocity_limits(constraints@, *old(state), max_velocity),
            *state == (ConstrainedState {
                max_velocity: capped(old(state).max_velocity, caps.take(i as int)),
                ..*old(state)
            }),
        decreases constraints.len() - i,
    {
        let cap = constraints[i].max_velocity(&state.pose.0, state.pose.1, max_velocity);
        assert(caps.take(i + 1).drop_last() =~= caps.take(i as int));
        assert(caps.take(i + 1).last() == cap);
        if cap < state.max_velocity {
            state.max_velocity = cap;
        }
        i += 1;
    }
    assert(caps.take(i as int) =~= caps);
}

/// The combined limits are the tightest of all: the work fails exactly when
/// some constraint contradicts itself, and where it does not, the range of
/// accelerations has the greatest of the least accelerations for its floor
/// and the least of the greatest for its ceiling, the range that `state`
/// came with counted in. Nothing else in the state changes.
pub proof fn lemma_enforced_is_tightest(
    reverse: bool,
    limits: Seq<MinMaxAcceleration>,
    state: ConstrainedState,
)
    ensures
        ({
            let (after, feasible) = enforced(reverse, limits, state);
            &&& feasible <==> forall|i: int| 0 <= i < limits.len() ==> !inverted(#[trigger] limits[i])
            &&& after == (ConstrainedState {
                min_acceleration: after.min_acceleration,
                max_acceleration: after.max_acceleration,
                ..state
            })
            &&& after.min_acceleration >= state.min_acceleration
            &&& after.max_acceleration <= state.max_acceleration
            &&& feasible ==> {
                &&& forall|i: int|
                    0 <= i < limits.len() ==> after.min_acceleration >= directed(
                        reverse,
                        #[trigger] limits[i],
                    ).min_acceleration && after.max_acceleration <= directed(
                        reverse,
                        limits[i],
                    ).max_acceleration
                &&& after.min_acceleration == state.min_acceleration || exists|i: int|
                    0 <= i < limits.len() && after.min_acceleration == directed(
                        reverse,
                        #[trigger] limits[i],
                    ).min_acceleration
                &&& after.max_acceleration == state.max_acceleration || exists|i: int|
                    0 <= i < limits.len() && after.max_acceleration == directed(
                        reverse,
                        #[trigger] limits[i],
                    ).max_acceleration
            }
        }),
    decreases limits.len(),
{
    if limits.len() > 0 {
        if inverted(limits[0]) {
        } else {
            let rest = limits.skip(1);
            let next = tightened(reverse, limits[0], state);
            lemma_enforced_is_tightest(reverse, rest, next);
            let (after, feasible) = enforced(reverse, rest, next);
            if feasible {
                assert forall|i: int| 0 <= i < limits.len() implies !inverted(
                    #[trigger] limits[i],
                ) && after.min_acceleration >= directed(reverse, limits[i]).min_acceleration
                    && after.max_acceleration <= directed(reverse, limits[i]).max_acceleration by {
                    if i > 0 {
                        assert(limits[i] == rest[i - 1]);
                    }
                }
                if after.min_acceleration != state.min_acceleration {
                    if after.min_acceleration == next.min_acceleration {
                        assert(after.min_acceleration == directed(
                            reverse,
                            limits[0],
                        ).min_acceleration);
                    } else {
                        let j = choose|j: int|
                            0 <= j < rest.len() && after.min_acceleration == directed(
                                reverse,
                                #[trigger] rest[j],
                            ).min_acceleration;
                        assert(limits[j + 1] == rest[j]);
                    }
                }
                if after.max_acceleration != state.max_acceleration {
                    if after.max_acceleration == next.max_acceleration {
                        assert(after.max_acceleration == directed(
                            reverse,
                            limits[0],
                        ).max_acceleration);
                    } else {
                        let j = choose|j: int|
                            0 <= j < rest.len() && after.max_acceleration == directed(
                                reverse,
                                #[trigger] rest[j],
                            ).max_acceleration;
                        assert(limits[j + 1] == rest[j]);
                    }
                }
            } else {
                let j = choose|j: int| 0 <= j < rest.len() && inverted(#[trigger] rest[j]);
                assert(limits[j + 1] == rest[j]);
            }
        }
    }
}

/// The capped speed is the least of all: no more than the speed that came
/// in, no more than any cap, and one of them.
pub proof fn lemma_capped_is_least(velocity: i64, caps: Seq<i64>)
    ensures
        capped(velocity, caps) <= velocity,
        forall|i: int| 0 <= i < caps.len() ==> capped(velocity, caps) <= #[trigger] caps[i],
        capped(velocity, caps) == velocity || exists|i: int|
            0 <= i < caps.len() && capped(velocity, caps) == #[trigger] caps[i],
    decreases caps.len(),
{
    if caps.len() > 0 {
        let front = caps.drop_last();
        lemma_capped_is_least(velocity, front);
        assert forall|i: int| 0 <= i < caps.len() implies capped(velocity, caps) <= #[trigger] caps[i] by {
            if i < front.len() {
                assert(caps[i] == front[i]);
            }
        }
        if capped(velocity, caps) != velocity {
            if capped(velocity, caps) == caps.last() {
                assert(caps[caps.len() - 1] == caps.last());
            } else {
                let j = choose|j: int| 0 <= j < front.len() && capped(velocity, front) == #[trigger] front[j];
                assert(caps[j] == front[j]);
            }
        }
    }
}

/// The pass of time parameterization in which something failed.
#[derive(Debug, Clone, Copy, PartialEq, Eq, Structural)]
pub enum ParameterizerStep {
    Forward,
    Backward,
    Time,
}

/// Time parameterization failed at one sample of one pass.
#[derive(Debug)]
pub struct ParameterizerError {
    /// The sample, counted from 1.
    pub iteration: usize,
    /// The number of samples.
    pub num_iterations: usize,
    pub step: ParameterizerStep,
}

/// What a `ParameterizerError` says of a failure in `step` at sample
/// `iteration` of `num_iterations`.
pub open spec fn parameterizer_text(
    step: ParameterizerStep,
    iteration: nat,
    num_iterations: nat,
) -> Seq<char> {
    match step {
        ParameterizerStep::Forward => "Something went wrong at forward iteration "@ + decimal(
            iteration,
        ) + " out of "@ + decimal(num_iterations) + " of time parameterization."@,
        ParameterizerStep::Backward => "Something went wrong at backward iteration "@ + decimal(
            iteration,
        ) + " from "@ + decimal(num_iterations) + " to 1 of time parameterization."@,
        ParameterizerStep::Time => "Something went wrong at time constraint iteration "@ + decimal(
            iteration,
        ) + " out of "@ + decimal(num_iterations)
            + " of time parameterization. It seems like the previous steps resulted in a zero value for acceleration and velocity at a non-initial point."@,
    }
}

impl ParameterizerError {
    /// The error as a sentence for the user.
    pub fn to_string(&self) -> (r: String)
        ensures
            r@ == parameterizer_text(self.step, self.iteration as nat, self.num_iterations as nat),
    {
        let iteration = to_decimal(self.iteration);
        let num_iterations = to_decimal(self.num_iterations);
        match self.step {
            ParameterizerStep::Forward => {
                let mut text = String::from_str("Something went wrong at forward iteration ");
                text.append(iteration.as_str());
                text.append(" out of ");
                text.append(num_iterations.as_str());
                text.append(" of time parameterization.");
                text
            },
            ParameterizerStep::Backward => {
                let mut text = String::from_str("Something went wrong at backward iteration ");
                text.append(iteration.as_str());
                text.append(" from ");
                text.append(num_iterations.as_str());
                text.append(" to 1 of time parameterization.");
                text
            },
            ParameterizerStep::Time => {
                let mut text = String::from_str(
                    "Something went wrong at time constraint iteration ",
                );
                text.append(iteration.as_str());
                text.append(" out of ");
                text.append(num_iterations.as_str());
                text.append(
                    " of time parameterization. It seems like the previous steps resulted in a zero value for acceleration and velocity at a non-initial point.",
                );
                text
            },
        }
    }
}

/// A constraint reported a least acceleration above its greatest.
#[derive(Debug)]
pub struct AccelerationLimitError;

/// What `AccelerationLimitError` says.
pub open spec fn acceleration_limit_text() -> Seq<char> {
    "The constraint's min acceleration was greater than its max acceleration. To debug this, remove all constraints from the config and add each one individually. If the offending constraint was packaged with WPILib, please file a bug report."@
}

impl AccelerationLimitError {
    /// The error as a sentence for the user.
    pub fn to_string(&self) -> (r: String)
        ensures
            r@ == acceleration_limit_text(),
    {
        String::from_str(
            "The constraint's min acceleration was greater than its max acceleration. To debug this, remove all constraints from the config and add each one individually. If the offending constraint was packaged with WPILib, please file a bug report.",
        )
    }
}

/// The error of the pass `step` at the sample numbered `index` of
/// `num_iterations`; samples are counted from 1 in errors.
pub open spec fn failure(step: ParameterizerStep, index: usize, num_iterations: usize) -> ParameterizerError {
    ParameterizerError { iteration: (index + 1) as usize, num_iterations, step }
}

/// A sample of the forward pass before the constraints limit its
/// acceleration: it is no faster than the trajectory allows, than can be
/// reached from the sample before it, and than any constraint allows, and it
/// may accelerate either way up to `max_acceleration`.
pub open spec fn forward_opened(
    constraints: Seq<Box<dyn TrajectoryConstraint>>,
    state: ConstrainedState,
    reachable_velocity: i64,
    max_velocity: i64,
    max_acceleration: i64,
) -> ConstrainedState {
    ConstrainedState {
        max_velocity: capped(
            lesser(max_velocity, reachable_velocity),
            velocity_limits(constraints, state, max_velocity),
        ),
        min_acceleration: negated(max_acceleration),
        max_acceleration,
        ..state
    }
}

/// Forward pass: works out the limits at the sample of `state`.
///
/// `reachable_velocity` is the speed that the vehicle can have gained since
/// the sample before. The feasible speed becomes the least of it, of
/// `max_velocity` and of what the constraints allow. The range of
/// accelerations is opened to `max_acceleration` either way and then cut
/// down by the constraints. A constraint with contradicting bounds fails the
/// pass at this sample.
pub fn constrain_forward(
    reversed: bool,
    constraints: &Vec<Box<dyn TrajectoryConstraint>>,
    state: &mut ConstrainedState,
    reachable_velocity: i64,
    max_velocity: i64,
    max_acceleration: i64,
    index: usize,
    num_iterations: usize,
) -> (r: Result<(), ParameterizerError>)
    requires
        index < num_iterations,
    ensures
        ({
            let opened = forward_opened(
                constraints@,
                *old(state),
                reachable_velocity,
                max_velocity,
                max_acceleration,
            );
            let (after, feasible) = enforced(
                reversed,
                acceleration_limits(reversed, constraints@, opened),
                opened,
            );
            &&& *final(state) == after
            &&& match r {
                Ok(_) => feasible,
                Err(e) => !feasible && e == failure(
                    ParameterizerStep::Forward,
                    index,
                    num_iterations,
                ),
            }
        }),
{
    state.max_velocity = if max_velocity <= reachable_velocity {
        max_velocity
    } else {
        reachable_velocity
    };
    state.min_acceleration = negate(max_acceleration);
    state.max_acceleration = max_acceleration;
    let ghost reset = *state;
    enforce_velocity_limits(constraints, state, max_velocity);
    assert(velocity_limits(constraints@, reset, max_velocity) =~= velocity_limits(
        constraints@,
        *old(state),
        max_velocity,
    ));
    match enforce_acceleration_limits(reversed, constraints, state) {
        Ok(_) => Ok(()),
        Err(_) => Err(
            ParameterizerError {
                iteration: index + 1,
                num_iterations,
                step: ParameterizerStep::Forward,
            },
        ),
    }
}

/// The forward pass keeps every sample within the limits of the trajectory:
/// it is no faster than `max_velocity` nor than can be reached, and it
/// accelerates no more than `max_acceleration` either way. Where it is and
/// how far along the path stay as they were.
pub proof fn lemma_forward_keeps_limits(
    reversed: bool,
    constraints: Seq<Box<dyn TrajectoryConstraint>>,
    state: ConstrainedState,
    reachable_velocity: i64,
    max_velocity: i64,
    max_acceleration: i64,
)
    ensures
        ({
            let opened = forward_opened(
                constraints,
                state,
                reachable_velocity,
                max_velocity,
                max_acceleration,
            );
            let (after, feasible) = enforced(
                reversed,
                acceleration_limits(reversed, constraints, opened),
                opened,
            );
            &&& after.max_velocity <= max_velocity
            &&& after.max_velocity <= reachable_velocity
            &&& after.min_acceleration >= negated(max_acceleration)
            &&& after.max_acceleration <= max_acceleration
            &&& after.pose == state.pose
            &&& after.distance == state.distance
        }),
{
    let opened = forward_opened(constraints, state, reachable_velocity, max_velocity, max_acceleration);
    lemma_capped_is_least(
        lesser(max_velocity, reachable_velocity),
        velocity_limits(constraints, state, max_velocity),
    );
    lemma_enforced_is_tightest(
        reversed,
        acceleration_limits(reversed, constraints, opened),
        opened,
    );
}

/// The backward pass never raises the feasible speed of a sample, and
/// changes neither where the sample is nor how far along the path.
pub proof fn lemma_backward_only_lowers(
    reversed: bool,
    constraints: Seq<Box<dyn TrajectoryConstraint>>,
    state: ConstrainedState,
    new_max_velocity: i64,
)
    requires
        new_max_velocity < state.max_velocity,
    ensures
        ({
            let lowered = ConstrainedState { max_velocity: new_max_velocity, ..state };
            let (after, feasible) = enforced(
                reversed,
                acceleration_limits(reversed, constraints, lowered),
                lowered,
            );
            &&& after.max_velocity == new_max_velocity
            &&& after.min_acceleration >= state.min_acceleration
            &&& after.max_acceleration <= state.max_acceleration
            &&& after.pose == state.pose
            &&& after.distance == state.distance
        }),
{
    let lowered = ConstrainedState { max_velocity: new_max_velocity, ..state };
    lemma_enforced_is_tightest(
        reversed,
        acceleration_limits(reversed, constraints, lowered),
        lowered,
    );
}

/// Forward pass: settles the acceleration from the sample before to the
/// current one.
///
/// `actual_acceleration` is what it takes to go from the feasible speed of
/// `predecessor` to that of `current`; `actual_less_tolerance` is that value
/// less the tolerance, and `floor_plus_tolerance` the least acceleration of
/// `predecessor` plus the tolerance. Where `current` cannot accelerate that
/// much, `predecessor` may accelerate no more than `current`, and the limits
/// of `current` must be worked out again: the answer is `true`. Otherwise the
/// pair is settled, and `predecessor` is held to the actual acceleration
/// where that is above its floor.
pub fn settle_forward(
    predecessor: &mut ConstrainedState,
    current: &ConstrainedState,
    actual_acceleration: i64,
    actual_less_tolerance: i64,
    floor_plus_tolerance: i64,
) -> (again: bool)
    ensures
        again == (current.max_acceleration < actual_less_tolerance),
        *final(predecessor) == (ConstrainedState {
            max_acceleration: if again {
                current.max_acceleration
            } else if actual_acceleration > floor_plus_tolerance {
                actual_acceleration
            } else {
                old(predecessor).max_acceleration
            },
            ..*old(predecessor)
        }),
{
    if current.max_acceleration < actual_less_tolerance {
        predecessor.max_acceleration = current.max_acceleration;
        true
    } else {
        if actual_acceleration > floor_plus_tolerance {
            predecessor.max_acceleration = actual_acceleration;
        }
        false
    }
}

/// Backward pass: lowers the feasible speed of the sample of `state` to
/// `new_max_velocity`, the speed from which the vehicle can still slow down
/// to that of the sample after it.
///
/// A speed that is no lower than the feasible one leaves the sample as it is:
/// the answer is `false`. Otherwise the speed is lowered and the constraints
/// cut the range of accelerations down once more; a constraint with
/// contradicting bounds fails the pass at this sample.
pub fn constrain_backward(
    reversed: bool,
    constraints: &Vec<Box<dyn TrajectoryConstraint>>,
    state: &mut ConstrainedState,
    new_max_velocity: i64,
    index: usize,
    num_iterations: usize,
) -> (r: Result<bool, ParameterizerError>)
    requires
        index < num_iterations,
    ensures
        new_max_velocity >= old(state).max_velocity ==> r == Ok::<bool, ParameterizerError>(false)
            && *final(state) == *old(state),
        new_max_velocity < old(state).max_velocity ==> ({
            let lowered = ConstrainedState { max_velocity: new_max_velocity, ..*old(state) };
            let (after, feasible) = enforced(
                reversed,
                acceleration_limits(reversed, constraints@, lowered),
                lowered,
            );
            &&& *final(state) == after
            &&& match r {
                Ok(lowered_it) => feasible && lowered_it,
                Err(e) => !feasible && e == failure(
                    ParameterizerStep::Backward,
                    index,
                    num_iterations,
                ),
            }
        }),
{
    if new_max_velocity >= state.max_velocity {
        return Ok(false);
    }
    state.max_velocity = new_max_velocity;
    match enforce_acceleration_limits(reversed, constraints, state) {
        Ok(_) => Ok(true),
        Err(_) => Err(
            ParameterizerError {
                iteration: index + 1,
                num_iterations,
                step: ParameterizerStep::Backward,
            },
        ),
    }
}

/// Backward pass: settles the deceleration from the sample of `state` to the
/// one after it.
///
/// `actual_acceleration` is what it takes to go from the feasible speed of
/// `state` to that of `successor`, and `actual_plus_tolerance` that value
/// plus the tolerance. Where `state` cannot decelerate that much, `successor`
/// may decelerate no more than `state`, and the speed of `state` must be
/// worked out again: the answer is `true`. Otherwise the pair is settled and
/// `successor` is held to the actual acceleration.
pub fn settle_backward(
    successor: &mut ConstrainedState,
    state: &ConstrainedState,
    actual_acceleration: i64,
    actual_plus_tolerance: i64,
) -> (again: bool)
    ensures
        again == (state.min_acceleration > actual_plus_tolerance),
        *final(successor) == (ConstrainedState {
            min_acceleration: if again {
                state.min_acceleration
            } else {
                actual_acceleration
            },
            ..*old(successor)
        }),
{
    if state.min_acceleration > actual_plus_tolerance {
        successor.min_acceleration = state.min_acceleration;
        true
    } else {
        successor.min_acceleration = actual_acceleration;
        false
    }
}

/// How the time between two samples is worked out.
#[derive(Debug, Clone, Copy, PartialEq, Eq, Structural)]
pub enum TimeStep {
    /// From the change of speed and the acceleration.
    ByAcceleration,
    /// From the distance and the speed.
    ByVelocity,
}

/// Integration: chooses how the time from the sample before to the sample
/// numbered `index` is worked out.
///
/// `acceleration` is the acceleration between the two and `velocity` the
/// speed at the first of them. An acceleration beyond the tolerance gives
/// the time; failing that, a speed beyond the tolerance does. Where both
/// vanish the vehicle would never arrive, and the pass fails at this sample.
pub fn time_step(
    acceleration: i64,
    velocity: i64,
    tolerance: i64,
    index: usize,
    num_iterations: usize,
) -> (r: Result<TimeStep, ParameterizerError>)
    requires
        index < num_iterations,
    ensures
        r == if exceeds(acceleration, tolerance) {
            Ok::<TimeStep, ParameterizerError>(TimeStep::ByAcceleration)
        } else if exceeds(velocity, tolerance) {
            Ok(TimeStep::ByVelocity)
        } else {
            Err(failure(ParameterizerStep::Time, index, num_iterations))
        },
{
    if beyond(acceleration, tolerance) {
        Ok(TimeStep::ByAcceleration)
    } else if beyond(velocity, tolerance) {
        Ok(TimeStep::ByVelocity)
    } else {
        Err(ParameterizerError { iteration: index + 1, num_iterations, step: ParameterizerStep::Time })
    }
}

/// `v` as the trajectory reports it: a vehicle that reverses moves and
/// accelerates the other way.
pub open spec fn reported(reversed: bool, v: i64) -> i64 {
    if reversed {
        negated(v)
    } else {
        v
    }
}

/// The samples of a trajectory after one more has been timed.
///
/// The new sample is reached at `t` with `velocity`; `acceleration` held
/// since the sample before, which is where it is recorded, and the new
/// sample carries it too until a later one replaces it.
pub open spec fn timed(
    states: Seq<TrajectoryState>,
    t: i64,
    velocity: i64,
    acceleration: i64,
    reversed: bool,
    sample: PoseWithCurvature,
) -> Seq<TrajectoryState> {
    let earlier = if states.len() == 0 {
        states
    } else {
        states.update(
            states.len() - 1,
            TrajectoryState { acceleration: reported(reversed, acceleration), ..states.last() },
        )
    };
    earlier.push(
        TrajectoryState {
            t,
            velocity: reported(reversed, velocity),
            acceleration: reported(reversed, acceleration),
            pose: sample.0,
            curvature: sample.1,
        },
    )
}

/// Integration: adds the sample that is reached at `t` to `states`.
pub fn push_timed(
    states: &mut Vec<TrajectoryState>,
    t: i64,
    velocity: i64,
    acceleration: i64,
    reversed: bool,
    sample: PoseWithCurvature,
)
    ensures
        final(states)@ == timed(old(states)@, t, velocity, acceleration, reversed, sample),
{
    let velocity = if reversed {
        negate(velocity)
    } else {
        velocity
    };
    let acceleration = if reversed {
        negate(acceleration)
    } else {
        acceleration
    };
    let n = states.len();
    if n > 0 {
        let mut last = states[n - 1];
        last.acceleration = acceleration;
        states.set(n - 1, last);
    }
    states.push(
        TrajectoryState { t, velocity, acceleration, pose: sample.0, curvature: sample.1 },
    );
}

/// Reversing a trajectory turns the sign of the speed and acceleration of a
/// sample and leaves its time, pose and curvature as they are.
pub proof fn lemma_reversed_sample(
    states: Seq<TrajectoryState>,
    t: i64,
    velocity: i64,
    acceleration: i64,
    sample: PoseWithCurvature,
)
    ensures
        ({
            let forward = timed(states, t, velocity, acceleration, false, sample).last();
            let backward = timed(states, t, velocity, acceleration, true, sample).last();
            &&& backward.velocity == negated(forward.velocity)
            &&& backward.acceleration == negated(forward.acceleration)
            &&& backward.t == forward.t
            &&& backward.pose == forward.pose
            &&& backward.curvature == forward.curvature
        }),
{
}

} // verus!
