//! Planning a trajectory through waypoints: the records that the stages
//! hand to one another.
//!
//! Times, speeds, accelerations and curvatures are `i64` on the caller's
//! scale, as the coordinates in `geometry` are.

use crate::geometry::Pose2d;
use vstd::prelude::*;

pub mod spline_parameterizer;
pub mod trajectory_generator;
pub mod trajectory_parameterizer;

verus! {

/// The least and the greatest acceleration that a constraint allows.
#[derive(Clone, Copy, Debug, PartialEq, Eq, Structural)]
pub struct MinMaxAcceleration {
    pub min_acceleration: i64,
    pub max_acceleration: i64,
}

/// A limit on speed and acceleration that depends on where the vehicle is.
///
/// A constraint answers from its arguments alone: asked twice about the same
/// pose, curvature and speed it says the same. `max_velocity_of` and
/// `min_max_acceleration_of` name those answers in contracts. An
/// implementation leaves them as they are; that its answers depend on
/// nothing else is taken on trust.
pub trait TrajectoryConstraint {
    /// The answer of `max_velocity`.
    open spec fn max_velocity_of(&self, pose: Pose2d, curvature: i64, velocity: i64) -> i64 {
        arbitrary()
    }

    /// The answer of `min_max_acceleration`.
    open spec fn min_max_acceleration_of(
        &self,
        pose: Pose2d,
        curvature: i64,
        speed: i64,
    ) -> MinMaxAcceleration {
        arbitrary()
    }

    /// The greatest speed allowed at `pose` on a curve of `curvature`, for a
    /// vehicle that would otherwise travel at `velocity`.
    fn max_velocity(&self, pose: &Pose2d, curvature: i64, velocity: i64) -> (r: i64)
        ensures
            r == self.max_velocity_of(*pose, curvature, velocity),
    ;

    /// The accelerations allowed at `pose` on a curve of `curvature` at
    /// `speed`.
    fn min_max_acceleration(&self, pose: &Pose2d, curvature: i64, speed: i64) -> (r:
        MinMaxAcceleration)
        ensures
            r == self.min_max_acceleration_of(*pose, curvature, speed),
    ;
}

/// The settings of a trajectory without its constraints.
pub struct TrajectoryConfigNoConstraints {
    pub max_velocity: i64,
    pub max_acceleration: i64,
    pub start_velocity: i64,
    pub end_velocity: i64,
    pub reversed: bool,
}

impl TrajectoryConfigNoConstraints {
    /// The same settings, with an empty list of constraints.
    pub fn to_trajectory_config(self) -> (config: TrajectoryConfig)
        ensures
            config.max_velocity == self.max_velocity,
            config.max_acceleration == self.max_acceleration,
            config.start_velocity == self.start_velocity,
            config.end_velocity == self.end_velocity,
            config.reversed == self.reversed,
            config.constraints@.len() == 0,
    {
        let mut config = TrajectoryConfig::new(self.max_velocity, self.max_acceleration);
        config.start_velocity = self.start_velocity;
        config.end_velocity = self.end_velocity;
        config.reversed = self.reversed;
        config
    }
}

/// The settings of a trajectory.
pub struct TrajectoryConfig {
    pub max_velocity: i64,
    pub max_acceleration: i64,
    pub start_velocity: i64,
    pub end_velocity: i64,
    pub reversed: bool,
    pub constraints: Vec<Box<dyn TrajectoryConstraint>>,
}

impl TrajectoryConfig {
    /// Settings for a forward trajectory that starts and ends at rest and
    /// has no constraints but the two given limits.
    pub fn new(max_velocity: i64, max_acceleration: i64) -> (config: Self)
        ensures
            config.max_velocity == max_velocity,
            config.max_acceleration == max_acceleration,
            config.start_velocity == 0,
            config.end_velocity == 0,
            !config.reversed,
            config.constraints@.len() == 0,
    {
        TrajectoryConfig {
            max_velocity,
            max_acceleration,
            start_velocity: 0,
            end_velocity: 0,
            reversed: false,
            constraints: Vec::new(),
        }
    }
}

/// One sample of a trajectory: when the vehicle is there, how fast it moves
/// and accelerates, and the pose and curvature of the path.
#[derive(Clone, Copy, Debug, PartialEq, Eq, Structural)]
pub struct TrajectoryState {
    pub t: i64,
    pub velocity: i64,
    pub acceleration: i64,
    pub pose: Pose2d,
    pub curvature: i64,
}

/// The time of the last of `states`, and 0 where there is none.
pub open spec fn duration(states: Seq<TrajectoryState>) -> i64 {
    if states.len() == 0 {
        0
    } else {
        states.last().t
    }
}

/// The samples of a trajectory in order, with the time that the whole takes.
#[derive(Debug)]
pub struct Trajectory {
    states: Vec<TrajectoryState>,
    total_time: i64,
}

impl Trajectory {
    #[verifier::type_invariant]
    spec fn total_time_is_last(self) -> bool {
        self.total_time == duration(self.states@)
    }

    /// The samples.
    pub closed spec fn view(&self) -> Seq<TrajectoryState> {
        self.states@
    }

    /// The trajectory without samples, which takes no time.
    pub fn do_nothing() -> (r: Self)
        ensures
            r@ == Seq::<TrajectoryState>::empty(),
    {
        Self { states: Vec::new(), total_time: 0 }
    }

    /// The trajectory through `states`.
    pub fn new(states: Vec<TrajectoryState>) -> (r: Self)
        ensures
            r@ == states@,
    {
        let n = states.len();
        if n > 0 {
            let last_time = states[n - 1].t;
            Self { states, total_time: last_time }
        } else {
            Self::do_nothing()
        }
    }

    /// The time of the last sample; 0 for a trajectory without samples.
    pub fn total_time(&self) -> (r: &i64)
        ensures
            *r == duration(self@),
    {
        proof {
            use_type_invariant(self);
        }
        &self.total_time
    }

    pub fn num_states(&self) -> (r: usize)
        ensures
            r == self@.len(),
    {
        self.states.len()
    }

    pub fn states(&self) -> (r: &Vec<TrajectoryState>)
        ensures
            r@ == self@,
    {
        &self.states
    }

    /// The pose of the first sample.
    pub fn init_pose(&self) -> (r: &Pose2d)
        requires
            self@.len() > 0,
        ensures
            *r == self@[0].pose,
    {
        &self.states[0].pose
    }
}

} // verus!
