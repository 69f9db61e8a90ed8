use robot_trajectory::geometry::{Pose2d, Rotation2d, Translation2d};
use robot_trajectory::geometry::Twist2d;
use robot_trajectory::scalar::{beyond, negate};
use robot_trajectory::trajectory::spline_parameterizer::Tolerance;
use robot_trajectory::trajectory::trajectory_parameterizer::{
    constrain_backward, constrain_forward, enforce_acceleration_limits, enforce_velocity_limits,
    push_timed, settle_backward, settle_forward, tighten, time_step, ConstrainedState,
    ParameterizerStep, TimeStep,
};
use robot_trajectory::trajectory::{
    MinMaxAcceleration, Trajectory, TrajectoryConfig, TrajectoryConfigNoConstraints,
    TrajectoryConstraint, TrajectoryState,
};
use std::cell::RefCell;
use std::rc::Rc;

/// Allows the same speed and accelerations everywhere.
struct Flat {
    velocity: i64,
    min: i64,
    max: i64,
}

impl TrajectoryConstraint for Flat {
    fn max_velocity(&self, _pose: &Pose2d, _curvature: i64, _velocity: i64) -> i64 {
        self.velocity
    }

    fn min_max_acceleration(&self, _pose: &Pose2d, _curvature: i64, _speed: i64) -> MinMaxAcceleration {
        MinMaxAcceleration { min_acceleration: self.min, max_acceleration: self.max }
    }
}

/// Allows what it is asked about, and keeps a record of the questions.
struct Recorder {
    asked: Rc<RefCell<Vec<(Pose2d, i64, i64)>>>,
}

impl TrajectoryConstraint for Recorder {
    fn max_velocity(&self, pose: &Pose2d, curvature: i64, velocity: i64) -> i64 {
        self.asked.borrow_mut().push((*pose, curvature, velocity));
        velocity
    }

    fn min_max_acceleration(&self, pose: &Pose2d, curvature: i64, speed: i64) -> MinMaxAcceleration {
        self.asked.borrow_mut().push((*pose, curvature, speed));
        MinMaxAcceleration { min_acceleration: -speed.abs(), max_acceleration: speed.abs() }
    }
}

fn pose(x: i64, y: i64, radians: i64) -> Pose2d {
    Pose2d::new(Translation2d::new(x, y), Rotation2d { radians })
}

fn state(max_velocity: i64, min_acceleration: i64, max_acceleration: i64) -> ConstrainedState {
    ConstrainedState {
        pose: (pose(10, 20, 3), 7),
        distance: 50,
        max_velocity,
        min_acceleration,
        max_acceleration,
    }
}

fn flat(velocity: i64, min: i64, max: i64) -> Box<dyn TrajectoryConstraint> {
    Box::new(Flat { velocity, min, max })
}

#[test]
fn negate_is_its_own_inverse_but_at_the_bottom() {
    assert_eq!(negate(5), -5);
    assert_eq!(negate(-5), 5);
    assert_eq!(negate(0), 0);
    assert_eq!(negate(i64::MAX), -i64::MAX);
    assert_eq!(negate(i64::MIN), i64::MAX);
}

#[test]
fn beyond_looks_at_the_size() {
    assert!(beyond(6, 5));
    assert!(beyond(-6, 5));
    assert!(!beyond(5, 5));
    assert!(!beyond(-5, 5));
    assert!(!beyond(0, 5));
    assert!(beyond(i64::MIN, i64::MAX));
    assert!(!beyond(-i64::MAX, i64::MAX));
}

#[test]
fn an_arc_is_within_tolerance_when_every_part_of_its_twist_is() {
    let tolerance = Tolerance { max_dx: 127, max_dy: 1, max_dth: 87 };
    assert!(tolerance.within(&Twist2d { dx: 127, dy: 1, dth: 87 }));
    assert!(tolerance.within(&Twist2d { dx: -127, dy: -1, dth: -87 }));
    assert!(tolerance.within(&Twist2d { dx: 0, dy: 0, dth: 0 }));
    assert!(!tolerance.within(&Twist2d { dx: 128, dy: 0, dth: 0 }));
    assert!(!tolerance.within(&Twist2d { dx: 0, dy: -2, dth: 0 }));
    assert!(!tolerance.within(&Twist2d { dx: 0, dy: 0, dth: 88 }));
    // Each part has its own tolerance.
    assert!(tolerance.within(&Twist2d { dx: 2, dy: 0, dth: 0 }));
    assert!(!tolerance.within(&Twist2d { dx: 0, dy: 2, dth: 0 }));
}

#[test]
fn from_pose_knows_nothing_yet() {
    let s = ConstrainedState::from_pose((pose(1, 2, 3), 4));
    assert_eq!(s.pose, (pose(1, 2, 3), 4));
    assert_eq!((s.distance, s.max_velocity, s.min_acceleration, s.max_acceleration), (0, 0, 0, 0));
}

#[test]
fn boundary_may_accelerate_either_way() {
    let s = ConstrainedState::boundary((pose(1, 2, 3), 4), 90, 15, 200);
    assert_eq!(s.pose, (pose(1, 2, 3), 4));
    assert_eq!((s.distance, s.max_velocity, s.min_acceleration, s.max_acceleration), (90, 15, -200, 200));
}

#[test]
fn tighten_keeps_the_narrower_bounds() {
    let mut s = state(100, -200, 200);
    assert!(tighten(false, &MinMaxAcceleration { min_acceleration: -50, max_acceleration: 300 }, &mut s).is_ok());
    assert_eq!((s.min_acceleration, s.max_acceleration), (-50, 200));
    assert!(tighten(false, &MinMaxAcceleration { min_acceleration: -80, max_acceleration: 120 }, &mut s).is_ok());
    assert_eq!((s.min_acceleration, s.max_acceleration), (-50, 120));
}

#[test]
fn tighten_in_reverse_swaps_and_negates_the_bounds() {
    let mut s = state(100, -200, 200);
    assert!(tighten(true, &MinMaxAcceleration { min_acceleration: -50, max_acceleration: 120 }, &mut s).is_ok());
    assert_eq!((s.min_acceleration, s.max_acceleration), (-120, 50));
}

#[test]
fn tighten_rejects_contradicting_bounds_and_leaves_the_state() {
    let mut s = state(100, -200, 200);
    assert!(tighten(false, &MinMaxAcceleration { min_acceleration: 10, max_acceleration: 9 }, &mut s).is_err());
    assert_eq!((s.min_acceleration, s.max_acceleration), (-200, 200));
    assert!(tighten(false, &MinMaxAcceleration { min_acceleration: 10, max_acceleration: 10 }, &mut s).is_ok());
    assert_eq!((s.min_acceleration, s.max_acceleration), (10, 10));
}

#[test]
fn no_constraints_change_nothing() {
    let constraints: Vec<Box<dyn TrajectoryConstraint>> = Vec::new();
    let mut s = state(100, -200, 200);
    assert!(enforce_acceleration_limits(false, &constraints, &mut s).is_ok());
    enforce_velocity_limits(&constraints, &mut s, 500);
    assert_eq!((s.max_velocity, s.min_acceleration, s.max_acceleration), (100, -200, 200));
}

#[test]
fn acceleration_limits_are_the_tightest_of_all() {
    let constraints = vec![flat(0, -150, 400), flat(0, -300, 90), flat(0, -100, 95)];
    let mut s = state(100, -200, 200);
    assert!(enforce_acceleration_limits(false, &constraints, &mut s).is_ok());
    assert_eq!((s.min_acceleration, s.max_acceleration), (-100, 90));
    assert_eq!((s.max_velocity, s.distance), (100, 50));
}

#[test]
fn contradicting_constraint_stops_after_those_before_it() {
    let constraints = vec![flat(0, -150, 400), flat(0, 5, 4), flat(0, -100, 95)];
    let mut s = state(100, -200, 200);
    let e = enforce_acceleration_limits(false, &constraints, &mut s).unwrap_err();
    assert_eq!((s.min_acceleration, s.max_acceleration), (-150, 200));
    assert_eq!(
        e.to_string(),
        "The constraint's min acceleration was greater than its max acceleration. To debug this, remove all constraints from the config and add each one individually. If the offending constraint was packaged with WPILib, please file a bug report."
    );
}

#[test]
fn constraints_are_asked_about_the_sample_at_its_signed_speed() {
    let asked = Rc::new(RefCell::new(Vec::new()));
    let constraints: Vec<Box<dyn TrajectoryConstraint>> = vec![Box::new(Recorder { asked: asked.clone() })];
    let mut s = state(100, -200, 200);
    assert!(enforce_acceleration_limits(false, &constraints, &mut s).is_ok());
    assert!(enforce_acceleration_limits(true, &constraints, &mut s).is_ok());
    assert_eq!(*asked.borrow(), vec![(pose(10, 20, 3), 7, 100), (pose(10, 20, 3), 7, -100)]);
    assert_eq!((s.min_acceleration, s.max_acceleration), (-100, 100));
}

#[test]
fn velocity_is_the_least_of_all_caps() {
    let asked = Rc::new(RefCell::new(Vec::new()));
    let constraints: Vec<Box<dyn TrajectoryConstraint>> =
        vec![flat(80, 0, 0), Box::new(Recorder { asked: asked.clone() }), flat(60, 0, 0), flat(70, 0, 0)];
    let mut s = state(100, -200, 200);
    enforce_velocity_limits(&constraints, &mut s, 500);
    assert_eq!(s.max_velocity, 60);
    assert_eq!((s.min_acceleration, s.max_acceleration, s.distance), (-200, 200, 50));
    // The constraints hear of the speed limit of the trajectory, not of the sample.
    assert_eq!(*asked.borrow(), vec![(pose(10, 20, 3), 7, 500)]);
}

#[test]
fn forward_limits_take_the_least_speed_and_reset_the_accelerations() {
    let constraints = vec![flat(90, -30, 40)];
    let mut s = state(0, 0, 0);
    assert!(constrain_forward(false, &constraints, &mut s, 120, 100, 200, 3, 10).is_ok());
    assert_eq!((s.max_velocity, s.min_acceleration, s.max_acceleration), (90, -30, 40));
    let mut s = state(0, 0, 0);
    assert!(constrain_forward(false, &constraints, &mut s, 70, 100, 200, 3, 10).is_ok());
    assert_eq!(s.max_velocity, 70);
    let none: Vec<Box<dyn TrajectoryConstraint>> = Vec::new();
    let mut s = state(0, 0, 0);
    assert!(constrain_forward(false, &none, &mut s, 170, 100, 200, 3, 10).is_ok());
    assert_eq!((s.max_velocity, s.min_acceleration, s.max_acceleration), (100, -200, 200));
    assert_eq!((s.pose, s.distance), ((pose(10, 20, 3), 7), 50));
}

#[test]
fn forward_failure_is_tagged_with_pass_and_sample() {
    let constraints = vec![flat(90, 5, 4)];
    let mut s = state(0, 0, 0);
    let e = constrain_forward(false, &constraints, &mut s, 120, 100, 200, 3, 10).unwrap_err();
    assert_eq!((e.iteration, e.num_iterations, e.step), (4, 10, ParameterizerStep::Forward));
    assert_eq!(
        e.to_string(),
        "Something went wrong at forward iteration 4 out of 10 of time parameterization."
    );
}

#[test]
fn forward_settling_tightens_the_predecessor() {
    let current = state(100, -200, 40);
    // The actual acceleration is beyond what the current sample allows: again.
    let mut predecessor = state(80, -200, 200);
    assert!(settle_forward(&mut predecessor, &current, 60, 59, -199));
    assert_eq!((predecessor.min_acceleration, predecessor.max_acceleration), (-200, 40));
    // Within the tolerance of the bound: settled, and held to the actual value.
    let mut predecessor = state(80, -200, 200);
    assert!(!settle_forward(&mut predecessor, &current, 40, 39, -199));
    assert_eq!(predecessor.max_acceleration, 40);
    let mut predecessor = state(80, -200, 200);
    assert!(!settle_forward(&mut predecessor, &current, 41, 40, -199));
    assert_eq!(predecessor.max_acceleration, 41);
    // Below the floor of the predecessor: left to the backward pass.
    let mut predecessor = state(80, -200, 200);
    assert!(!settle_forward(&mut predecessor, &current, -300, -301, -199));
    assert_eq!(predecessor.max_acceleration, 200);
    assert_eq!(predecessor.max_velocity, 80);
}

#[test]
fn backward_limits_only_ever_lower_the_speed() {
    let constraints = vec![flat(0, -30, 40)];
    let mut s = state(100, -200, 200);
    assert_eq!(constrain_backward(false, &constraints, &mut s, 100, 3, 10).unwrap(), false);
    assert_eq!((s.max_velocity, s.min_acceleration, s.max_acceleration), (100, -200, 200));
    assert_eq!(constrain_backward(false, &constraints, &mut s, 99, 3, 10).unwrap(), true);
    assert_eq!((s.max_velocity, s.min_acceleration, s.max_acceleration), (99, -30, 40));
}

#[test]
fn backward_failure_is_tagged_with_pass_and_sample() {
    let constraints = vec![flat(0, 5, 4)];
    let mut s = state(100, -200, 200);
    let e = constrain_backward(false, &constraints, &mut s, 50, 9, 10).unwrap_err();
    assert_eq!((e.iteration, e.num_iterations, e.step), (10, 10, ParameterizerStep::Backward));
    assert_eq!(s.max_velocity, 50);
    assert_eq!(
        e.to_string(),
        "Something went wrong at backward iteration 10 from 10 to 1 of time parameterization."
    );
}

#[test]
fn backward_settling_tightens_the_successor() {
    let current = state(100, -40, 200);
    let mut successor = state(80, -200, 200);
    assert!(settle_backward(&mut successor, &current, -60, -59));
    assert_eq!((successor.min_acceleration, successor.max_acceleration), (-40, 200));
    let mut successor = state(80, -200, 200);
    assert!(!settle_backward(&mut successor, &current, -41, -40));
    assert_eq!(successor.min_acceleration, -41);
    assert_eq!(successor.max_velocity, 80);
}

#[test]
fn time_comes_from_acceleration_then_speed_then_fails() {
    assert_eq!(time_step(2, 0, 1, 4, 9).unwrap(), TimeStep::ByAcceleration);
    assert_eq!(time_step(-2, 0, 1, 4, 9).unwrap(), TimeStep::ByAcceleration);
    assert_eq!(time_step(1, 2, 1, 4, 9).unwrap(), TimeStep::ByVelocity);
    assert_eq!(time_step(-1, -2, 1, 4, 9).unwrap(), TimeStep::ByVelocity);
    let e = time_step(1, -1, 1, 4, 9).unwrap_err();
    assert_eq!((e.iteration, e.num_iterations, e.step), (5, 9, ParameterizerStep::Time));
    assert_eq!(
        e.to_string(),
        "Something went wrong at time constraint iteration 5 out of 9 of time parameterization. It seems like the previous steps resulted in a zero value for acceleration and velocity at a non-initial point."
    );
}

#[test]
fn acceleration_is_recorded_at_the_sample_before() {
    let mut states = Vec::new();
    push_timed(&mut states, 0, 0, 77, false, (pose(0, 0, 0), 1));
    push_timed(&mut states, 10, 20, 2, false, (pose(5, 0, 0), 2));
    push_timed(&mut states, 20, 0, -2, false, (pose(9, 0, 0), 3));
    assert_eq!(
        states,
        vec![
            TrajectoryState { t: 0, velocity: 0, acceleration: 2, pose: pose(0, 0, 0), curvature: 1 },
            TrajectoryState { t: 10, velocity: 20, acceleration: -2, pose: pose(5, 0, 0), curvature: 2 },
            TrajectoryState { t: 20, velocity: 0, acceleration: -2, pose: pose(9, 0, 0), curvature: 3 },
        ]
    );
}

#[test]
fn reversed_samples_have_opposite_speed_and_acceleration() {
    let mut forward = Vec::new();
    let mut backward = Vec::new();
    for (t, v, a, x) in [(0, 0, 0, 0), (10, 20, 2, 5), (20, 0, -2, 9)] {
        push_timed(&mut forward, t, v, a, false, (pose(x, 0, 0), x));
        push_timed(&mut backward, t, v, a, true, (pose(x, 0, 0), x));
    }
    assert_eq!(forward.len(), backward.len());
    for (f, b) in forward.iter().zip(backward.iter()) {
        assert_eq!(b.velocity, -f.velocity);
        assert_eq!(b.acceleration, -f.acceleration);
        assert_eq!((b.t, b.pose, b.curvature), (f.t, f.pose, f.curvature));
    }
}

#[test]
fn trajectory_takes_as_long_as_its_last_sample() {
    let states = vec![
        TrajectoryState { t: 0, velocity: 0, acceleration: 2, pose: pose(1, 2, 3), curvature: 0 },
        TrajectoryState { t: 35, velocity: 0, acceleration: -2, pose: pose(9, 0, 0), curvature: 0 },
    ];
    let trajectory = Trajectory::new(states.clone());
    assert_eq!(*trajectory.total_time(), 35);
    assert_eq!(trajectory.num_states(), 2);
    assert_eq!(*trajectory.states(), states);
    assert_eq!(*trajectory.init_pose(), pose(1, 2, 3));
}

#[test]
fn empty_trajectory_takes_no_time() {
    let nothing = Trajectory::do_nothing();
    assert_eq!(*nothing.total_time(), 0);
    assert_eq!(nothing.num_states(), 0);
    let empty = Trajectory::new(Vec::new());
    assert_eq!(*empty.total_time(), 0);
    assert!(empty.states().is_empty());
}

#[test]
fn config_starts_and_ends_at_rest_going_forward() {
    let config = TrajectoryConfig::new(200, 300);
    assert_eq!((config.max_velocity, config.max_acceleration), (200, 300));
    assert_eq!((config.start_velocity, config.end_velocity, config.reversed), (0, 0, false));
    assert!(config.constraints.is_empty());
}

#[test]
fn config_without_constraints_keeps_its_settings() {
    let config = TrajectoryConfigNoConstraints {
        max_velocity: 200,
        max_acceleration: 300,
        start_velocity: 10,
        end_velocity: 20,
        reversed: true,
    }
    .to_trajectory_config();
    assert_eq!((config.max_velocity, config.max_acceleration), (200, 300));
    assert_eq!((config.start_velocity, config.end_velocity, config.reversed), (10, 20, true));
    assert!(config.constraints.is_empty());
}

#[test]
fn geometry_records_hand_back_what_they_hold() {
    let t = Translation2d::new(3, -4);
    assert_eq!((*t.x(), *t.y()), (3, -4));
    assert_eq!(Translation2d::default(), Translation2d::new(0, 0));
    assert_eq!(*Rotation2d::default().radians(), 0);
    let p = Pose2d::new(t, Rotation2d { radians: 9 });
    assert_eq!((*p.translation(), *p.rotation()), (t, Rotation2d { radians: 9 }));
    assert_eq!(Pose2d::default(), pose(0, 0, 0));
    let m = robot_trajectory::geometry::Transform2d::new(t, Rotation2d { radians: 9 });
    assert_eq!((*m.translation(), *m.rotation()), (t, Rotation2d { radians: 9 }));
}
