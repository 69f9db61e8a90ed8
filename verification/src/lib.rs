//! The discrete core of a trajectory planner for wheeled robots.
//!
//! A planner of this kind fits a spline through each pair of waypoints,
//! samples the splines where they bend, and gives every sample a time, a
//! speed and an acceleration within the limits that the caller sets. The
//! measuring is numerical work that the caller does. What is here is the
//! part that counts and decides: which piece of a spline is looked at next
//! and when the search stops, how the samples of several splines are joined
//! into one path, how the limits of several constraints combine, what each
//! sweep over the samples does with the numbers it is given, and what each
//! failure says.

pub mod decimal;
pub mod geometry;
pub mod scalar;
pub mod trajectory;
