//! Positions, headings and rigid motions in the plane, as plain records.
//!
//! Every coordinate and angle is an `i64` on a scale that the caller
//! chooses. The scale keeps the order of the quantities it stands for, zero
//! is written 0, and a quantity and its opposite are written `v` and `-v`.
//! The records carry such numbers; they do no arithmetic on them.

use vstd::prelude::*;

verus! {

/// A position, or a displacement, in the plane.
#[derive(Clone, Copy, Debug, PartialEq, Eq, Structural)]
pub struct Translation2d {
    pub x: i64,
    pub y: i64,
}

impl Translation2d {
    pub fn new(x: i64, y: i64) -> (r: Self)
        ensures
            r == (Translation2d { x, y }),
    {
        Self { x, y }
    }

    /// The origin.
    pub fn default() -> (r: Self)
        ensures
            r == (Translation2d { x: 0, y: 0 }),
    {
        Translation2d::new(0, 0)
    }

    pub fn x(&self) -> (r: &i64)
        ensures
            *r == self.x,
    {
        &self.x
    }

    pub fn y(&self) -> (r: &i64)
        ensures
            *r == self.y,
    {
        &self.y
    }
}

/// A heading.
#[derive(Clone, Copy, Debug, PartialEq, Eq, Structural)]
pub struct Rotation2d {
    pub radians: i64,
}

impl Rotation2d {
    /// The heading along the x axis.
    pub fn default() -> (r: Self)
        ensures
            r == (Rotation2d { radians: 0 }),
    {
        Rotation2d { radians: 0 }
    }

    pub fn radians(&self) -> (r: &i64)
        ensures
            *r == self.radians,
    {
        &self.radians
    }
}

/// Where the vehicle is and which way it points.
#[derive(Clone, Copy, Debug, PartialEq, Eq, Structural)]
pub struct Pose2d {
    pub translation: Translation2d,
    pub rotation: Rotation2d,
}

impl Pose2d {
    pub fn new(translation: Translation2d, rotation: Rotation2d) -> (r: Self)
        ensures
            r == (Pose2d { translation, rotation }),
    {
        Pose2d { translation, rotation }
    }

    /// At the origin, heading along the x axis.
    pub fn default() -> (r: Self)
        ensures
            r == (Pose2d {
                translation: Translation2d { x: 0, y: 0 },
                rotation: Rotation2d { radians: 0 },
            }),
    {
        Pose2d { translation: Translation2d::default(), rotation: Rotation2d::default() }
    }

    pub fn translation(&self) -> (r: &Translation2d)
        ensures
            *r == self.translation,
    {
        &self.translation
    }

    pub fn rotation(&self) -> (r: &Rotation2d)
        ensures
            *r == self.rotation,
    {
        &self.rotation
    }
}

/// The rigid motion that carries one pose to another.
#[derive(Clone, Copy, Debug, PartialEq, Eq, Structural)]
pub struct Transform2d {
    pub translation: Translation2d,
    pub rotation: Rotation2d,
}

impl Transform2d {
    pub fn new(translation: Translation2d, rotation: Rotation2d) -> (r: Self)
        ensures
            r == (Transform2d { translation, rotation }),
    {
        Self { translation, rotation }
    }

    pub fn translation(&self) -> (r: &Translation2d)
        ensures
            *r == self.translation,
    {
        &self.translation
    }

    pub fn rotation(&self) -> (r: &Rotation2d)
        ensures
            *r == self.rotation,
    {
        &self.rotation
    }
}

/// A planar motion: along the heading, across it, and a turn.
#[derive(Clone, Copy, Debug, PartialEq, Eq, Structural)]
pub struct Twist2d {
    pub dx: i64,
    pub dy: i64,
    pub dth: i64,
}

} // verus!
