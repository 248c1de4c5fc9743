use vstd::prelude::*;

use crate::pose::{Point2, Scalar};

verus! {

/// A control request: move from a point along a heading for a distance.
#[derive(Clone, Copy, Debug, PartialEq, Eq, Structural)]
pub struct Command {
    id: u32,
    point: Point2,
    angle: Scalar,
    length: Scalar,
}

impl Default for Command {
    /// The command with id 0 and every number zero.
    fn default() -> (r: Self)
        ensures
            r.spec_id() == 0,
            r.spec_point() == (Point2 { x: Scalar { bits: 0 }, y: Scalar { bits: 0 } }),
            r.spec_angle() == (Scalar { bits: 0 }),
            r.spec_length() == (Scalar { bits: 0 }),
    {
        let zero = Scalar { bits: 0 };
        Command { id: 0, point: Point2 { x: zero, y: zero }, angle: zero, length: zero }
    }
}

impl Command {
    pub closed spec fn spec_id(&self) -> u32 {
        self.id
    }

    pub closed spec fn spec_point(&self) -> Point2 {
        self.point
    }

    pub closed spec fn spec_angle(&self) -> Scalar {
        self.angle
    }

    pub closed spec fn spec_length(&self) -> Scalar {
        self.length
    }

    pub fn new(id: u32, point: Point2, angle: Scalar, length: Scalar) -> (r: Self)
        ensures
            r.spec_id() == id,
            r.spec_point() == point,
            r.spec_angle() == angle,
            r.spec_length() == length,
    {
        Self { id, point, angle, length }
    }

    /// Identifier, increasing from one command to the next.
    pub fn id(&self) -> (r: u32)
        ensures
            r == self.spec_id(),
    {
        self.id
    }

    /// Starting point, as (x, y).
    pub fn point(&self) -> (r: Point2)
        ensures
            r == self.spec_point(),
    {
        self.point
    }

    /// Heading in radians, between minus pi and pi.
    pub fn angle(&self) -> (r: Scalar)
        ensures
            r == self.spec_angle(),
    {
        self.angle
    }

    pub fn length(&self) -> (r: Scalar)
        ensures
            r == self.spec_length(),
    {
        self.length
    }
}

} // verus!
