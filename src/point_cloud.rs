use vstd::prelude::*;

use crate::pose::{Color, Point2, DEFAULT_TIMEOUT_MS};

verus! {

/// A snapshot of a named set of planar points, optionally anchored to the
/// frame of a named object. A newer snapshot with the same id replaces it
/// whole.
#[derive(Clone, Debug, PartialEq, Eq)]
pub struct PointCloud2 {
    id: String,
    parent_frame_id: Option<String>,
    points: Vec<Point2>,
    timeout_ms: u64,
    color: Color,
}

impl PointCloud2 {
    pub closed spec fn spec_id(&self) -> Seq<char> {
        self.id@
    }

    /// The id of the object whose frame anchors the points, if any.
    pub closed spec fn spec_parent_frame_id(&self) -> Option<Seq<char>> {
        match self.parent_frame_id {
            Some(p) => Some(p@),
            None => None,
        }
    }

    pub closed spec fn spec_points(&self) -> Seq<Point2> {
        self.points@
    }

    /// How long the snapshot stays live without a refresh, in milliseconds.
    pub closed spec fn spec_timeout_ms(&self) -> u64 {
        self.timeout_ms
    }

    pub closed spec fn spec_color(&self) -> Color {
        self.color
    }

    /// A cloud of the given points, unanchored, red, with the default timeout.
    pub fn from_points(id: &str, points: Vec<Point2>) -> (r: Self)
        ensures
            r.spec_id() == id@,
            r.spec_parent_frame_id() == None::<Seq<char>>,
            r.spec_points() == points@,
            r.spec_timeout_ms() == DEFAULT_TIMEOUT_MS,
            r.spec_color() == Color::Red,
    {
        Self {
            id: id.to_owned(),
            parent_frame_id: None,
            points,
            timeout_ms: DEFAULT_TIMEOUT_MS,
            color: Color::Red,
        }
    }

    pub fn with_timeout(self, timeout_ms: u64) -> (r: Self)
        ensures
            r.spec_id() == self.spec_id(),
            r.spec_parent_frame_id() == self.spec_parent_frame_id(),
            r.spec_points() == self.spec_points(),
            r.spec_timeout_ms() == timeout_ms,
            r.spec_color() == self.spec_color(),
    {
        let mut cloud = self;
        cloud.timeout_ms = timeout_ms;
        cloud
    }

    pub fn with_color(self, color: Color) -> (r: Self)
        ensures
            r.spec_id() == self.spec_id(),
            r.spec_parent_frame_id() == self.spec_parent_frame_id(),
            r.spec_points() == self.spec_points(),
            r.spec_timeout_ms() == self.spec_timeout_ms(),
            r.spec_color() == color,
    {
        let mut cloud = self;
        cloud.color = color;
        cloud
    }

    pub fn with_parent_frame_id(self, frame_id: &str) -> (r: Self)
        ensures
            r.spec_id() == self.spec_id(),
            r.spec_parent_frame_id() == Some(frame_id@),
            r.spec_points() == self.spec_points(),
            r.spec_timeout_ms() == self.spec_timeout_ms(),
            r.spec_color() == self.spec_color(),
    {
        let mut cloud = self;
        cloud.parent_frame_id = Some(frame_id.to_owned());
        cloud
    }

    pub fn id(&self) -> (r: &str)
        ensures
            r@ == self.spec_id(),
    {
        self.id.as_str()
    }

    /// The id, as the string it is kept in.
    pub(crate) fn id_string(&self) -> (r: &String)
        ensures
            r@ == self.spec_id(),
    {
        &self.id
    }

    pub fn parent_frame_id(&self) -> (r: &Option<String>)
        ensures
            r is Some <==> self.spec_parent_frame_id() is Some,
            r is Some ==> self.spec_parent_frame_id() == Some(r->Some_0@),
    {
        &self.parent_frame_id
    }

    pub fn points(&self) -> (r: &Vec<Point2>)
        ensures
            r@ == self.spec_points(),
    {
        &self.points
    }

    pub fn color(&self) -> (r: &Color)
        ensures
            *r == self.spec_color(),
    {
        &self.color
    }

    /// How long the snapshot stays live without a refresh, in milliseconds.
    pub fn timeout(&self) -> (r: u64)
        ensures
            r == self.spec_timeout_ms(),
    {
        self.timeout_ms
    }
}

} // verus!
