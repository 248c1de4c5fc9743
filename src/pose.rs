use vstd::prelude::*;

verus! {

/// A single-precision IEEE-754 number, carried by its bit pattern.
///
/// The library moves, stores and compares such numbers but never does
/// arithmetic on them, so the bits are all it needs. Two scalars are equal
/// exactly when their bit patterns are.
#[derive(Clone, Copy, Debug, PartialEq, Eq, Structural)]
pub struct Scalar {
    pub bits: u32,
}

/// Bit pattern of `0.0`.
pub const ZERO_BITS: u32 = 0;

/// Bit pattern of `1.0`.
pub const ONE_BITS: u32 = 0x3f80_0000;

/// Bit pattern of `0.05`, the radius of the default sphere.
pub const DEFAULT_RADIUS_BITS: u32 = 0x3d4c_cccd;

impl Scalar {
    pub fn from_bits(bits: u32) -> (r: Scalar)
        ensures
            r.bits == bits,
    {
        Scalar { bits }
    }

    pub fn to_bits(&self) -> (r: u32)
        ensures
            r == self.bits,
    {
        self.bits
    }
}

/// A position or direction in space.
#[derive(Clone, Copy, Debug, PartialEq, Eq, Structural)]
pub struct Point3 {
    pub x: Scalar,
    pub y: Scalar,
    pub z: Scalar,
}

impl Point3 {
    pub fn new(x: Scalar, y: Scalar, z: Scalar) -> (r: Point3)
        ensures
            r == (Point3 { x, y, z }),
    {
        Point3 { x, y, z }
    }
}

/// A point in a plane.
#[derive(Clone, Copy, Debug, PartialEq, Eq, Structural)]
pub struct Point2 {
    pub x: Scalar,
    pub y: Scalar,
}

impl Point2 {
    pub fn new(x: Scalar, y: Scalar) -> (r: Point2)
        ensures
            r == (Point2 { x, y }),
    {
        Point2 { x, y }
    }
}

/// An orientation, as a quaternion with components x, y, z and w.
#[derive(Clone, Copy, Debug, PartialEq, Eq, Structural)]
pub struct Quaternion {
    pub x: Scalar,
    pub y: Scalar,
    pub z: Scalar,
    pub w: Scalar,
}

impl Quaternion {
    /// The quaternion (x, y, z, w).
    pub fn new(x: Scalar, y: Scalar, z: Scalar, w: Scalar) -> (r: Quaternion)
        ensures
            r == (Quaternion { x, y, z, w }),
    {
        Quaternion { x, y, z, w }
    }
}

/// A scalar whose bits are `bits`.
pub open spec fn scalar(bits: u32) -> Scalar {
    Scalar { bits }
}

/// The origin, (0, 0, 0).
pub open spec fn origin() -> Point3 {
    Point3 { x: scalar(ZERO_BITS), y: scalar(ZERO_BITS), z: scalar(ZERO_BITS) }
}

/// The identity rotation, (0, 0, 0, 1).
pub open spec fn identity_quaternion() -> Quaternion {
    Quaternion { x: scalar(ZERO_BITS), y: scalar(ZERO_BITS), z: scalar(ZERO_BITS), w: scalar(ONE_BITS) }
}

pub fn origin_point() -> (r: Point3)
    ensures
        r == origin(),
{
    let zero = Scalar { bits: ZERO_BITS };
    Point3 { x: zero, y: zero, z: zero }
}

pub fn identity_rotation() -> (r: Quaternion)
    ensures
        r == identity_quaternion(),
{
    let zero = Scalar { bits: ZERO_BITS };
    Quaternion { x: zero, y: zero, z: zero, w: Scalar { bits: ONE_BITS } }
}

/// The shape an object is drawn with.
#[derive(Clone, Copy, Debug, PartialEq, Eq, Structural)]
pub enum Shape {
    /// A sphere of the given radius.
    Sphere(Scalar),
    /// A box of the given extents along x, y and z.
    Cube(Scalar, Scalar, Scalar),
    /// A segment from the object's position to the given end point.
    Line(Point3),
}

/// The shape an object has unless its publisher says otherwise.
pub open spec fn default_shape() -> Shape {
    Shape::Sphere(scalar(DEFAULT_RADIUS_BITS))
}

/// The fixed palette of colours an object or a point cloud can have.
#[derive(Clone, Copy, Debug, PartialEq, Eq, Structural)]
pub enum Color {
    Red,
    Green,
    Blue,
    Cyan,
    Magenta,
    Yellow,
}

/// The display name of a colour.
pub open spec fn color_name(c: Color) -> Seq<char> {
    match c {
        Color::Red => "Red"@,
        Color::Green => "Green"@,
        Color::Blue => "Blue"@,
        Color::Cyan => "Cyan"@,
        Color::Magenta => "Magenta"@,
        Color::Yellow => "Yellow"@,
    }
}

/// Full intensity of a colour channel.
pub const CHANNEL_FULL: u8 = 255;

/// The red, green and blue channels of a colour; each is off or full.
pub open spec fn color_rgb(c: Color) -> (u8, u8, u8) {
    match c {
        Color::Red => (CHANNEL_FULL, 0, 0),
        Color::Green => (0, CHANNEL_FULL, 0),
        Color::Blue => (0, 0, CHANNEL_FULL),
        Color::Cyan => (0, CHANNEL_FULL, CHANNEL_FULL),
        Color::Magenta => (CHANNEL_FULL, 0, CHANNEL_FULL),
        Color::Yellow => (CHANNEL_FULL, CHANNEL_FULL, 0),
    }
}

impl Color {
    pub fn to_rgb(&self) -> (r: (u8, u8, u8))
        ensures
            r == color_rgb(*self),
    {
        match self {
            Color::Red => (CHANNEL_FULL, 0, 0),
            Color::Green => (0, CHANNEL_FULL, 0),
            Color::Blue => (0, 0, CHANNEL_FULL),
            Color::Cyan => (0, CHANNEL_FULL, CHANNEL_FULL),
            Color::Magenta => (CHANNEL_FULL, 0, CHANNEL_FULL),
            Color::Yellow => (CHANNEL_FULL, CHANNEL_FULL, 0),
        }
    }

    pub fn name(&self) -> (r: &'static str)
        ensures
            r@ == color_name(*self),
    {
        match self {
            Color::Red => "Red",
            Color::Green => "Green",
            Color::Blue => "Blue",
            Color::Cyan => "Cyan",
            Color::Magenta => "Magenta",
            Color::Yellow => "Yellow",
        }
    }
}

/// How long an object or a cloud stays live without a refresh unless its
/// publisher says otherwise, in milliseconds.
pub const DEFAULT_TIMEOUT_MS: u64 = 5000;

/// The full stated truth of one object, as a publisher sends it.
#[derive(Clone, Debug, PartialEq, Eq)]
pub struct ObjectPose {
    pub id: String,
    pub pose: Point3,
    /// How long the object stays live without a refresh, in milliseconds.
    pub timeout_ms: u64,
    pub shape: Shape,
    pub color: Color,
    pub rotation: Quaternion,
}

/// An object with the given id and position and every other attribute at
/// its default.
pub open spec fn default_object(id: Seq<char>, pose: Point3, o: ObjectPose) -> bool {
    &&& o.id@ == id
    &&& o.pose == pose
    &&& o.timeout_ms == DEFAULT_TIMEOUT_MS
    &&& o.shape == default_shape()
    &&& o.color == Color::Red
    &&& o.rotation == identity_quaternion()
}

impl ObjectPose {
    fn new(id: &str, pose: Point3) -> (r: Self)
        ensures
            default_object(id@, pose, r),
    {
        ObjectPose {
            id: id.to_owned(),
            pose,
            timeout_ms: DEFAULT_TIMEOUT_MS,
            shape: Shape::Sphere(Scalar { bits: DEFAULT_RADIUS_BITS }),
            color: Color::Red,
            rotation: identity_rotation(),
        }
    }

    pub fn with_timeout(&mut self, timeout_ms: u64) -> (r: &mut Self)
        ensures
            *r == (ObjectPose { timeout_ms, ..*old(self) }),
            *final(self) == *final(r),
    {
        self.timeout_ms = timeout_ms;
        self
    }

    pub fn with_color(&mut self, color: Color) -> (r: &mut Self)
        ensures
            *r == (ObjectPose { color, ..*old(self) }),
            *final(self) == *final(r),
    {
        self.color = color;
        self
    }

    pub fn with_shape(&mut self, shape: Shape) -> (r: &mut Self)
        ensures
            *r == (ObjectPose { shape, ..*old(self) }),
            *final(self) == *final(r),
    {
        self.shape = shape;
        self
    }

    pub fn with_rotation(&mut self, rotation: Quaternion) -> (r: &mut Self)
        ensures
            *r == (ObjectPose { rotation, ..*old(self) }),
            *final(self) == *final(r),
    {
        self.rotation = rotation;
        self
    }
}

/// One datagram's worth of object updates: objects to upsert and ids to delete.
#[derive(Clone, Debug, PartialEq, Eq)]
pub struct PoseClientUpdate {
    objects: Vec<ObjectPose>,
    delete: Vec<String>,
}

impl Default for PoseClientUpdate {
    fn default() -> (r: Self)
        ensures
            r.spec_updates().len() == 0,
            r.spec_deletions().len() == 0,
    {
        PoseClientUpdate::new()
    }
}

impl PoseClientUpdate {
    /// The objects to upsert, in order.
    pub closed spec fn spec_updates(&self) -> Seq<ObjectPose> {
        self.objects@
    }

    /// The ids to delete, in order.
    pub closed spec fn spec_deletions(&self) -> Seq<String> {
        self.delete@
    }

    pub fn new() -> (r: Self)
        ensures
            r.spec_updates().len() == 0,
            r.spec_deletions().len() == 0,
    {
        PoseClientUpdate { objects: Vec::new(), delete: Vec::new() }
    }

    /// A batch holding the given upserts and deletions.
    pub fn from_parts(objects: Vec<ObjectPose>, delete: Vec<String>) -> (r: Self)
        ensures
            r.spec_updates() == objects@,
            r.spec_deletions() == delete@,
    {
        PoseClientUpdate { objects, delete }
    }

    /// Appends an object with the given id and position and default attributes,
    /// and hands it back for further settings.
    pub fn add(&mut self, id: &str, pose: Point3) -> (r: &mut ObjectPose)
        ensures
            default_object(id@, pose, *r),
            final(self).spec_updates() == old(self).spec_updates().push(*final(r)),
            final(self).spec_deletions() == old(self).spec_deletions(),
    {
        let pose = ObjectPose::new(id, pose);
        self.objects.push(pose);
        let index = self.objects.len() - 1;
        &mut self.objects[index]
    }

    pub fn delete(&mut self, id: &str)
        ensures
            final(self).spec_updates() == old(self).spec_updates(),
            final(self).spec_deletions().drop_last() == old(self).spec_deletions(),
            final(self).spec_deletions().len() == old(self).spec_deletions().len() + 1,
            final(self).spec_deletions().last()@ == id@,
    {
        self.delete.push(id.to_owned());
    }

    pub fn updates(&self) -> (r: &Vec<ObjectPose>)
        ensures
            r@ == self.spec_updates(),
    {
        &self.objects
    }

    pub fn deletions(&self) -> (r: &Vec<String>)
        ensures
            r@ == self.spec_deletions(),
    {
        &self.delete
    }
}

} // verus!
