//! Numbers by bit pattern, and the fixed-size composites built from them.
//!
//! This library does no floating-point arithmetic: it carries each number as
//! its IEEE 754 bit pattern, so that what goes in comes out bit for bit.

use vstd::prelude::*;

verus! {

/// A single-precision number, held by its IEEE 754 bit pattern.
#[derive(Clone, Copy, Debug, PartialEq, Eq, Structural)]
pub struct Single {
    pub bits: u32,
}

/// A double-precision number, held by its IEEE 754 bit pattern.
#[derive(Clone, Copy, Debug, PartialEq, Eq, Structural)]
pub struct Double {
    pub bits: u64,
}

/// A 2D vector.
#[derive(Clone, Copy, Debug, PartialEq, Eq, Structural)]
pub struct Vector2 {
    pub x: Single,
    pub y: Single,
}

/// A 2D axis-aligned rectangle.
#[derive(Clone, Copy, Debug, PartialEq, Eq, Structural)]
pub struct Rect2 {
    pub position: Vector2,
    pub size: Vector2,
}

/// A 3D vector.
#[derive(Clone, Copy, Debug, PartialEq, Eq, Structural)]
pub struct Vector3 {
    pub x: Single,
    pub y: Single,
    pub z: Single,
}

/// A 2D affine transform: two axes and an origin.
#[derive(Clone, Copy, Debug, PartialEq, Eq, Structural)]
pub struct Transform2D {
    pub x: Vector2,
    pub y: Vector2,
    pub origin: Vector2,
}

/// A plane: a normal and a distance from the origin.
#[derive(Clone, Copy, Debug, PartialEq, Eq, Structural)]
pub struct Plane {
    pub normal: Vector3,
    pub d: Single,
}

/// A quaternion.
#[derive(Clone, Copy, Debug, PartialEq, Eq, Structural)]
pub struct Quat {
    pub x: Single,
    pub y: Single,
    pub z: Single,
    pub w: Single,
}

/// A 3D axis-aligned bounding box.
#[derive(Clone, Copy, Debug, PartialEq, Eq, Structural)]
pub struct Aabb {
    pub position: Vector3,
    pub size: Vector3,
}

/// A 3x3 basis, as its three element vectors in order.
#[derive(Clone, Copy, Debug, PartialEq, Eq, Structural)]
pub struct Basis {
    pub first: Vector3,
    pub second: Vector3,
    pub third: Vector3,
}

/// A 3D transform: a basis and an origin.
#[derive(Clone, Copy, Debug, PartialEq, Eq, Structural)]
pub struct Transform {
    pub basis: Basis,
    pub origin: Vector3,
}

/// An RGBA color.
#[derive(Clone, Copy, Debug, PartialEq, Eq, Structural)]
pub struct Color {
    pub r: Single,
    pub g: Single,
    pub b: Single,
    pub a: Single,
}

/// A resource id: an opaque handle. The id 0 is the empty handle.
#[derive(Clone, Copy, Debug, PartialEq, Eq, Structural)]
pub struct Rid {
    pub id: u64,
}

/// An object reference: an opaque handle. The instance 0 is the empty
/// handle.
#[derive(Clone, Copy, Debug, PartialEq, Eq, Structural)]
pub struct ObjectRef {
    pub instance: u64,
}

impl Single {
    /// The number with the given bit pattern.
    pub fn from_bits(bits: u32) -> (r: Single)
        ensures
            r.bits == bits,
    {
        Single { bits }
    }

    /// The bit pattern of this number.
    pub fn to_bits(self) -> (r: u32)
        ensures
            r == self.bits,
    {
        self.bits
    }
}

impl Double {
    /// The number with the given bit pattern.
    pub fn from_bits(bits: u64) -> (r: Double)
        ensures
            r.bits == bits,
    {
        Double { bits }
    }

    /// The bit pattern of this number.
    pub fn to_bits(self) -> (r: u64)
        ensures
            r == self.bits,
    {
        self.bits
    }
}

impl Rid {
    /// A fresh, empty handle.
    pub fn new() -> (r: Rid)
        ensures
            r == Rid::empty(),
    {
        Rid { id: 0 }
    }

    /// The empty handle.
    pub open spec fn empty() -> Rid {
        Rid { id: 0 }
    }
}

impl ObjectRef {
    /// A fresh, empty handle.
    pub fn new() -> (r: ObjectRef)
        ensures
            r == ObjectRef::empty(),
    {
        ObjectRef { instance: 0 }
    }

    /// The empty handle.
    pub open spec fn empty() -> ObjectRef {
        ObjectRef { instance: 0 }
    }
}

} // verus!
