use vstd::prelude::*;

verus! {

/// A vector of three integers: a grid position, an axis direction, or a
/// point in some fixed-point unit.
#[derive(Clone, Copy, Debug, PartialEq, Eq, Structural)]
pub struct Vec3i {
    pub x: i32,
    pub y: i32,
    pub z: i32,
}

/// A mathematical integer vector.
pub type Int3 = (int, int, int);

impl View for Vec3i {
    type V = Int3;

    open spec fn view(&self) -> Int3 {
        (self.x as int, self.y as int, self.z as int)
    }
}

/// Component-wise sum.
pub open spec fn add3(a: Int3, b: Int3) -> Int3 {
    (a.0 + b.0, a.1 + b.1, a.2 + b.2)
}

/// Component-wise difference.
pub open spec fn sub3(a: Int3, b: Int3) -> Int3 {
    (a.0 - b.0, a.1 - b.1, a.2 - b.2)
}

/// `a` scaled by `k`.
pub open spec fn scale3(k: int, a: Int3) -> Int3 {
    (k * a.0, k * a.1, k * a.2)
}

/// Dot product.
pub open spec fn dot3(a: Int3, b: Int3) -> int {
    a.0 * b.0 + a.1 * b.1 + a.2 * b.2
}

/// Cross product.
pub open spec fn cross3(a: Int3, b: Int3) -> Int3 {
    (a.1 * b.2 - a.2 * b.1, a.2 * b.0 - a.0 * b.2, a.0 * b.1 - a.1 * b.0)
}

/// Component-wise product.
pub open spec fn hadamard3(a: Int3, b: Int3) -> Int3 {
    (a.0 * b.0, a.1 * b.1, a.2 * b.2)
}

/// Every component is -1, 0 or 1.
pub open spec fn is_sign_vector(a: Int3) -> bool {
    &&& -1 <= a.0 <= 1
    &&& -1 <= a.1 <= 1
    &&& -1 <= a.2 <= 1
}

/// Absolute value.
pub open spec fn abs(a: int) -> int {
    if a < 0 { -a } else { a }
}

impl Vec3i {
    pub fn new(x: i32, y: i32, z: i32) -> (r: Vec3i)
        ensures
            r == (Vec3i { x, y, z }),
    {
        Vec3i { x, y, z }
    }

    /// Component-wise sum, defined where it fits in `i32`.
    pub fn add(self, o: Vec3i) -> (r: Vec3i)
        requires
            i32::MIN <= self.x + o.x <= i32::MAX,
            i32::MIN <= self.y + o.y <= i32::MAX,
            i32::MIN <= self.z + o.z <= i32::MAX,
        ensures
            r@ == add3(self@, o@),
    {
        Vec3i { x: self.x + o.x, y: self.y + o.y, z: self.z + o.z }
    }
}

} // verus!
