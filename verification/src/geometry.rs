use vstd::prelude::*;

verus! {

/// A point or a displacement of world space, each coordinate in thousandths
/// of a world unit.
#[derive(Clone, Copy, Debug, PartialEq, Eq, Structural)]
pub struct Vec3 {
    pub x: i32,
    pub y: i32,
    pub z: i32,
}

/// Squared Euclidean distance between two points.
pub open spec fn distance_squared(a: Vec3, b: Vec3) -> int {
    (a.x - b.x) * (a.x - b.x) + (a.y - b.y) * (a.y - b.y) + (a.z - b.z) * (a.z - b.z)
}

/// Two bounding spheres overlap when the distance between their centres is
/// strictly less than the sum of their radii. Both sides are non-negative, so
/// the comparison is made on the squares.
pub open spec fn spheres_overlap(a: Vec3, radius_a: u32, b: Vec3, radius_b: u32) -> bool {
    distance_squared(a, b) < (radius_a + radius_b) * (radius_a + radius_b)
}

/// The distance test is symmetric in the two spheres.
pub proof fn lemma_spheres_overlap_symmetric(a: Vec3, radius_a: u32, b: Vec3, radius_b: u32)
    ensures
        spheres_overlap(a, radius_a, b, radius_b) == spheres_overlap(b, radius_b, a, radius_a),
{
    assert((a.x - b.x) * (a.x - b.x) == (b.x - a.x) * (b.x - a.x)) by (nonlinear_arith);
    assert((a.y - b.y) * (a.y - b.y) == (b.y - a.y) * (b.y - a.y)) by (nonlinear_arith);
    assert((a.z - b.z) * (a.z - b.z) == (b.z - a.z) * (b.z - a.z)) by (nonlinear_arith);
    assert((radius_a + radius_b) * (radius_a + radius_b) == (radius_b + radius_a) * (radius_b
        + radius_a)) by (nonlinear_arith);
}

/// Square of a difference of two coordinates.
fn square_of_difference(p: i32, q: i32) -> (r: i128)
    ensures
        r == (p - q) * (p - q),
        0 <= r <= 0x1_0000_0000_0000_0000,
{
    let d: i128 = p as i128 - q as i128;
    assert(0 <= d * d <= 0x1_0000_0000_0000_0000) by (nonlinear_arith)
        requires
            -0x1_0000_0000 <= d <= 0x1_0000_0000,
    ;
    d * d
}

impl Vec3 {
    pub fn new(x: i32, y: i32, z: i32) -> (p: Vec3)
        ensures
            p == (Vec3 { x, y, z }),
    {
        Vec3 { x, y, z }
    }

    /// Squared distance to `other`, which always fits in 128 bits.
    pub fn distance_squared(&self, other: &Vec3) -> (d: i128)
        ensures
            d == distance_squared(*self, *other),
    {
        let dx: i128 = square_of_difference(self.x, other.x);
        let dy: i128 = square_of_difference(self.y, other.y);
        let dz: i128 = square_of_difference(self.z, other.z);
        dx + dy + dz
    }
}

/// Decides the sphere-sphere distance test.
pub fn overlapping(a: &Vec3, radius_a: u32, b: &Vec3, radius_b: u32) -> (hit: bool)
    ensures
        hit == spheres_overlap(*a, radius_a, *b, radius_b),
{
    let reach: i128 = radius_a as i128 + radius_b as i128;
    assert(0 <= reach * reach <= 0x4_0000_0000_0000_0000) by (nonlinear_arith)
        requires
            0 <= reach <= 0x2_0000_0000,
    ;
    a.distance_squared(b) < reach * reach
}

} // verus!
