//! Integer vectors, rotations and rigid motions in two and three dimensions.
use vstd::prelude::*;

verus! {

/// Largest magnitude of a coordinate of a shape's vertex, half-extent or of a
/// translation.
pub const COORD_BOUND: i64 = 4096;

pub type Pt2 = (int, int);

pub type Pt3 = (int, int, int);

pub open spec fn abs(a: int) -> int {
    if a < 0 { -a } else { a }
}

pub open spec fn add2(a: Pt2, b: Pt2) -> Pt2 {
    (a.0 + b.0, a.1 + b.1)
}

pub open spec fn sub2(a: Pt2, b: Pt2) -> Pt2 {
    (a.0 - b.0, a.1 - b.1)
}

pub open spec fn neg2(a: Pt2) -> Pt2 {
    (-a.0, -a.1)
}

pub open spec fn dot2(a: Pt2, b: Pt2) -> int {
    a.0 * b.0 + a.1 * b.1
}

pub open spec fn add3(a: Pt3, b: Pt3) -> Pt3 {
    (a.0 + b.0, a.1 + b.1, a.2 + b.2)
}

pub open spec fn sub3(a: Pt3, b: Pt3) -> Pt3 {
    (a.0 - b.0, a.1 - b.1, a.2 - b.2)
}

pub open spec fn neg3(a: Pt3) -> Pt3 {
    (-a.0, -a.1, -a.2)
}

pub open spec fn dot3(a: Pt3, b: Pt3) -> int {
    a.0 * b.0 + a.1 * b.1 + a.2 * b.2
}

pub open spec fn cross3(a: Pt3, b: Pt3) -> Pt3 {
    (a.1 * b.2 - a.2 * b.1, a.2 * b.0 - a.0 * b.2, a.0 * b.1 - a.1 * b.0)
}

pub open spec fn bounded2(a: Pt2, k: int) -> bool {
    abs(a.0) <= k && abs(a.1) <= k
}

pub open spec fn bounded3(a: Pt3, k: int) -> bool {
    abs(a.0) <= k && abs(a.1) <= k && abs(a.2) <= k
}

pub open spec fn is_unit_entry(e: int) -> bool {
    e == -1 || e == 0 || e == 1
}

pub proof fn lemma_mul_bound(a: int, b: int, ka: int, kb: int)
    requires
        abs(a) <= ka,
        abs(b) <= kb,
    ensures
        abs(a * b) <= ka * kb,
        0 <= ka * kb,
{
    assert(abs(a) * abs(b) <= ka * kb) by (nonlinear_arith)
        requires
            0 <= abs(a) <= ka,
            0 <= abs(b) <= kb,
    ;
    assert(abs(a * b) == abs(a) * abs(b)) by (nonlinear_arith);
    assert(0 <= ka * kb) by (nonlinear_arith)
        requires
            0 <= ka,
            0 <= kb,
    ;
}

/// A two-dimensional integer vector.
#[derive(Clone, Copy, Debug, PartialEq, Eq, Structural)]
pub struct Vector2 {
    pub x: i64,
    pub y: i64,
}

impl View for Vector2 {
    type V = Pt2;

    open spec fn view(&self) -> Pt2 {
        (self.x as int, self.y as int)
    }
}

/// A three-dimensional integer vector.
#[derive(Clone, Copy, Debug, PartialEq, Eq, Structural)]
pub struct Vector3 {
    pub x: i64,
    pub y: i64,
    pub z: i64,
}

impl View for Vector3 {
    type V = Pt3;

    open spec fn view(&self) -> Pt3 {
        (self.x as int, self.y as int, self.z as int)
    }
}

impl Vector2 {
    pub fn new(x: i64, y: i64) -> (r: Vector2)
        ensures
            r@ == (x as int, y as int),
    {
        Vector2 { x, y }
    }

    pub fn sub(&self, o: &Vector2) -> (r: Vector2)
        requires
            bounded2(self@, 0x100_0000_0000),
            bounded2(o@, 0x100_0000_0000),
        ensures
            r@ == sub2(self@, o@),
    {
        Vector2 { x: self.x - o.x, y: self.y - o.y }
    }

    pub fn neg(&self) -> (r: Vector2)
        requires
            bounded2(self@, 0x100_0000_0000),
        ensures
            r@ == neg2(self@),
    {
        Vector2 { x: -self.x, y: -self.y }
    }

    pub fn dot(&self, o: &Vector2) -> (r: i64)
        requires
            bounded2(self@, 0x2000_0000),
            bounded2(o@, 0x2000_0000),
        ensures
            r as int == dot2(self@, o@),
    {
        proof {
            lemma_mul_bound(self.x as int, o.x as int, 0x2000_0000, 0x2000_0000);
            lemma_mul_bound(self.y as int, o.y as int, 0x2000_0000, 0x2000_0000);
        }
        self.x * o.x + self.y * o.y
    }

    pub fn norm_squared(&self) -> (r: i64)
        requires
            bounded2(self@, 0x2000_0000),
        ensures
            r as int == dot2(self@, self@),
    {
        self.dot(self)
    }
}

impl Vector3 {
    pub fn new(x: i64, y: i64, z: i64) -> (r: Vector3)
        ensures
            r@ == (x as int, y as int, z as int),
    {
        Vector3 { x, y, z }
    }

    pub fn sub(&self, o: &Vector3) -> (r: Vector3)
        requires
            bounded3(self@, 0x100_0000_0000),
            bounded3(o@, 0x100_0000_0000),
        ensures
            r@ == sub3(self@, o@),
    {
        Vector3 { x: self.x - o.x, y: self.y - o.y, z: self.z - o.z }
    }

    pub fn neg(&self) -> (r: Vector3)
        requires
            bounded3(self@, 0x100_0000_0000),
        ensures
            r@ == neg3(self@),
    {
        Vector3 { x: -self.x, y: -self.y, z: -self.z }
    }

    pub fn dot(&self, o: &Vector3) -> (r: i64)
        requires
            bounded3(self@, 0x2000_0000),
            bounded3(o@, 0x2000_0000),
        ensures
            r as int == dot3(self@, o@),
    {
        proof {
            lemma_mul_bound(self.x as int, o.x as int, 0x2000_0000, 0x2000_0000);
            lemma_mul_bound(self.y as int, o.y as int, 0x2000_0000, 0x2000_0000);
            lemma_mul_bound(self.z as int, o.z as int, 0x2000_0000, 0x2000_0000);
        }
        self.x * o.x + self.y * o.y + self.z * o.z
    }

    pub fn norm_squared(&self) -> (r: i64)
        requires
            bounded3(self@, 0x2000_0000),
        ensures
            r as int == dot3(self@, self@),
    {
        self.dot(self)
    }

    pub fn cross(&self, o: &Vector3) -> (r: Vector3)
        requires
            bounded3(self@, 0x2000_0000),
            bounded3(o@, 0x2000_0000),
        ensures
            r@ == cross3(self@, o@),
    {
        proof {
            lemma_mul_bound(self.x as int, o.y as int, 0x2000_0000, 0x2000_0000);
            lemma_mul_bound(self.x as int, o.z as int, 0x2000_0000, 0x2000_0000);
            lemma_mul_bound(self.y as int, o.x as int, 0x2000_0000, 0x2000_0000);
            lemma_mul_bound(self.y as int, o.z as int, 0x2000_0000, 0x2000_0000);
            lemma_mul_bound(self.z as int, o.x as int, 0x2000_0000, 0x2000_0000);
            lemma_mul_bound(self.z as int, o.y as int, 0x2000_0000, 0x2000_0000);
        }
        Vector3 {
            x: self.y * o.z - self.z * o.y,
            y: self.z * o.x - self.x * o.z,
            z: self.x * o.y - self.y * o.x,
        }
    }
}


proof fn lemma_unit_mul(e: int, a: int)
    requires
        is_unit_entry(e),
    ensures
        abs(e * a) <= abs(a),
{
    if e == 0 {
        assert(e * a == 0);
    } else if e == 1 {
        assert(e * a == a);
    } else {
        assert(e * a == -a);
    }
}

fn unit_row3(e0: i64, e1: i64, e2: i64, a: i64, b: i64, c: i64) -> (r: i64)
    requires
        is_unit_entry(e0 as int),
        is_unit_entry(e1 as int),
        is_unit_entry(e2 as int),
        abs(a as int) <= 0x100_0000_0000,
        abs(b as int) <= 0x100_0000_0000,
        abs(c as int) <= 0x100_0000_0000,
    ensures
        r as int == e0 * a + e1 * b + e2 * c,
        abs(r as int) <= abs(a as int) + abs(b as int) + abs(c as int),
{
    proof {
        lemma_unit_mul(e0 as int, a as int);
        lemma_unit_mul(e1 as int, b as int);
        lemma_unit_mul(e2 as int, c as int);
    }
    let x = e0 * a;
    let y = e1 * b;
    let z = e2 * c;
    x + y + z
}

/// A rotation of the plane by a multiple of a quarter turn, as an integer matrix.
#[derive(Clone, Copy, Debug, PartialEq, Eq, Structural)]
pub struct Rotation2 {
    pub m00: i64,
    pub m01: i64,
    pub m10: i64,
    pub m11: i64,
}

impl Rotation2 {
    /// Every entry is -1, 0 or 1 and the columns are orthonormal.
    pub open spec fn wf(&self) -> bool {
        &&& is_unit_entry(self.m00 as int) && is_unit_entry(self.m01 as int)
        &&& is_unit_entry(self.m10 as int) && is_unit_entry(self.m11 as int)
        &&& self.orthonormal()
    }

    /// The columns are of unit length and orthogonal, and the determinant is 1.
    #[verifier::opaque]
    pub open spec fn orthonormal(&self) -> bool {
        &&& self.m00 * self.m00 + self.m10 * self.m10 == 1
        &&& self.m01 * self.m01 + self.m11 * self.m11 == 1
        &&& self.m00 * self.m01 + self.m10 * self.m11 == 0
        &&& self.m00 * self.m11 - self.m01 * self.m10 == 1
    }

    #[verifier::opaque]
    pub open spec fn apply(&self, v: Pt2) -> Pt2 {
        (self.m00 * v.0 + self.m01 * v.1, self.m10 * v.0 + self.m11 * v.1)
    }

    #[verifier::opaque]
    pub open spec fn apply_transpose(&self, v: Pt2) -> Pt2 {
        (self.m00 * v.0 + self.m10 * v.1, self.m01 * v.0 + self.m11 * v.1)
    }

    pub fn identity() -> (r: Rotation2)
        ensures
            r.wf(),
            forall|v: Pt2| r.apply(v) == v,
    {
        proof {
            reveal(Rotation2::apply);
            reveal(Rotation2::orthonormal);
        }
        Rotation2 { m00: 1, m01: 0, m10: 0, m11: 1 }
    }

    pub fn rotate(&self, v: &Vector2) -> (r: Vector2)
        requires
            self.wf(),
            bounded2(v@, 0x100_0000_0000),
        ensures
            r@ == self.apply(v@),
            bounded2(r@, 2 * abs(v.x as int) + 2 * abs(v.y as int)),
    {
        proof {
            reveal(Rotation2::apply);
        }
        proof {
            lemma_unit_mul(self.m00 as int, v.x as int);
            lemma_unit_mul(self.m01 as int, v.y as int);
            lemma_unit_mul(self.m10 as int, v.x as int);
            lemma_unit_mul(self.m11 as int, v.y as int);
        }
        Vector2 { x: self.m00 * v.x + self.m01 * v.y, y: self.m10 * v.x + self.m11 * v.y }
    }

    pub fn inverse_rotate(&self, v: &Vector2) -> (r: Vector2)
        requires
            self.wf(),
            bounded2(v@, 0x100_0000_0000),
        ensures
            r@ == self.apply_transpose(v@),
            bounded2(r@, 2 * abs(v.x as int) + 2 * abs(v.y as int)),
    {
        proof {
            reveal(Rotation2::apply_transpose);
        }
        proof {
            lemma_unit_mul(self.m00 as int, v.x as int);
            lemma_unit_mul(self.m10 as int, v.y as int);
            lemma_unit_mul(self.m01 as int, v.x as int);
            lemma_unit_mul(self.m11 as int, v.y as int);
        }
        Vector2 { x: self.m00 * v.x + self.m10 * v.y, y: self.m01 * v.x + self.m11 * v.y }
    }
}

/// A rotation of space, as an integer matrix: one of the 24 rotations that
/// map coordinate axes to coordinate axes.
#[derive(Clone, Copy, Debug, PartialEq, Eq, Structural)]
pub struct Rotation3 {
    pub m00: i64,
    pub m01: i64,
    pub m02: i64,
    pub m10: i64,
    pub m11: i64,
    pub m12: i64,
    pub m20: i64,
    pub m21: i64,
    pub m22: i64,
}

impl Rotation3 {
    /// Every entry is -1, 0 or 1 and the columns are orthonormal.
    pub open spec fn wf(&self) -> bool {
        &&& is_unit_entry(self.m00 as int) && is_unit_entry(self.m01 as int) && is_unit_entry(self.m02 as int)
        &&& is_unit_entry(self.m10 as int) && is_unit_entry(self.m11 as int) && is_unit_entry(self.m12 as int)
        &&& is_unit_entry(self.m20 as int) && is_unit_entry(self.m21 as int) && is_unit_entry(self.m22 as int)
        &&& self.orthonormal()
    }

    /// The columns are of unit length and pairwise orthogonal, and the
    /// determinant is 1.
    #[verifier::opaque]
    pub open spec fn orthonormal(&self) -> bool {
        &&& dot3(self.col(0), self.col(0)) == 1
        &&& dot3(self.col(1), self.col(1)) == 1
        &&& dot3(self.col(2), self.col(2)) == 1
        &&& dot3(self.col(0), self.col(1)) == 0
        &&& dot3(self.col(0), self.col(2)) == 0
        &&& dot3(self.col(1), self.col(2)) == 0
        &&& dot3(self.col(0), cross3(self.col(1), self.col(2))) == 1
    }

    pub open spec fn col(&self, j: int) -> Pt3 {
        if j == 0 {
            (self.m00 as int, self.m10 as int, self.m20 as int)
        } else if j == 1 {
            (self.m01 as int, self.m11 as int, self.m21 as int)
        } else {
            (self.m02 as int, self.m12 as int, self.m22 as int)
        }
    }

    #[verifier::opaque]
    pub open spec fn apply(&self, v: Pt3) -> Pt3 {
        (
            self.m00 * v.0 + self.m01 * v.1 + self.m02 * v.2,
            self.m10 * v.0 + self.m11 * v.1 + self.m12 * v.2,
            self.m20 * v.0 + self.m21 * v.1 + self.m22 * v.2,
        )
    }

    #[verifier::opaque]
    pub open spec fn apply_transpose(&self, v: Pt3) -> Pt3 {
        (dot3(self.col(0), v), dot3(self.col(1), v), dot3(self.col(2), v))
    }

    pub fn identity() -> (r: Rotation3)
        ensures
            r.wf(),
            forall|v: Pt3| r.apply(v) == v,
    {
        proof {
            reveal(Rotation3::apply);
            reveal(Rotation3::orthonormal);
        }
        Rotation3 { m00: 1, m01: 0, m02: 0, m10: 0, m11: 1, m12: 0, m20: 0, m21: 0, m22: 1 }
    }

    pub fn rotate(&self, v: &Vector3) -> (r: Vector3)
        requires
            self.wf(),
            bounded3(v@, 0x100_0000_0000),
        ensures
            r@ == self.apply(v@),
            bounded3(r@, abs(v.x as int) + abs(v.y as int) + abs(v.z as int)),
    {
        proof {
            reveal(Rotation3::apply);
        }
        Vector3 {
            x: unit_row3(self.m00, self.m01, self.m02, v.x, v.y, v.z),
            y: unit_row3(self.m10, self.m11, self.m12, v.x, v.y, v.z),
            z: unit_row3(self.m20, self.m21, self.m22, v.x, v.y, v.z),
        }
    }

    pub fn inverse_rotate(&self, v: &Vector3) -> (r: Vector3)
        requires
            self.wf(),
            bounded3(v@, 0x100_0000_0000),
        ensures
            r@ == self.apply_transpose(v@),
            bounded3(r@, abs(v.x as int) + abs(v.y as int) + abs(v.z as int)),
    {
        proof {
            reveal(Rotation3::apply_transpose);
        }
        Vector3 {
            x: unit_row3(self.m00, self.m10, self.m20, v.x, v.y, v.z),
            y: unit_row3(self.m01, self.m11, self.m21, v.x, v.y, v.z),
            z: unit_row3(self.m02, self.m12, self.m22, v.x, v.y, v.z),
        }
    }
}

/// A rigid motion of the plane: a rotation followed by a translation.
#[derive(Clone, Copy, Debug, PartialEq, Eq, Structural)]
pub struct Isometry2 {
    pub rotation: Rotation2,
    pub translation: Vector2,
}

impl Isometry2 {
    pub open spec fn wf(&self) -> bool {
        self.rotation.wf() && bounded2(self.translation@, COORD_BOUND as int)
    }

    pub open spec fn apply_point(&self, p: Pt2) -> Pt2 {
        add2(self.rotation.apply(p), self.translation@)
    }

    pub fn new(translation: Vector2, rotation: Rotation2) -> (r: Isometry2)
        ensures
            r.translation == translation,
            r.rotation == rotation,
    {
        Isometry2 { rotation, translation }
    }

    pub fn transform_point(&self, p: &Vector2) -> (r: Vector2)
        requires
            self.wf(),
            bounded2(p@, 0x10_0000_0000),
        ensures
            r@ == self.apply_point(p@),
            bounded2(r@, 2 * abs(p.x as int) + 2 * abs(p.y as int) + COORD_BOUND),
    {
        let q = self.rotation.rotate(p);
        Vector2 { x: q.x + self.translation.x, y: q.y + self.translation.y }
    }
}

/// A rigid motion of space: a rotation followed by a translation.
#[derive(Clone, Copy, Debug, PartialEq, Eq, Structural)]
pub struct Isometry3 {
    pub rotation: Rotation3,
    pub translation: Vector3,
}

impl Isometry3 {
    pub open spec fn wf(&self) -> bool {
        self.rotation.wf() && bounded3(self.translation@, COORD_BOUND as int)
    }

    pub open spec fn apply_point(&self, p: Pt3) -> Pt3 {
        add3(self.rotation.apply(p), self.translation@)
    }

    pub fn new(translation: Vector3, rotation: Rotation3) -> (r: Isometry3)
        ensures
            r.translation == translation,
            r.rotation == rotation,
    {
        Isometry3 { rotation, translation }
    }

    pub fn transform_point(&self, p: &Vector3) -> (r: Vector3)
        requires
            self.wf(),
            bounded3(p@, 0x10_0000_0000),
        ensures
            r@ == self.apply_point(p@),
            bounded3(r@, abs(p.x as int) + abs(p.y as int) + abs(p.z as int) + COORD_BOUND),
    {
        let q = self.rotation.rotate(p);
        let ghost s = abs(p.x as int) + abs(p.y as int) + abs(p.z as int);
        assert(abs(q.x as int) <= s && abs(q.y as int) <= s && abs(q.z as int) <= s);
        let t = self.translation;
        assert(abs(t.x as int) <= COORD_BOUND && abs(t.y as int) <= COORD_BOUND && abs(t.z as int) <= COORD_BOUND);
        Vector3 { x: q.x + t.x, y: q.y + t.y, z: q.z + t.z }
    }
}

} // verus!
