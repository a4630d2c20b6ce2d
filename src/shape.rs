//! The shapes queried here and their support maps: for a direction, the point
//! of the shape (in its local frame) with the largest projection on it.
use vstd::prelude::*;
use crate::math::{bounded2, bounded3, dot2, dot3, Vector2, Vector3, COORD_BOUND, Pt2, Pt3};

verus! {

pub open spec fn copysign(h: int, d: int) -> int {
    if d >= 0 { h } else { -h }
}

pub open spec fn cuboid_support2(h: Pt2, d: Pt2) -> Pt2 {
    (copysign(h.0, d.0), copysign(h.1, d.1))
}

pub open spec fn cuboid_support3(h: Pt3, d: Pt3) -> Pt3 {
    (copysign(h.0, d.0), copysign(h.1, d.1), copysign(h.2, d.2))
}

proof fn lemma_copysign_extreme(h: int, d: int, x: int)
    requires
        -h <= x <= h,
    ensures
        copysign(h, d) * d >= x * d,
{
    if d >= 0 {
        assert(h * d >= x * d) by (nonlinear_arith)
            requires
                x <= h,
                d >= 0,
        ;
    } else {
        assert((-h) * d >= x * d) by (nonlinear_arith)
            requires
                -h <= x,
                d < 0,
        ;
    }
}

/// The cuboid's support point has the largest projection on `d` of all the
/// points of the rectangle.
pub proof fn lemma_cuboid_support2_is_extreme(h: Pt2, d: Pt2, p: Pt2)
    requires
        -h.0 <= p.0 <= h.0,
        -h.1 <= p.1 <= h.1,
    ensures
        dot2(cuboid_support2(h, d), d) >= dot2(p, d),
{
    lemma_copysign_extreme(h.0, d.0, p.0);
    lemma_copysign_extreme(h.1, d.1, p.1);
}

/// The cuboid's support point has the largest projection on `d` of all the
/// points of the box.
pub proof fn lemma_cuboid_support3_is_extreme(h: Pt3, d: Pt3, p: Pt3)
    requires
        -h.0 <= p.0 <= h.0,
        -h.1 <= p.1 <= h.1,
        -h.2 <= p.2 <= h.2,
    ensures
        dot3(cuboid_support3(h, d), d) >= dot3(p, d),
{
    lemma_copysign_extreme(h.0, d.0, p.0);
    lemma_copysign_extreme(h.1, d.1, p.1);
    lemma_copysign_extreme(h.2, d.2, p.2);
}

/// The vertex with the largest projection; on a tie the later of `a` and `b`
/// against `c` is `c`, and `b` is kept over `a`.
pub open spec fn pick_vertex<P>(a: P, b: P, c: P, d1: int, d2: int, d3: int) -> P {
    if d1 > d2 {
        if d1 > d3 { a } else { c }
    } else {
        if d2 > d3 { b } else { c }
    }
}

pub open spec fn triangle_support2(a: Pt2, b: Pt2, c: Pt2, d: Pt2) -> Pt2 {
    pick_vertex(a, b, c, dot2(a, d), dot2(b, d), dot2(c, d))
}

pub open spec fn triangle_support3(a: Pt3, b: Pt3, c: Pt3, d: Pt3) -> Pt3 {
    pick_vertex(a, b, c, dot3(a, d), dot3(b, d), dot3(c, d))
}

/// An axis-aligned rectangle centred on the origin of its frame.
#[derive(Clone, Copy, Debug, PartialEq, Eq, Structural)]
pub struct Cuboid2 {
    pub half_extents: Vector2,
}

/// An axis-aligned box centred on the origin of its frame.
#[derive(Clone, Copy, Debug, PartialEq, Eq, Structural)]
pub struct Cuboid3 {
    pub half_extents: Vector3,
}

/// A triangle of the plane given by its vertices.
#[derive(Clone, Copy, Debug, PartialEq, Eq, Structural)]
pub struct Triangle2 {
    pub a: Vector2,
    pub b: Vector2,
    pub c: Vector2,
}

/// A triangle in space given by its vertices.
#[derive(Clone, Copy, Debug, PartialEq, Eq, Structural)]
pub struct Triangle3 {
    pub a: Vector3,
    pub b: Vector3,
    pub c: Vector3,
}

/// A convex shape of the plane with a support map.
#[derive(Clone, Copy, Debug, PartialEq, Eq, Structural)]
pub enum Shape2 {
    Cuboid(Cuboid2),
    Triangle(Triangle2),
}

impl Cuboid2 {
    pub open spec fn wf(&self) -> bool {
        0 <= self.half_extents.x <= COORD_BOUND && 0 <= self.half_extents.y <= COORD_BOUND
    }

    pub fn new(half_extents: Vector2) -> (r: Cuboid2)
        ensures
            r.half_extents == half_extents,
    {
        Cuboid2 { half_extents }
    }

    pub fn local_support_point(&self, dir: &Vector2) -> (r: Vector2)
        requires
            self.wf(),
        ensures
            r@ == cuboid_support2(self.half_extents@, dir@),
            bounded2(r@, COORD_BOUND as int),
    {
        let h = self.half_extents;
        Vector2 {
            x: if dir.x >= 0 { h.x } else { -h.x },
            y: if dir.y >= 0 { h.y } else { -h.y },
        }
    }
}

impl Cuboid3 {
    pub open spec fn wf(&self) -> bool {
        &&& 0 <= self.half_extents.x <= COORD_BOUND
        &&& 0 <= self.half_extents.y <= COORD_BOUND
        &&& 0 <= self.half_extents.z <= COORD_BOUND
    }

    pub fn new(half_extents: Vector3) -> (r: Cuboid3)
        ensures
            r.half_extents == half_extents,
    {
        Cuboid3 { half_extents }
    }

    pub fn local_support_point(&self, dir: &Vector3) -> (r: Vector3)
        requires
            self.wf(),
        ensures
            r@ == cuboid_support3(self.half_extents@, dir@),
            bounded3(r@, COORD_BOUND as int),
    {
        let h = self.half_extents;
        Vector3 {
            x: if dir.x >= 0 { h.x } else { -h.x },
            y: if dir.y >= 0 { h.y } else { -h.y },
            z: if dir.z >= 0 { h.z } else { -h.z },
        }
    }
}

impl Triangle2 {
    pub open spec fn wf(&self) -> bool {
        bounded2(self.a@, COORD_BOUND as int) && bounded2(self.b@, COORD_BOUND as int)
            && bounded2(self.c@, COORD_BOUND as int)
    }

    pub fn new(a: Vector2, b: Vector2, c: Vector2) -> (r: Triangle2)
        ensures
            r.a == a && r.b == b && r.c == c,
    {
        Triangle2 { a, b, c }
    }

    pub fn local_support_point(&self, dir: &Vector2) -> (r: Vector2)
        requires
            self.wf(),
            bounded2(dir@, 0x2000_0000),
        ensures
            r@ == triangle_support2(self.a@, self.b@, self.c@, dir@),
            r == self.a || r == self.b || r == self.c,
            dot2(r@, dir@) >= dot2(self.a@, dir@),
            dot2(r@, dir@) >= dot2(self.b@, dir@),
            dot2(r@, dir@) >= dot2(self.c@, dir@),
            bounded2(r@, COORD_BOUND as int),
    {
        let d1 = self.a.dot(dir);
        let d2 = self.b.dot(dir);
        let d3 = self.c.dot(dir);
        if d1 > d2 {
            if d1 > d3 { self.a } else { self.c }
        } else {
            if d2 > d3 { self.b } else { self.c }
        }
    }
}

impl Triangle3 {
    pub open spec fn wf(&self) -> bool {
        bounded3(self.a@, COORD_BOUND as int) && bounded3(self.b@, COORD_BOUND as int)
            && bounded3(self.c@, COORD_BOUND as int)
    }

    pub fn new(a: Vector3, b: Vector3, c: Vector3) -> (r: Triangle3)
        ensures
            r.a == a && r.b == b && r.c == c,
    {
        Triangle3 { a, b, c }
    }

    pub fn local_support_point(&self, dir: &Vector3) -> (r: Vector3)
        requires
            self.wf(),
            bounded3(dir@, 0x2000_0000),
        ensures
            r@ == triangle_support3(self.a@, self.b@, self.c@, dir@),
            r == self.a || r == self.b || r == self.c,
            dot3(r@, dir@) >= dot3(self.a@, dir@),
            dot3(r@, dir@) >= dot3(self.b@, dir@),
            dot3(r@, dir@) >= dot3(self.c@, dir@),
            bounded3(r@, COORD_BOUND as int),
    {
        let d1 = self.a.dot(dir);
        let d2 = self.b.dot(dir);
        let d3 = self.c.dot(dir);
        if d1 > d2 {
            if d1 > d3 { self.a } else { self.c }
        } else {
            if d2 > d3 { self.b } else { self.c }
        }
    }
}

impl Shape2 {
    pub open spec fn wf(&self) -> bool {
        match self {
            Shape2::Cuboid(s) => s.wf(),
            Shape2::Triangle(s) => s.wf(),
        }
    }

    pub open spec fn support(&self, d: Pt2) -> Pt2 {
        match self {
            Shape2::Cuboid(s) => cuboid_support2(s.half_extents@, d),
            Shape2::Triangle(s) => triangle_support2(s.a@, s.b@, s.c@, d),
        }
    }

    pub fn local_support_point(&self, dir: &Vector2) -> (r: Vector2)
        requires
            self.wf(),
            bounded2(dir@, 0x2000_0000),
        ensures
            r@ == self.support(dir@),
            bounded2(r@, COORD_BOUND as int),
    {
        match self {
            Shape2::Cuboid(s) => s.local_support_point(dir),
            Shape2::Triangle(s) => s.local_support_point(dir),
        }
    }
}

} // verus!
