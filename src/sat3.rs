//! Separating-axis searches between a cuboid and a triangle in space.
use vstd::prelude::*;
use crate::math::{
    abs, bounded3, cross3, dot3, lemma_mul_bound, neg3, sub3, Isometry3, Rotation3, Vector3, COORD_BOUND, Pt3,
};
use crate::separation::{
    cand_ge, cand_valid, fold_best, lemma_more_axes_never_lower, sep_greater,
    LEN_SQ_BOUND, NUM_BOUND,
};
use crate::shape::{cuboid_support3, triangle_support3, Cuboid3, Triangle3};

verus! {

/// Largest magnitude of a coordinate of a candidate edge axis.
pub const AXIS_BOUND: i64 = 0x8000;

/// An axis of frame 1 and the separation of two shapes along it, which is the
/// real number `separation / |axis|`.
#[derive(Clone, Copy, Debug, PartialEq, Eq, Structural)]
pub struct SeparatingAxis3 {
    pub separation: i64,
    pub axis: Vector3,
}

impl View for SeparatingAxis3 {
    type V = (int, int, Pt3);

    open spec fn view(&self) -> (int, int, Pt3) {
        (self.separation as int, dot3(self.axis@, self.axis@), self.axis@)
    }
}

pub open spec fn opt_view3(r: Option<SeparatingAxis3>) -> Option<(int, int, Pt3)> {
    match r {
        Some(s) => Some(s@),
        None => None,
    }
}

/// Separation along `a` of the cuboid (frame 1) and the triangle placed by
/// `pos12`, the cuboid's extreme point toward `a` against the triangle's
/// extreme point toward `-a`.
pub open spec fn line_separation3(cube1: Cuboid3, tri2: Triangle3, pos12: Isometry3, a: Pt3) -> int {
    let p1 = cuboid_support3(cube1.half_extents@, a);
    let d2 = neg3(pos12.rotation.apply_transpose(a));
    let p2 = pos12.apply_point(triangle_support3(tri2.a@, tri2.b@, tri2.c@, d2));
    dot3(sub3(p2, p1), a)
}

/// The candidate of the line spanned by `a`: the better of its two
/// directions, `a` itself on a tie; none for the zero vector.
pub open spec fn line_candidate3(cube1: Cuboid3, tri2: Triangle3, pos12: Isometry3, a: Pt3) -> Option<(int, int, Pt3)> {
    if a == (0int, 0int, 0int) {
        None
    } else {
        let s1 = line_separation3(cube1, tri2, pos12, a);
        let s2 = line_separation3(cube1, tri2, pos12, neg3(a));
        if s1 > s2 {
            Some((s1, dot3(a, a), a))
        } else {
            Some((s2, dot3(a, a), neg3(a)))
        }
    }
}

pub open spec fn edge_candidates3(cube1: Cuboid3, tri2: Triangle3, pos12: Isometry3, axes: Seq<Pt3>) -> Seq<Option<(int, int, Pt3)>> {
    axes.map_values(|a: Pt3| line_candidate3(cube1, tri2, pos12, a))
}

/// `(1, 0, 0) × v`.
pub open spec fn x_cross(v: Pt3) -> Pt3 {
    (0, -v.2, v.1)
}

/// `(0, 1, 0) × v`.
pub open spec fn y_cross(v: Pt3) -> Pt3 {
    (v.2, 0, -v.0)
}

/// `(0, 0, 1) × v`.
pub open spec fn z_cross(v: Pt3) -> Pt3 {
    (-v.1, v.0, 0)
}

/// The nine cross products of a coordinate axis of the cuboid with an edge
/// of the triangle, the edges taken into frame 1 by `pos12`.
#[verifier::opaque]
pub open spec fn cuboid_triangle_edge_axes(tri2: Triangle3, pos12: Isometry3) -> Seq<Pt3> {
    let x2 = pos12.rotation.apply(sub3(tri2.b@, tri2.a@));
    let y2 = pos12.rotation.apply(sub3(tri2.c@, tri2.b@));
    let z2 = pos12.rotation.apply(sub3(tri2.a@, tri2.c@));
    seq![
        x_cross(x2), y_cross(x2), z_cross(x2),
        x_cross(y2), y_cross(y2), z_cross(y2),
        x_cross(z2), y_cross(z2), z_cross(z2),
    ]
}

proof fn lemma_dot3_bound(u: Pt3, v: Pt3, ku: int, kv: int)
    requires
        bounded3(u, ku),
        bounded3(v, kv),
    ensures
        abs(dot3(u, v)) <= 3 * (ku * kv),
{
    lemma_mul_bound(u.0, v.0, ku, kv);
    lemma_mul_bound(u.1, v.1, ku, kv);
    lemma_mul_bound(u.2, v.2, ku, kv);
}

proof fn lemma_len_sq3(a: Pt3, k: int)
    requires
        bounded3(a, k),
        a != (0int, 0int, 0int),
    ensures
        0 < dot3(a, a) <= 3 * (k * k),
{
    lemma_dot3_bound(a, a, k, k);
    lemma_len_sq3_pos(a);
}

proof fn lemma_len_sq3_pos(a: Pt3)
    requires
        a != (0int, 0int, 0int),
    ensures
        0 < dot3(a, a),
{
    assert(a.0 * a.0 >= 0 && a.1 * a.1 >= 0 && a.2 * a.2 >= 0) by (nonlinear_arith);
    if a.0 != 0 {
        assert(a.0 * a.0 > 0) by (nonlinear_arith) requires a.0 != 0;
    } else if a.1 != 0 {
        assert(a.1 * a.1 > 0) by (nonlinear_arith) requires a.1 != 0;
    } else {
        assert(a.2 * a.2 > 0) by (nonlinear_arith) requires a.2 != 0;
    }
}

proof fn lemma_edge_candidates_valid3(cube1: Cuboid3, tri2: Triangle3, pos12: Isometry3, axes: Seq<Pt3>)
    ensures
        forall|i: int| 0 <= i < axes.len() ==> cand_valid(#[trigger] edge_candidates3(cube1, tri2, pos12, axes)[i]),
{
    assert forall|i: int| 0 <= i < axes.len() implies cand_valid(#[trigger] edge_candidates3(cube1, tri2, pos12, axes)[i]) by {
        let a = axes[i];
        if a != (0int, 0int, 0int) {
            lemma_len_sq3_pos(a);
            assert(dot3(neg3(a), neg3(a)) == dot3(a, a)) by (nonlinear_arith);
        }
    }
}

/// Testing more candidate axes between a cuboid and a triangle never lowers
/// the best separation found: the best over `axes + more` is at least the
/// best over `axes`.
pub proof fn lemma_cuboid_triangle_more_axes_never_lower(
    cube1: Cuboid3,
    tri2: Triangle3,
    pos12: Isometry3,
    axes: Seq<Pt3>,
    more: Seq<Pt3>,
)
    requires
        fold_best(edge_candidates3(cube1, tri2, pos12, axes)).is_some(),
    ensures
        fold_best(edge_candidates3(cube1, tri2, pos12, axes + more)).is_some(),
        cand_ge(
            fold_best(edge_candidates3(cube1, tri2, pos12, axes + more)).unwrap(),
            fold_best(edge_candidates3(cube1, tri2, pos12, axes)).unwrap(),
        ),
{
    let cs = edge_candidates3(cube1, tri2, pos12, axes);
    let ms = edge_candidates3(cube1, tri2, pos12, more);
    assert(edge_candidates3(cube1, tri2, pos12, axes + more) =~= cs + ms);
    lemma_edge_candidates_valid3(cube1, tri2, pos12, axes);
    lemma_edge_candidates_valid3(cube1, tri2, pos12, more);
    lemma_more_axes_never_lower(cs, ms);
}

/// Separation of the cuboid and the triangle along one direction.
fn separation_along3(cube1: &Cuboid3, tri2: &Triangle3, pos12: &Isometry3, a: &Vector3) -> (r: i64)
    requires
        cube1.wf(),
        tri2.wf(),
        pos12.wf(),
        bounded3(a@, AXIS_BOUND as int),
    ensures
        r as int == line_separation3(*cube1, *tri2, *pos12, a@),
        abs(r as int) <= 3 * (20480 * (AXIS_BOUND as int)),
{
    let p1 = cube1.local_support_point(a);
    let a2 = pos12.rotation.inverse_rotate(a);
    assert(bounded3(a2@, 3 * (AXIS_BOUND as int)));
    let d2 = a2.neg();
    let q2 = tri2.local_support_point(&d2);
    let p2 = pos12.transform_point(&q2);
    assert(bounded3(p2@, 16384));
    let diff = p2.sub(&p1);
    assert(bounded3(diff@, 20480));
    proof {
        lemma_dot3_bound(diff@, a@, 20480, AXIS_BOUND as int);
    }
    diff.dot(a)
}

/// Tests the line spanned by `axis1` in both directions and returns the
/// direction of larger separation, `axis1` itself on a tie.
pub fn cuboid_triangle_compute_separation_wrt_local_line(
    cube1: &Cuboid3,
    triangle2: &Triangle3,
    pos12: &Isometry3,
    axis1: &Vector3,
) -> (r: SeparatingAxis3)
    requires
        cube1.wf(),
        triangle2.wf(),
        pos12.wf(),
        bounded3(axis1@, AXIS_BOUND as int),
        axis1@ != (0int, 0int, 0int),
    ensures
        line_candidate3(*cube1, *triangle2, *pos12, axis1@) == Some(r@),
        abs(r.separation as int) <= NUM_BOUND,
        0 < dot3(r.axis@, r.axis@) <= LEN_SQ_BOUND,
        bounded3(r.axis@, AXIS_BOUND as int),
{
    let neg = axis1.neg();
    let s1 = separation_along3(cube1, triangle2, pos12, axis1);
    let s2 = separation_along3(cube1, triangle2, pos12, &neg);
    proof {
        lemma_len_sq3(axis1@, AXIS_BOUND as int);
        assert(dot3(neg@, neg@) == dot3(axis1@, axis1@)) by (nonlinear_arith)
            requires
                neg@ == neg3(axis1@),
        ;
    }
    if s1 > s2 {
        SeparatingAxis3 { separation: s1, axis: *axis1 }
    } else {
        SeparatingAxis3 { separation: s2, axis: neg }
    }
}

/// Finds, among the candidate `axes` of frame 1, the direction along which
/// the cuboid and the triangle are the most separated. Each axis is tested in
/// both directions; zero axes are skipped; on a tie the first found wins.
/// `None` where every axis is zero.
pub fn cuboid_triangle_find_local_separating_edge(
    cube1: &Cuboid3,
    triangle2: &Triangle3,
    axes: &Vec<Vector3>,
    pos12: &Isometry3,
) -> (r: Option<SeparatingAxis3>)
    requires
        cube1.wf(),
        triangle2.wf(),
        pos12.wf(),
        forall|i: int| 0 <= i < axes.len() ==> bounded3(#[trigger] axes@[i]@, AXIS_BOUND as int),
    ensures
        opt_view3(r) == fold_best(
            edge_candidates3(*cube1, *triangle2, *pos12, axes@.map_values(|v: Vector3| v@)),
        ),
{
    let ghost views = axes@.map_values(|v: Vector3| v@);
    let ghost cs = edge_candidates3(*cube1, *triangle2, *pos12, views);
    let mut best: Option<SeparatingAxis3> = None;
    let mut i: usize = 0;
    while i < axes.len()
        invariant
            0 <= i <= axes.len(),
            views == axes@.map_values(|v: Vector3| v@),
            cs == edge_candidates3(*cube1, *triangle2, *pos12, views),
            cube1.wf(),
            triangle2.wf(),
            pos12.wf(),
            forall|j: int| 0 <= j < axes.len() ==> bounded3(#[trigger] axes@[j]@, AXIS_BOUND as int),
            opt_view3(best) == fold_best(cs.subrange(0, i as int)),
            match best {
                Some(b) => abs(b.separation as int) <= NUM_BOUND && 0 < dot3(b.axis@, b.axis@) <= LEN_SQ_BOUND
                    && bounded3(b.axis@, AXIS_BOUND as int),
                None => true,
            },
        decreases axes.len() - i,
    {
        let axis1 = axes[i];
        assert(views[i as int] == axis1@);
        assert(cs[i as int] == line_candidate3(*cube1, *triangle2, *pos12, axis1@));
        assert(cs.subrange(0, i + 1).drop_last() =~= cs.subrange(0, i as int));
        if axis1.x != 0 || axis1.y != 0 || axis1.z != 0 {
            let c = cuboid_triangle_compute_separation_wrt_local_line(cube1, triangle2, pos12, &axis1);
            match best {
                None => {
                    best = Some(c);
                },
                Some(b) => {
                    let len_c = c.axis.norm_squared();
                    let len_b = b.axis.norm_squared();
                    if sep_greater(c.separation, len_c, b.separation, len_b) {
                        best = Some(c);
                    }
                },
            }
        }
        i = i + 1;
    }
    assert(cs.subrange(0, axes.len() as int) =~= cs);
    best
}

/// The edge from `p` to `q`, rotated.
fn rotated_edge(rot: &Rotation3, p: &Vector3, q: &Vector3) -> (r: Vector3)
    requires
        rot.wf(),
        bounded3(p@, COORD_BOUND as int),
        bounded3(q@, COORD_BOUND as int),
    ensures
        r@ == rot.apply(sub3(q@, p@)),
        bounded3(r@, 24576),
{
    let e = q.sub(p);
    assert(bounded3(e@, 8192));
    rot.rotate(&e)
}

/// Finds the best separating edge between a cuboid and a triangle.
///
/// All combinations of an edge of the cuboid with an edge of the triangle are
/// taken into account: their cross products are the candidate axes.
pub fn cuboid_triangle_find_local_separating_edge_twoway(
    cube1: &Cuboid3,
    triangle2: &Triangle3,
    pos12: &Isometry3,
) -> (r: Option<SeparatingAxis3>)
    requires
        cube1.wf(),
        triangle2.wf(),
        pos12.wf(),
    ensures
        opt_view3(r) == fold_best(
            edge_candidates3(*cube1, *triangle2, *pos12, cuboid_triangle_edge_axes(*triangle2, *pos12)),
        ),
{
    let x2 = rotated_edge(&pos12.rotation, &triangle2.a, &triangle2.b);
    let y2 = rotated_edge(&pos12.rotation, &triangle2.b, &triangle2.c);
    let z2 = rotated_edge(&pos12.rotation, &triangle2.c, &triangle2.a);

    let ghost ax = cuboid_triangle_edge_axes(*triangle2, *pos12);
    let mut axes: Vec<Vector3> = Vec::new();
    let nx = x2.neg();
    axes.push(Vector3::new(0, nx.z, x2.y));
    axes.push(Vector3::new(x2.z, 0, nx.x));
    axes.push(Vector3::new(nx.y, x2.x, 0));
    let ny = y2.neg();
    axes.push(Vector3::new(0, ny.z, y2.y));
    axes.push(Vector3::new(y2.z, 0, ny.x));
    axes.push(Vector3::new(ny.y, y2.x, 0));
    let nz = z2.neg();
    axes.push(Vector3::new(0, nz.z, z2.y));
    axes.push(Vector3::new(z2.z, 0, nz.x));
    axes.push(Vector3::new(nz.y, z2.x, 0));
    let ghost vs = axes@.map_values(|v: Vector3| v@);
    assert(vs =~= ax) by {
        reveal(cuboid_triangle_edge_axes);
        assert(ax.len() == 9);
        assert(vs[0] == x_cross(x2@));
        assert(vs[1] == y_cross(x2@));
        assert(vs[2] == z_cross(x2@));
        assert(vs[3] == x_cross(y2@));
        assert(vs[4] == y_cross(y2@));
        assert(vs[5] == z_cross(y2@));
        assert(vs[6] == x_cross(z2@));
        assert(vs[7] == y_cross(z2@));
        assert(vs[8] == z_cross(z2@));
    }
    assert forall|i: int| 0 <= i < axes.len() implies bounded3(#[trigger] axes@[i]@, AXIS_BOUND as int) by {
        assert(0 <= i < 9);
    }
    cuboid_triangle_find_local_separating_edge(cube1, triangle2, &axes, pos12)
}

/// Largest magnitude of a coordinate of a triangle's (unnormalized) normal.
pub const NORMAL_BOUND: i64 = 0x800_0000;

/// The normal `(b - a) × (c - a)` of a triangle, not normalized.
pub open spec fn triangle_normal3(tri: Triangle3) -> Pt3 {
    cross3(sub3(tri.b@, tri.a@), sub3(tri.c@, tri.a@))
}

/// The candidate of the plane through `point1` with normal `normal1`, the
/// normal turned toward the origin of frame 2, against the cuboid placed by
/// `pos12`.
pub open spec fn point_cuboid_candidate3(point1: Pt3, normal1: Pt3, cube2: Cuboid3, pos12: Isometry3) -> (int, int, Pt3) {
    let axis = if dot3(sub3(pos12.translation@, point1), normal1) >= 0 { normal1 } else { neg3(normal1) };
    let d2 = neg3(pos12.rotation.apply_transpose(axis));
    let pt2 = pos12.apply_point(cuboid_support3(cube2.half_extents@, d2));
    (dot3(sub3(pt2, point1), axis), dot3(axis, axis), axis)
}

/// Separation between the plane through `point1` with normal `normal1` and a
/// cuboid placed by `pos12`. The normal is turned toward the cuboid's centre.
/// `None` where there is no normal or it is zero.
pub fn point_cuboid_find_local_separating_normal_oneway(
    point1: &Vector3,
    normal1: Option<Vector3>,
    shape2: &Cuboid3,
    pos12: &Isometry3,
) -> (r: Option<SeparatingAxis3>)
    requires
        bounded3(point1@, COORD_BOUND as int),
        shape2.wf(),
        pos12.wf(),
        match normal1 {
            Some(n) => bounded3(n@, NORMAL_BOUND as int),
            None => true,
        },
    ensures
        opt_view3(r) == match normal1 {
            Some(n) => if n@ == (0int, 0int, 0int) {
                None
            } else {
                Some(point_cuboid_candidate3(point1@, n@, *shape2, *pos12))
            },
            None => None,
        },
{
    match normal1 {
        None => None,
        Some(n) => {
            if n.x == 0 && n.y == 0 && n.z == 0 {
                None
            } else {
                let to2 = pos12.translation.sub(point1);
                assert(bounded3(to2@, 8192));
                let axis1 = if to2.dot(&n) >= 0 { n } else { n.neg() };
                let d2 = pos12.rotation.inverse_rotate(&axis1).neg();
                let pt2 = pos12.transform_point(&shape2.local_support_point(&d2));
                assert(bounded3(pt2@, 16384));
                let diff = pt2.sub(point1);
                assert(bounded3(diff@, 20480));
                Some(SeparatingAxis3 { separation: diff.dot(&axis1), axis: axis1 })
            }
        },
    }
}

proof fn lemma_cross3_bound(v: Pt3, w: Pt3, k: int)
    requires
        bounded3(v, k),
        bounded3(w, k),
    ensures
        bounded3(cross3(v, w), 2 * (k * k)),
{
    lemma_mul_bound(v.1, w.2, k, k);
    lemma_mul_bound(v.2, w.1, k, k);
    lemma_mul_bound(v.2, w.0, k, k);
    lemma_mul_bound(v.0, w.2, k, k);
    lemma_mul_bound(v.0, w.1, k, k);
    lemma_mul_bound(v.1, w.0, k, k);
}

/// Finds the separation of a triangle and a cuboid along the triangle's face
/// normal, turned toward the cuboid. `None` where the triangle is degenerate.
pub fn triangle_cuboid_find_local_separating_normal_oneway(
    triangle1: &Triangle3,
    shape2: &Cuboid3,
    pos12: &Isometry3,
) -> (r: Option<SeparatingAxis3>)
    requires
        triangle1.wf(),
        shape2.wf(),
        pos12.wf(),
    ensures
        opt_view3(r) == if triangle_normal3(*triangle1) == (0int, 0int, 0int) {
            None
        } else {
            Some(point_cuboid_candidate3(triangle1.a@, triangle_normal3(*triangle1), *shape2, *pos12))
        },
{
    let ab = triangle1.b.sub(&triangle1.a);
    let ac = triangle1.c.sub(&triangle1.a);
    assert(bounded3(ab@, 8192) && bounded3(ac@, 8192));
    proof {
        lemma_cross3_bound(ab@, ac@, 8192);
    }
    let normal = ab.cross(&ac);
    point_cuboid_find_local_separating_normal_oneway(&triangle1.a, Some(normal), shape2, pos12)
}

} // verus!
