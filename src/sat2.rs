//! Separating-axis searches between a triangle and a convex shape of the plane.
use vstd::prelude::*;
use crate::math::{abs, bounded2, dot2, lemma_mul_bound, neg2, sub2, Isometry2, Vector2, COORD_BOUND, Pt2};
use crate::separation::{fold_best, keep_best, sep_greater, LEN_SQ_BOUND, NUM_BOUND};
use crate::shape::{triangle_support2, Cuboid2, Shape2, Triangle2};

verus! {

/// An axis of frame 1 and the separation of two shapes along it, which is the
/// real number `separation / |axis|`.
#[derive(Clone, Copy, Debug, PartialEq, Eq, Structural)]
pub struct SeparatingAxis2 {
    pub separation: i64,
    pub axis: Vector2,
}

impl View for SeparatingAxis2 {
    type V = (int, int, Pt2);

    open spec fn view(&self) -> (int, int, Pt2) {
        (self.separation as int, dot2(self.axis@, self.axis@), self.axis@)
    }
}

pub open spec fn opt_view2(r: Option<SeparatingAxis2>) -> Option<(int, int, Pt2)> {
    match r {
        Some(s) => Some(s@),
        None => None,
    }
}

/// Separation along `n` of the triangle (frame 1) and `shape2` placed by
/// `pos12`: the triangle's extreme point toward `n` against the shape's
/// extreme point toward `-n`.
pub open spec fn support_map_separation2(tri1: Triangle2, shape2: Shape2, pos12: Isometry2, n: Pt2) -> int {
    let p1 = triangle_support2(tri1.a@, tri1.b@, tri1.c@, n);
    let d2 = neg2(pos12.rotation.apply_transpose(n));
    let p2 = pos12.apply_point(shape2.support(d2));
    dot2(sub2(p2, p1), n)
}

/// The outward normal of the edge from `p` to `q` of a counter-clockwise
/// triangle, not normalized.
pub open spec fn edge_normal2(p: Pt2, q: Pt2) -> Pt2 {
    ((q.1 - p.1), -(q.0 - p.0))
}

/// The candidate of the edge from `p` to `q`; none for a degenerate edge.
pub open spec fn edge_candidate2(tri1: Triangle2, shape2: Shape2, pos12: Isometry2, p: Pt2, q: Pt2) -> Option<(int, int, Pt2)> {
    if p == q {
        None
    } else {
        let n = edge_normal2(p, q);
        Some((support_map_separation2(tri1, shape2, pos12, n), dot2(n, n), n))
    }
}

/// The candidates of the triangle's edges `ab`, `bc` and `ca`, in this order.
pub open spec fn triangle_edge_candidates2(tri1: Triangle2, shape2: Shape2, pos12: Isometry2) -> Seq<Option<(int, int, Pt2)>> {
    seq![
        edge_candidate2(tri1, shape2, pos12, tri1.a@, tri1.b@),
        edge_candidate2(tri1, shape2, pos12, tri1.b@, tri1.c@),
        edge_candidate2(tri1, shape2, pos12, tri1.c@, tri1.a@),
    ]
}

pub open spec fn best_bounded2(best: Option<SeparatingAxis2>) -> bool {
    match best {
        Some(b) => abs(b.separation as int) <= NUM_BOUND && 0 < dot2(b.axis@, b.axis@) <= LEN_SQ_BOUND
            && bounded2(b.axis@, 8192),
        None => true,
    }
}

/// Separation of the triangle and the shape along `n`.
fn separation_along2(tri1: &Triangle2, shape2: &Shape2, pos12: &Isometry2, n: &Vector2) -> (r: i64)
    requires
        tri1.wf(),
        shape2.wf(),
        pos12.wf(),
        bounded2(n@, 8192),
    ensures
        r as int == support_map_separation2(*tri1, *shape2, *pos12, n@),
        abs(r as int) <= 2 * (24576 * 8192),
{
    let p1 = tri1.local_support_point(n);
    let n2 = pos12.rotation.inverse_rotate(n);
    assert(bounded2(n2@, 32768));
    let d2 = n2.neg();
    let q2 = shape2.local_support_point(&d2);
    let p2 = pos12.transform_point(&q2);
    assert(bounded2(p2@, 20480));
    let diff = p2.sub(&p1);
    assert(bounded2(diff@, 24576));
    proof {
        lemma_mul_bound(diff.x as int, n.x as int, 24576, 8192);
        lemma_mul_bound(diff.y as int, n.y as int, 24576, 8192);
    }
    diff.dot(n)
}

/// Tests the normal of the edge from `p` to `q` against the running best.
fn consider_edge(
    best: Option<SeparatingAxis2>,
    tri1: &Triangle2,
    shape2: &Shape2,
    pos12: &Isometry2,
    p: &Vector2,
    q: &Vector2,
) -> (r: Option<SeparatingAxis2>)
    requires
        tri1.wf(),
        shape2.wf(),
        pos12.wf(),
        bounded2(p@, COORD_BOUND as int),
        bounded2(q@, COORD_BOUND as int),
        best_bounded2(best),
    ensures
        opt_view2(r) == keep_best(opt_view2(best), edge_candidate2(*tri1, *shape2, *pos12, p@, q@)),
        best_bounded2(r),
{
    if p.x == q.x && p.y == q.y {
        return best;
    }
    let dir = q.sub(p);
    let normal = Vector2::new(dir.y, -dir.x);
    assert(bounded2(normal@, 8192));
    let sep = separation_along2(tri1, shape2, pos12, &normal);
    let len = normal.norm_squared();
    proof {
        lemma_mul_bound(normal.x as int, normal.x as int, 8192, 8192);
        lemma_mul_bound(normal.y as int, normal.y as int, 8192, 8192);
        assert(normal.x * normal.x >= 0 && normal.y * normal.y >= 0) by (nonlinear_arith);
        if normal.x != 0 {
            assert(normal.x * normal.x > 0) by (nonlinear_arith) requires normal.x != 0;
        } else {
            assert(normal.y * normal.y > 0) by (nonlinear_arith) requires normal.y != 0;
        }
    }
    let c = SeparatingAxis2 { separation: sep, axis: normal };
    match best {
        None => Some(c),
        Some(b) => {
            let len_b = b.axis.norm_squared();
            if sep_greater(sep, len, b.separation, len_b) {
                Some(c)
            } else {
                best
            }
        },
    }
}

/// Finds the best separating normal between a triangle and a convex shape
/// with a support map. Only the edge normals of `triangle1` are tested,
/// degenerate edges skipped; on a tie the first edge found wins. `None` where
/// every edge is degenerate.
pub fn triangle_support_map_find_local_separating_normal_oneway(
    triangle1: &Triangle2,
    shape2: &Shape2,
    pos12: &Isometry2,
) -> (r: Option<SeparatingAxis2>)
    requires
        triangle1.wf(),
        shape2.wf(),
        pos12.wf(),
    ensures
        opt_view2(r) == fold_best(triangle_edge_candidates2(*triangle1, *shape2, *pos12)),
{
    let ghost cs = triangle_edge_candidates2(*triangle1, *shape2, *pos12);
    let best = consider_edge(None, triangle1, shape2, pos12, &triangle1.a, &triangle1.b);
    let best = consider_edge(best, triangle1, shape2, pos12, &triangle1.b, &triangle1.c);
    let best = consider_edge(best, triangle1, shape2, pos12, &triangle1.c, &triangle1.a);
    proof {
        assert(cs.drop_last() =~= seq![cs[0], cs[1]]);
        assert(cs.drop_last().drop_last() =~= seq![cs[0]]);
        assert(cs.drop_last().drop_last().drop_last() =~= Seq::<Option<(int, int, Pt2)>>::empty());
        reveal_with_fuel(fold_best, 4);
    }
    best
}

/// Finds the best separating normal between a triangle and a cuboid. Only the
/// edge normals of `triangle1` are tested.
pub fn triangle_cuboid_find_local_separating_normal_oneway(
    triangle1: &Triangle2,
    shape2: &Cuboid2,
    pos12: &Isometry2,
) -> (r: Option<SeparatingAxis2>)
    requires
        triangle1.wf(),
        shape2.wf(),
        pos12.wf(),
    ensures
        opt_view2(r) == fold_best(triangle_edge_candidates2(*triangle1, Shape2::Cuboid(*shape2), *pos12)),
{
    triangle_support_map_find_local_separating_normal_oneway(triangle1, &Shape2::Cuboid(*shape2), pos12)
}

} // verus!
