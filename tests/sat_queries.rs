use parry_sat::math::{Isometry2, Isometry3, Rotation2, Rotation3, Vector2, Vector3};
use parry_sat::sat2::{
    triangle_cuboid_find_local_separating_normal_oneway as triangle_cuboid_normal2,
    triangle_support_map_find_local_separating_normal_oneway, SeparatingAxis2,
};
use parry_sat::sat3::{
    cuboid_triangle_compute_separation_wrt_local_line, cuboid_triangle_find_local_separating_edge,
    cuboid_triangle_find_local_separating_edge_twoway, point_cuboid_find_local_separating_normal_oneway,
    triangle_cuboid_find_local_separating_normal_oneway, SeparatingAxis3,
};
use parry_sat::separation::sep_greater;
use parry_sat::shape::{Cuboid2, Cuboid3, Shape2, Triangle2, Triangle3};

fn v2(x: i64, y: i64) -> Vector2 {
    Vector2::new(x, y)
}

fn v3(x: i64, y: i64, z: i64) -> Vector3 {
    Vector3::new(x, y, z)
}

fn iso2(x: i64, y: i64) -> Isometry2 {
    Isometry2::new(v2(x, y), Rotation2::identity())
}

fn iso3(x: i64, y: i64, z: i64) -> Isometry3 {
    Isometry3::new(v3(x, y, z), Rotation3::identity())
}

fn flat_triangle() -> Triangle3 {
    Triangle3::new(v3(0, 0, 0), v3(2, 0, 0), v3(0, 2, 0))
}

#[test]
fn exact_comparison_of_scaled_separations() {
    // 1 / 1 > 1 / sqrt(2)
    assert!(sep_greater(1, 1, 1, 2));
    assert!(!sep_greater(1, 2, 1, 1));
    // -1 / sqrt(2) > -1 / 1
    assert!(sep_greater(-1, 2, -1, 1));
    assert!(!sep_greater(-1, 1, -1, 2));
    // 2 / 2 and 1 / 1 are equal: neither is greater
    assert!(!sep_greater(2, 4, 1, 1));
    assert!(!sep_greater(1, 1, 2, 4));
    assert!(sep_greater(0, 5, -1, 1));
    assert!(!sep_greater(-1, 1, 0, 5));
}

#[test]
fn triangle_support_map_picks_hypotenuse_normal() {
    let tri = Triangle2::new(v2(0, 0), v2(4, 0), v2(0, 4));
    let cube = Shape2::Cuboid(Cuboid2::new(v2(1, 1)));
    let r = triangle_support_map_find_local_separating_normal_oneway(&tri, &cube, &iso2(5, 5));
    // Along the normal (4, 4) of edge bc: 16 / sqrt(32).
    assert_eq!(r, Some(SeparatingAxis2 { separation: 16, axis: v2(4, 4) }));
}

#[test]
fn triangle_cuboid_2d_delegates_to_support_map() {
    let tri = Triangle2::new(v2(0, 0), v2(4, 0), v2(0, 4));
    let r = triangle_cuboid_normal2(&tri, &Cuboid2::new(v2(1, 1)), &iso2(5, 5));
    assert_eq!(r, Some(SeparatingAxis2 { separation: 16, axis: v2(4, 4) }));
}

#[test]
fn triangle_support_map_against_triangle_overlapping() {
    let tri = Triangle2::new(v2(0, 0), v2(4, 0), v2(0, 4));
    let other = Shape2::Triangle(Triangle2::new(v2(0, 0), v2(4, 0), v2(0, 4)));
    let r = triangle_support_map_find_local_separating_normal_oneway(&tri, &other, &iso2(1, 1)).unwrap();
    // The best edge normal still shows overlap.
    assert!(r.separation < 0);
}

#[test]
fn triangle_support_map_rotated_cuboid() {
    // A quarter turn makes the cuboid of half-extents (3, 1) stand up as (1, 3).
    let quarter = Rotation2 { m00: 0, m01: -1, m10: 1, m11: 0 };
    let pos12 = Isometry2::new(v2(0, -5), quarter);
    let tri = Triangle2::new(v2(0, 0), v2(4, 0), v2(0, 4));
    let cube = Shape2::Cuboid(Cuboid2::new(v2(3, 1)));
    let r = triangle_support_map_find_local_separating_normal_oneway(&tri, &cube, &pos12);
    // Along (0, -4), edge ab: the cuboid's top is at y = -2, two units below.
    assert_eq!(r, Some(SeparatingAxis2 { separation: 8, axis: v2(0, -4) }));
}

#[test]
fn triangle_support_map_degenerate_triangle_has_no_axis() {
    let p = v2(1, 1);
    let tri = Triangle2::new(p, p, p);
    let cube = Shape2::Cuboid(Cuboid2::new(v2(1, 1)));
    assert_eq!(triangle_support_map_find_local_separating_normal_oneway(&tri, &cube, &iso2(5, 5)), None);
}

#[test]
fn triangle_cuboid_3d_face_normal_above() {
    let r = triangle_cuboid_find_local_separating_normal_oneway(
        &flat_triangle(),
        &Cuboid3::new(v3(1, 1, 1)),
        &iso3(0, 0, 5),
    );
    // normal (0, 0, 4); the cuboid's bottom is at z = 4: 16 / 4.
    assert_eq!(r, Some(SeparatingAxis3 { separation: 16, axis: v3(0, 0, 4) }));
}

#[test]
fn triangle_cuboid_3d_face_normal_turns_toward_cuboid() {
    let r = triangle_cuboid_find_local_separating_normal_oneway(
        &flat_triangle(),
        &Cuboid3::new(v3(1, 1, 1)),
        &iso3(0, 0, -5),
    );
    assert_eq!(r, Some(SeparatingAxis3 { separation: 16, axis: v3(0, 0, -4) }));
}

#[test]
fn triangle_cuboid_3d_degenerate_triangle_has_no_axis() {
    let p = v3(1, 2, 3);
    let tri = Triangle3::new(p, p, v3(2, 4, 6));
    let r = triangle_cuboid_find_local_separating_normal_oneway(&tri, &Cuboid3::new(v3(1, 1, 1)), &iso3(0, 0, 5));
    assert_eq!(r, None);
}

#[test]
fn point_cuboid_without_normal_has_no_axis() {
    let cube = Cuboid3::new(v3(1, 1, 1));
    assert_eq!(point_cuboid_find_local_separating_normal_oneway(&v3(0, 0, 0), None, &cube, &iso3(0, 0, 5)), None);
    assert_eq!(
        point_cuboid_find_local_separating_normal_oneway(&v3(0, 0, 0), Some(v3(0, 0, 0)), &cube, &iso3(0, 0, 5)),
        None
    );
}

#[test]
fn cuboid_triangle_edges_above_cuboid() {
    let r = cuboid_triangle_find_local_separating_edge_twoway(
        &Cuboid3::new(v3(1, 1, 1)),
        &flat_triangle(),
        &iso3(0, 0, 5),
    );
    // The first vertical axis found, turned upward: 8 / 2.
    assert_eq!(r, Some(SeparatingAxis3 { separation: 8, axis: v3(0, 0, 2) }));
}

#[test]
fn cuboid_triangle_line_tests_both_directions() {
    let cube = Cuboid3::new(v3(1, 1, 1));
    let r = cuboid_triangle_compute_separation_wrt_local_line(&cube, &flat_triangle(), &iso3(0, 0, 5), &v3(0, 0, -2));
    assert_eq!(r, SeparatingAxis3 { separation: 8, axis: v3(0, 0, 2) });
    let r = cuboid_triangle_compute_separation_wrt_local_line(&cube, &flat_triangle(), &iso3(0, 0, 5), &v3(0, 2, 0));
    assert_eq!(r, SeparatingAxis3 { separation: -2, axis: v3(0, 2, 0) });
}

#[test]
fn cuboid_triangle_more_axes_never_lower() {
    let cube = Cuboid3::new(v3(1, 1, 1));
    let pos12 = iso3(0, 0, 5);
    let few = vec![v3(2, 0, 0)];
    let more = vec![v3(2, 0, 0), v3(0, 0, 1)];
    let a = cuboid_triangle_find_local_separating_edge(&cube, &flat_triangle(), &few, &pos12);
    let b = cuboid_triangle_find_local_separating_edge(&cube, &flat_triangle(), &more, &pos12);
    assert_eq!(a, Some(SeparatingAxis3 { separation: -2, axis: v3(2, 0, 0) }));
    assert_eq!(b, Some(SeparatingAxis3 { separation: 4, axis: v3(0, 0, 1) }));
}

#[test]
fn cuboid_triangle_zero_axes_have_no_axis() {
    let cube = Cuboid3::new(v3(1, 1, 1));
    let axes = vec![v3(0, 0, 0), v3(0, 0, 0)];
    assert_eq!(cuboid_triangle_find_local_separating_edge(&cube, &flat_triangle(), &axes, &iso3(0, 0, 5)), None);
    assert_eq!(cuboid_triangle_find_local_separating_edge(&cube, &flat_triangle(), &vec![], &iso3(0, 0, 5)), None);
}

#[test]
fn search_is_deterministic() {
    let tri = Triangle2::new(v2(0, 0), v2(4, 0), v2(0, 4));
    let cube = Shape2::Cuboid(Cuboid2::new(v2(1, 1)));
    let a = triangle_support_map_find_local_separating_normal_oneway(&tri, &cube, &iso2(5, 5));
    let b = triangle_support_map_find_local_separating_normal_oneway(&tri, &cube, &iso2(5, 5));
    assert_eq!(a, b);
}

#[test]
fn triangle_cuboid_3d_rotated_cuboid() {
    // A quarter turn about z; the face normal along z is unaffected.
    let quarter = Rotation3 { m00: 0, m01: -1, m02: 0, m10: 1, m11: 0, m12: 0, m20: 0, m21: 0, m22: 1 };
    let pos12 = Isometry3::new(v3(0, 0, 5), quarter);
    let r = triangle_cuboid_find_local_separating_normal_oneway(&flat_triangle(), &Cuboid3::new(v3(3, 1, 1)), &pos12);
    assert_eq!(r, Some(SeparatingAxis3 { separation: 16, axis: v3(0, 0, 4) }));
}
