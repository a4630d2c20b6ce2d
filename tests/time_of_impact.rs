use parry_sat::math::{Isometry2, Rotation2, Vector2};
use parry_sat::shape::Cuboid2;
use parry_sat::toi::{cuboid_cuboid_time_of_impact, Toi, ToiError, ToiStatus};

fn v2(x: i64, y: i64) -> Vector2 {
    Vector2::new(x, y)
}

fn at(x: i64, y: i64) -> Isometry2 {
    Isometry2::new(v2(x, y), Rotation2::identity())
}

fn cuboid(hx: i64, hy: i64) -> Cuboid2 {
    Cuboid2::new(v2(hx, hy))
}

// Two separated cuboids, one moving toward the other. Lengths are doubled
// (half-extents 1 and 1.5 become 2 and 3) so that they are integers; the
// speeds are doubled too, which leaves every time unchanged.
fn two_cuboids(max_time: Option<i64>, target: i64) -> Result<Option<Toi>, ToiError> {
    cuboid_cuboid_time_of_impact(
        &at(0, 0),
        &v2(2, 0),
        &cuboid(2, 2),
        &at(20, 0),
        &v2(0, 0),
        &cuboid(2, 3),
        max_time,
        target,
    )
}

#[test]
fn cuboid_cuboid_toi_two_separated_cuboids() {
    let toi = two_cuboids(None, 0).unwrap();
    assert!(toi.is_some());
    let toi = toi.unwrap();
    assert_eq!(toi.status, ToiStatus::Converged);
    // time 8
    assert_eq!((toi.time_num, toi.time_den), (16, 2));
    assert_eq!(toi.normal, v2(1, 0));
    assert_eq!(toi.witness1, v2(2, 2));
    assert_eq!(toi.witness2, v2(-2, 3));
}

#[test]
fn cuboid_cuboid_toi_swapped_is_symmetric() {
    let toi = cuboid_cuboid_time_of_impact(
        &at(20, 0),
        &v2(0, 0),
        &cuboid(2, 3),
        &at(0, 0),
        &v2(2, 0),
        &cuboid(2, 2),
        None,
        0,
    )
    .unwrap()
    .unwrap();
    assert_eq!(toi.status, ToiStatus::Converged);
    assert_eq!((toi.time_num, toi.time_den), (16, 2));
    assert_eq!(toi.normal, v2(-1, 0));
}

#[test]
fn cuboid_cuboid_toi_already_overlapping() {
    let toi = cuboid_cuboid_time_of_impact(
        &at(0, 0),
        &v2(2, 2),
        &cuboid(1, 1),
        &at(1, 1),
        &v2(-1, 1),
        &cuboid(1, 1),
        None,
        0,
    )
    .unwrap()
    .unwrap();
    assert_eq!(toi.status, ToiStatus::AlreadyPenetrating);
    assert_eq!((toi.time_num, toi.time_den), (0, 1));
}

#[test]
fn cuboid_cuboid_toi_divergent_motion() {
    let toi = cuboid_cuboid_time_of_impact(
        &at(0, 0),
        &v2(0, 0),
        &cuboid(1, 1),
        &at(10, 0),
        &v2(1, 0),
        &cuboid(1, 1),
        None,
        0,
    );
    assert_eq!(toi, Ok(None));
}

#[test]
fn cuboid_cuboid_toi_beyond_horizon() {
    assert_eq!(two_cuboids(Some(5), 0), Ok(None));
    let toi = two_cuboids(Some(8), 0).unwrap().unwrap();
    assert_eq!((toi.time_num, toi.time_den), (16, 2));
}

#[test]
fn cuboid_cuboid_toi_with_target_distance() {
    // The gap of 16 closes to 4 at time 6.
    let toi = two_cuboids(None, 4).unwrap().unwrap();
    assert_eq!(toi.status, ToiStatus::Converged);
    assert_eq!((toi.time_num, toi.time_den), (12, 2));
}

#[test]
fn cuboid_cuboid_toi_fractional_time() {
    // A quarter turn stands the cuboid of half-extents (3, 1) up as (1, 3):
    // the gap is 20 - 2 - 1 = 17, closed at speed 2.
    let quarter = Rotation2 { m00: 0, m01: -1, m10: 1, m11: 0 };
    let toi = cuboid_cuboid_time_of_impact(
        &at(0, 0),
        &v2(2, 0),
        &cuboid(2, 2),
        &Isometry2::new(v2(20, 0), quarter),
        &v2(0, 0),
        &cuboid(3, 1),
        None,
        0,
    )
    .unwrap()
    .unwrap();
    assert_eq!(toi.status, ToiStatus::Converged);
    assert_eq!((toi.time_num, toi.time_den), (17, 2));
}

#[test]
fn cuboid_cuboid_toi_invalid_input() {
    assert_eq!(two_cuboids(None, -1), Err(ToiError::InvalidInput));
    assert_eq!(two_cuboids(Some(-1), 0), Err(ToiError::InvalidInput));
}

#[test]
fn cuboid_cuboid_toi_is_deterministic() {
    assert_eq!(two_cuboids(None, 0), two_cuboids(None, 0));
}
