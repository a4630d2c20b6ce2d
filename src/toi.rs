//! Time of impact of two cuboids of the plane moving at constant velocity
//! with fixed orientation, by conservative advancement.
//!
//! Rotations map coordinate axes to coordinate axes, so the faces of both
//! cuboids are normal to `±x` or `±y` in the world frame and these four axes
//! decide whether the cuboids are apart. Along each of them the separation is
//! an affine function of time with integer coefficients, so every time the
//! solver steps to is an exact fraction `num / den`.
use vstd::prelude::*;
use crate::math::{abs, bounded2, dot2, lemma_mul_bound, neg2, sub2, Isometry2, Vector2, COORD_BOUND, Pt2};
use crate::shape::{cuboid_support2, Cuboid2};

verus! {

/// Number of advancement steps after which the solver gives up.
pub const MAX_ITERATIONS: usize = 50;

/// How the solver ended.
#[derive(Clone, Copy, Debug, PartialEq, Eq, Structural)]
pub enum ToiStatus {
    /// A first contact time was found.
    Converged,
    /// The cuboids are within the target distance at time 0.
    AlreadyPenetrating,
    /// The step budget ran out; the time reported is a lower bound. Each step
    /// closes one of the four axes for good, so two cuboids never end here.
    OutOfIterations,
}

/// Rejected input.
#[derive(Clone, Copy, Debug, PartialEq, Eq, Structural)]
pub enum ToiError {
    /// A negative horizon or a negative target distance.
    InvalidInput,
}

/// A contact event: at time `time_num / time_den`, along the world axis
/// `normal` pointing from cuboid 1 toward cuboid 2, with the local support
/// points of both cuboids along it.
#[derive(Clone, Copy, Debug, PartialEq, Eq, Structural)]
pub struct Toi {
    pub time_num: i64,
    pub time_den: i64,
    pub normal: Vector2,
    pub witness1: Vector2,
    pub witness2: Vector2,
    pub status: ToiStatus,
}

/// The four world axes, in the order they are tested.
pub open spec fn toi_axis(i: int) -> Pt2 {
    if i == 0 {
        (1, 0)
    } else if i == 1 {
        (-1, 0)
    } else if i == 2 {
        (0, 1)
    } else {
        (0, -1)
    }
}

/// Separation at time 0 along `n` of cuboid 1 at `pos1` and cuboid 2 at `pos2`.
pub open spec fn pair_separation(pos1: Isometry2, c1: Cuboid2, pos2: Isometry2, c2: Cuboid2, n: Pt2) -> int {
    let p1 = pos1.apply_point(cuboid_support2(c1.half_extents@, pos1.rotation.apply_transpose(n)));
    let p2 = pos2.apply_point(cuboid_support2(c2.half_extents@, pos2.rotation.apply_transpose(neg2(n))));
    dot2(sub2(p2, p1), n)
}

/// Rate at which the separation along `n` grows.
pub open spec fn pair_rate(vel1: Vector2, vel2: Vector2, n: Pt2) -> int {
    dot2(sub2(vel2@, vel1@), n)
}

/// At time `p / q` (`q > 0`) the separation along axis `i` exceeds `d`.
pub open spec fn clear_along(nums: Seq<int>, rates: Seq<int>, d: int, i: int, p: int, q: int) -> bool {
    q * nums[i] + p * rates[i] > q * d
}

/// At time `p / q` some axis shows the cuboids farther apart than `d`.
pub open spec fn separated_at(nums: Seq<int>, rates: Seq<int>, d: int, p: int, q: int) -> bool {
    clear_along(nums, rates, d, 0, p, q) || clear_along(nums, rates, d, 1, p, q)
        || clear_along(nums, rates, d, 2, p, q) || clear_along(nums, rates, d, 3, p, q)
}

pub open spec fn pair_nums(pos1: Isometry2, c1: Cuboid2, pos2: Isometry2, c2: Cuboid2) -> Seq<int> {
    seq![
        pair_separation(pos1, c1, pos2, c2, toi_axis(0)),
        pair_separation(pos1, c1, pos2, c2, toi_axis(1)),
        pair_separation(pos1, c1, pos2, c2, toi_axis(2)),
        pair_separation(pos1, c1, pos2, c2, toi_axis(3)),
    ]
}

pub open spec fn pair_rates(vel1: Vector2, vel2: Vector2) -> Seq<int> {
    seq![
        pair_rate(vel1, vel2, toi_axis(0)),
        pair_rate(vel1, vel2, toi_axis(1)),
        pair_rate(vel1, vel2, toi_axis(2)),
        pair_rate(vel1, vel2, toi_axis(3)),
    ]
}

/// `p / q <= m`, or no horizon.
pub open spec fn within_horizon(max_time: Option<i64>, p: int, q: int) -> bool {
    match max_time {
        Some(m) => p <= m * q,
        None => true,
    }
}

/// Every time before `p / q` (from 0 on) shows the cuboids apart.
pub open spec fn apart_before(nums: Seq<int>, rates: Seq<int>, d: int, p: int, q: int) -> bool {
    forall|p1: int, q1: int| q1 > 0 && p1 >= 0 && p1 * q < p * q1 ==> #[trigger] separated_at(nums, rates, d, p1, q1)
}

/// Bounds on the data of a cuboid pair that keep the solver's arithmetic exact.
pub open spec fn pair_data_bounded(nums: Seq<int>, rates: Seq<int>) -> bool {
    &&& nums.len() == 4 && rates.len() == 4
    &&& forall|j: int| 0 <= j < 4 ==> abs(#[trigger] nums[j]) <= 0x2_0000
    &&& forall|j: int| 0 <= j < 4 ==> abs(#[trigger] rates[j]) <= 0x4000
}

/// What a contact event promises: its time is in the horizon, the cuboids
/// are apart at every earlier time, they touch at that time unless the step
/// budget ran out, the status says whether they touched at time 0, and the
/// normal and witness points are those of one of the four axes.
pub open spec fn toi_event_holds(
    toi: Toi,
    nums: Seq<int>,
    rates: Seq<int>,
    d: int,
    max_time: Option<i64>,
    pos1: Isometry2,
    c1: Cuboid2,
    pos2: Isometry2,
    c2: Cuboid2,
) -> bool {
    &&& toi.time_den > 0 && toi.time_num >= 0
    &&& within_horizon(max_time, toi.time_num as int, toi.time_den as int)
    &&& apart_before(nums, rates, d, toi.time_num as int, toi.time_den as int)
    &&& (toi.status == ToiStatus::AlreadyPenetrating <==> !separated_at(nums, rates, d, 0, 1))
    &&& (toi.status == ToiStatus::AlreadyPenetrating ==> toi.time_num == 0 && toi.time_den == 1)
    &&& (toi.status != ToiStatus::OutOfIterations ==> !separated_at(nums, rates, d, toi.time_num as int, toi.time_den as int))
    &&& exists|i: int| 0 <= i < 4 && toi.normal@ == #[trigger] toi_axis(i)
    &&& toi.witness1@ == cuboid_support2(c1.half_extents@, pos1.rotation.apply_transpose(toi.normal@))
    &&& toi.witness2@ == cuboid_support2(c2.half_extents@, pos2.rotation.apply_transpose(neg2(toi.normal@)))
}

/// The axis with the largest separation at time `p / q`, the first on a tie,
/// with `q` times that separation.
fn best_axis_at(nums: &Vec<i64>, rates: &Vec<i64>, p: i64, q: i64) -> (r: (usize, i64))
    requires
        pair_data_bounded(nums@.map_values(|x: i64| x as int), rates@.map_values(|x: i64| x as int)),
        0 <= p <= 0x4_0000,
        0 < q <= 0x4000,
    ensures
        r.0 < 4,
        r.1 == q * nums@[r.0 as int] + p * rates@[r.0 as int],
        forall|j: int| 0 <= j < 4 ==> q * nums@[j] + p * rates@[j] <= r.1,
{
    let ghost ns = nums@.map_values(|x: i64| x as int);
    let ghost rs = rates@.map_values(|x: i64| x as int);
    assert(nums.len() == 4 && rates.len() == 4) by {
        assert(ns.len() == nums.len());
    }
    let mut best: usize = 0;
    proof {
        assert(ns[0] == nums@[0] as int && rs[0] == rates@[0] as int);
        lemma_mul_bound(q as int, nums@[0] as int, 0x4000, 0x2_0000);
        lemma_mul_bound(p as int, rates@[0] as int, 0x4_0000, 0x4000);
    }
    let mut best_val: i64 = q * nums[0] + p * rates[0];
    let mut i: usize = 1;
    while i < 4
        invariant
            1 <= i <= 4,
            nums.len() == 4 && rates.len() == 4,
            ns == nums@.map_values(|x: i64| x as int),
            rs == rates@.map_values(|x: i64| x as int),
            pair_data_bounded(ns, rs),
            0 <= p <= 0x4_0000,
            0 < q <= 0x4000,
            best < 4,
            best_val == q * nums@[best as int] + p * rates@[best as int],
            forall|j: int| 0 <= j < i ==> q * nums@[j] + p * rates@[j] <= best_val,
        decreases 4 - i,
    {
        proof {
            assert(ns[i as int] == nums@[i as int] as int && rs[i as int] == rates@[i as int] as int);
            lemma_mul_bound(q as int, nums@[i as int] as int, 0x4000, 0x2_0000);
            lemma_mul_bound(p as int, rates@[i as int] as int, 0x4_0000, 0x4000);
        }
        let v = q * nums[i] + p * rates[i];
        if v > best_val {
            best = i;
            best_val = v;
        }
        i = i + 1;
    }
    (best, best_val)
}

/// Along an axis that is closing, every time before the one at which its
/// separation reaches `d` shows the cuboids apart.
proof fn lemma_apart_before_root(nums: Seq<int>, rates: Seq<int>, d: int, k: int)
    requires
        0 <= k < 4,
        rates[k] < 0,
    ensures
        apart_before(nums, rates, d, nums[k] - d, -rates[k]),
{
    assert forall|p1: int, q1: int| q1 > 0 && p1 >= 0 && p1 * (-rates[k]) < (nums[k] - d) * q1
        implies #[trigger] separated_at(nums, rates, d, p1, q1) by {
        assert(q1 * nums[k] + p1 * rates[k] > q1 * d) by (nonlinear_arith)
            requires
                p1 * (-rates[k]) < (nums[k] - d) * q1,
        ;
        assert(clear_along(nums, rates, d, k, p1, q1));
    }
}

/// Along an axis that is apart at time `p / q` and not closing, every later
/// time shows the cuboids apart too.
proof fn lemma_apart_after(nums: Seq<int>, rates: Seq<int>, d: int, k: int, p: int, q: int, p1: int, q1: int)
    requires
        0 <= k < 4,
        rates[k] >= 0,
        q > 0,
        q1 > 0,
        q * nums[k] + p * rates[k] > q * d,
        p1 * q >= p * q1,
    ensures
        separated_at(nums, rates, d, p1, q1),
{
    let w = rates[k];
    let n = nums[k];
    assert(q1 * n + p1 * w > q1 * d) by (nonlinear_arith)
        requires
            w >= 0,
            q > 0,
            q1 > 0,
            q * n + p * w > q * d,
            p1 * q >= p * q1,
    {
        assert(p1 * q * w >= p * q1 * w);
        assert(q * (q1 * n + p1 * w) >= q1 * (q * n + p * w));
        assert(q1 * (q * n + p * w) > q1 * (q * d));
    }
    assert(clear_along(nums, rates, d, k, p1, q1));
}

proof fn lemma_swap_axis(pos1: Isometry2, c1: Cuboid2, vel1: Vector2, pos2: Isometry2, c2: Cuboid2, vel2: Vector2, i: int, j: int)
    requires
        toi_axis(j) == neg2(toi_axis(i)),
    ensures
        pair_separation(pos1, c1, pos2, c2, toi_axis(i)) == pair_separation(pos2, c2, pos1, c1, toi_axis(j)),
        pair_rate(vel1, vel2, toi_axis(i)) == pair_rate(vel2, vel1, toi_axis(j)),
{
    let n = toi_axis(i);
    assert(neg2(toi_axis(j)) == n);
    let p1 = pos1.apply_point(cuboid_support2(c1.half_extents@, pos1.rotation.apply_transpose(n)));
    let p2 = pos2.apply_point(cuboid_support2(c2.half_extents@, pos2.rotation.apply_transpose(neg2(n))));
    assert(dot2(sub2(p2, p1), n) == dot2(sub2(p1, p2), neg2(n))) by (nonlinear_arith);
    assert(dot2(sub2(vel2@, vel1@), n) == dot2(sub2(vel1@, vel2@), neg2(n))) by (nonlinear_arith);
}

/// Swapping the two cuboids (with their poses and velocities) does not change
/// at which times they are apart.
pub proof fn lemma_separated_at_symmetric(
    pos1: Isometry2,
    vel1: Vector2,
    c1: Cuboid2,
    pos2: Isometry2,
    vel2: Vector2,
    c2: Cuboid2,
    d: int,
    p: int,
    q: int,
)
    ensures
        separated_at(pair_nums(pos1, c1, pos2, c2), pair_rates(vel1, vel2), d, p, q)
            == separated_at(pair_nums(pos2, c2, pos1, c1), pair_rates(vel2, vel1), d, p, q),
{
    lemma_swap_axis(pos1, c1, vel1, pos2, c2, vel2, 0, 1);
    lemma_swap_axis(pos1, c1, vel1, pos2, c2, vel2, 1, 0);
    lemma_swap_axis(pos1, c1, vel1, pos2, c2, vel2, 2, 3);
    lemma_swap_axis(pos1, c1, vel1, pos2, c2, vel2, 3, 2);
}

/// Swapping the two cuboids (with their poses and velocities) gives the same
/// time of impact: two contact events found for the pair in either order,
/// neither cut short by the step budget, are at the same time.
pub proof fn lemma_time_of_impact_symmetric(
    pos1: Isometry2,
    vel1: Vector2,
    c1: Cuboid2,
    pos2: Isometry2,
    vel2: Vector2,
    c2: Cuboid2,
    d: int,
    max_time: Option<i64>,
    toi12: Toi,
    toi21: Toi,
)
    requires
        toi_event_holds(toi12, pair_nums(pos1, c1, pos2, c2), pair_rates(vel1, vel2), d, max_time, pos1, c1, pos2, c2),
        toi_event_holds(toi21, pair_nums(pos2, c2, pos1, c1), pair_rates(vel2, vel1), d, max_time, pos2, c2, pos1, c1),
        toi12.status != ToiStatus::OutOfIterations,
        toi21.status != ToiStatus::OutOfIterations,
    ensures
        toi12.time_num * toi21.time_den == toi21.time_num * toi12.time_den,
{
    let n12 = pair_nums(pos1, c1, pos2, c2);
    let r12 = pair_rates(vel1, vel2);
    let n21 = pair_nums(pos2, c2, pos1, c1);
    let r21 = pair_rates(vel2, vel1);
    let (a, b) = (toi12.time_num as int, toi12.time_den as int);
    let (c, e) = (toi21.time_num as int, toi21.time_den as int);
    lemma_separated_at_symmetric(pos1, vel1, c1, pos2, vel2, c2, d, a, b);
    lemma_separated_at_symmetric(pos1, vel1, c1, pos2, vel2, c2, d, c, e);
    if a * e < c * b {
        assert(separated_at(n21, r21, d, a, b));
    } else if c * b < a * e {
        assert(separated_at(n12, r12, d, c, e));
    }
}

/// Axis `i` is closing and, at time `p / q`, no longer shows the cuboids
/// farther apart than `d`: it stays so at every later time.
pub open spec fn closed_along(nums: Seq<int>, rates: Seq<int>, d: int, i: int, p: int, q: int) -> bool {
    rates[i] < 0 && !clear_along(nums, rates, d, i, p, q)
}

pub open spec fn count_closed(nums: Seq<int>, rates: Seq<int>, d: int, p: int, q: int) -> int {
    (if closed_along(nums, rates, d, 0, p, q) { 1int } else { 0int })
        + (if closed_along(nums, rates, d, 1, p, q) { 1int } else { 0int })
        + (if closed_along(nums, rates, d, 2, p, q) { 1int } else { 0int })
        + (if closed_along(nums, rates, d, 3, p, q) { 1int } else { 0int })
}

proof fn lemma_closed_persists(nums: Seq<int>, rates: Seq<int>, d: int, i: int, p: int, q: int, p1: int, q1: int)
    requires
        closed_along(nums, rates, d, i, p, q),
        q > 0,
        q1 > 0,
        p1 * q >= p * q1,
    ensures
        closed_along(nums, rates, d, i, p1, q1),
{
    let w = rates[i];
    let n = nums[i];
    assert(q1 * n + p1 * w <= q1 * d) by (nonlinear_arith)
        requires
            w < 0,
            q > 0,
            q1 > 0,
            q * n + p * w <= q * d,
            p1 * q >= p * q1,
    {
        assert(p1 * q * w <= p * q1 * w);
        assert(q * (q1 * n + p1 * w) <= q1 * (q * n + p * w));
        assert(q1 * (q * n + p * w) <= q1 * (q * d));
    }
}

/// One advancement step, from time `p / q` to the time at which the
/// separation along axis `k` reaches `d`, moves forward and closes axis `k`
/// while keeping every axis closed before closed.
proof fn lemma_step_closes_one_more(nums: Seq<int>, rates: Seq<int>, d: int, k: int, p: int, q: int)
    requires
        0 <= k < 4,
        q > 0,
        rates[k] < 0,
        clear_along(nums, rates, d, k, p, q),
    ensures
        count_closed(nums, rates, d, nums[k] - d, -rates[k]) >= count_closed(nums, rates, d, p, q) + 1,
{
    let p1 = nums[k] - d;
    let q1 = -rates[k];
    assert(p1 * q >= p * q1) by (nonlinear_arith)
        requires
            q * nums[k] + p * rates[k] > q * d,
            p1 == nums[k] - d,
            q1 == -rates[k],
    ;
    assert(q1 * nums[k] + p1 * rates[k] == q1 * d) by (nonlinear_arith)
        requires
            p1 == nums[k] - d,
            q1 == -rates[k],
    ;
    assert(closed_along(nums, rates, d, k, p1, q1));
    assert(!closed_along(nums, rates, d, k, p, q));
    if closed_along(nums, rates, d, 0, p, q) {
        lemma_closed_persists(nums, rates, d, 0, p, q, p1, q1);
    }
    if closed_along(nums, rates, d, 1, p, q) {
        lemma_closed_persists(nums, rates, d, 1, p, q, p1, q1);
    }
    if closed_along(nums, rates, d, 2, p, q) {
        lemma_closed_persists(nums, rates, d, 2, p, q, p1, q1);
    }
    if closed_along(nums, rates, d, 3, p, q) {
        lemma_closed_persists(nums, rates, d, 3, p, q, p1, q1);
    }
}

fn toi_axis_vec(i: usize) -> (r: Vector2)
    requires
        i < 4,
    ensures
        r@ == toi_axis(i as int),
{
    if i == 0 {
        Vector2::new(1, 0)
    } else if i == 1 {
        Vector2::new(-1, 0)
    } else if i == 2 {
        Vector2::new(0, 1)
    } else {
        Vector2::new(0, -1)
    }
}

fn support_pair(pos1: &Isometry2, c1: &Cuboid2, pos2: &Isometry2, c2: &Cuboid2, n: &Vector2) -> (r: (Vector2, Vector2))
    requires
        pos1.wf(),
        pos2.wf(),
        c1.wf(),
        c2.wf(),
        bounded2(n@, 1),
    ensures
        r.0@ == cuboid_support2(c1.half_extents@, pos1.rotation.apply_transpose(n@)),
        r.1@ == cuboid_support2(c2.half_extents@, pos2.rotation.apply_transpose(neg2(n@))),
        bounded2(r.0@, COORD_BOUND as int),
        bounded2(r.1@, COORD_BOUND as int),
{
    let w1 = c1.local_support_point(&pos1.rotation.inverse_rotate(n));
    let w2 = c2.local_support_point(&pos2.rotation.inverse_rotate(&n.neg()));
    (w1, w2)
}

fn axis_separation(pos1: &Isometry2, c1: &Cuboid2, pos2: &Isometry2, c2: &Cuboid2, n: &Vector2) -> (r: i64)
    requires
        pos1.wf(),
        pos2.wf(),
        c1.wf(),
        c2.wf(),
        bounded2(n@, 1),
    ensures
        r as int == pair_separation(*pos1, *c1, *pos2, *c2, n@),
        abs(r as int) <= 0x2_0000,
{
    let (w1, w2) = support_pair(pos1, c1, pos2, c2, n);
    let p1 = pos1.transform_point(&w1);
    let p2 = pos2.transform_point(&w2);
    assert(bounded2(p1@, 20480) && bounded2(p2@, 20480));
    let diff = p2.sub(&p1);
    assert(bounded2(diff@, 40960));
    proof {
        lemma_mul_bound(diff.x as int, n.x as int, 40960, 1);
        lemma_mul_bound(diff.y as int, n.y as int, 40960, 1);
    }
    diff.dot(n)
}

fn make_toi(
    pos1: &Isometry2,
    c1: &Cuboid2,
    pos2: &Isometry2,
    c2: &Cuboid2,
    axis: usize,
    time_num: i64,
    time_den: i64,
    status: ToiStatus,
) -> (r: Toi)
    requires
        pos1.wf(),
        pos2.wf(),
        c1.wf(),
        c2.wf(),
        axis < 4,
    ensures
        r.time_num == time_num && r.time_den == time_den && r.status == status,
        r.normal@ == toi_axis(axis as int),
        r.witness1@ == cuboid_support2(c1.half_extents@, pos1.rotation.apply_transpose(r.normal@)),
        r.witness2@ == cuboid_support2(c2.half_extents@, pos2.rotation.apply_transpose(neg2(r.normal@))),
{
    let normal = toi_axis_vec(axis);
    let (witness1, witness2) = support_pair(pos1, c1, pos2, c2, &normal);
    Toi { time_num, time_den, normal, witness1, witness2, status }
}

/// Time of first contact of two cuboids of the plane moving at constant
/// velocities `vel1` and `vel2` from the world poses `pos1` and `pos2`, with
/// orientations held fixed: the first time at which no world axis shows them
/// more than `target_distance` apart, searched up to `max_time` (no bound
/// where `None`) by conservative advancement.
///
/// `Ok(None)` where they stay apart over the whole horizon; an error for a
/// negative horizon or target distance.
pub fn cuboid_cuboid_time_of_impact(
    pos1: &Isometry2,
    vel1: &Vector2,
    cuboid1: &Cuboid2,
    pos2: &Isometry2,
    vel2: &Vector2,
    cuboid2: &Cuboid2,
    max_time: Option<i64>,
    target_distance: i64,
) -> (r: Result<Option<Toi>, ToiError>)
    requires
        pos1.wf(),
        pos2.wf(),
        cuboid1.wf(),
        cuboid2.wf(),
        bounded2(vel1@, COORD_BOUND as int),
        bounded2(vel2@, COORD_BOUND as int),
        target_distance <= COORD_BOUND,
    ensures
        r.is_err() <==> (target_distance < 0 || (max_time.is_some() && max_time.unwrap() < 0)),
        r == Ok::<Option<Toi>, ToiError>(None) ==> forall|p: int, q: int|
            q > 0 && p >= 0 && within_horizon(max_time, p, q) ==> #[trigger] separated_at(
                pair_nums(*pos1, *cuboid1, *pos2, *cuboid2),
                pair_rates(*vel1, *vel2),
                target_distance as int,
                p,
                q,
            ),
        match r {
            Ok(Some(toi)) => toi.status != ToiStatus::OutOfIterations && toi_event_holds(
                toi,
                pair_nums(*pos1, *cuboid1, *pos2, *cuboid2),
                pair_rates(*vel1, *vel2),
                target_distance as int,
                max_time,
                *pos1,
                *cuboid1,
                *pos2,
                *cuboid2,
            ),
            _ => true,
        },
{
    if target_distance < 0 {
        return Err(ToiError::InvalidInput);
    }
    if let Some(m) = max_time {
        if m < 0 {
            return Err(ToiError::InvalidInput);
        }
    }
    let d = target_distance;
    let ghost nums = pair_nums(*pos1, *cuboid1, *pos2, *cuboid2);
    let ghost rates = pair_rates(*vel1, *vel2);

    let a0 = toi_axis_vec(0);
    let a1 = toi_axis_vec(1);
    let a2 = toi_axis_vec(2);
    let a3 = toi_axis_vec(3);
    let n0 = axis_separation(pos1, cuboid1, pos2, cuboid2, &a0);
    let n1 = axis_separation(pos1, cuboid1, pos2, cuboid2, &a1);
    let n2 = axis_separation(pos1, cuboid1, pos2, cuboid2, &a2);
    let n3 = axis_separation(pos1, cuboid1, pos2, cuboid2, &a3);
    let rel = vel2.sub(vel1);
    assert(bounded2(rel@, 8192));
    let r0 = rel.dot(&a0);
    let r1 = rel.dot(&a1);
    let r2 = rel.dot(&a2);
    let r3 = rel.dot(&a3);
    let num_v = vec![n0, n1, n2, n3];
    let rate_v = vec![r0, r1, r2, r3];
    proof {
        let ns = num_v@.map_values(|x: i64| x as int);
        let rs = rate_v@.map_values(|x: i64| x as int);
        assert(ns =~= nums);
        assert(rs =~= rates);
        assert(rates[0] == dot2(rel@, (1, 0)));
        assert(rates[1] == dot2(rel@, (-1, 0)));
        assert(rates[2] == dot2(rel@, (0, 1)));
        assert(rates[3] == dot2(rel@, (0, -1)));
        assert(dot2(rel@, (1, 0)) == rel.x && dot2(rel@, (-1, 0)) == -rel.x) by (nonlinear_arith);
        assert(dot2(rel@, (0, 1)) == rel.y && dot2(rel@, (0, -1)) == -rel.y) by (nonlinear_arith);
        assert forall|j: int| 0 <= j < 4 implies abs(#[trigger] nums[j]) <= 0x2_0000 by {
            assert(j == 0 || j == 1 || j == 2 || j == 3);
        }
        assert forall|j: int| 0 <= j < 4 implies abs(#[trigger] rates[j]) <= 0x4000 by {
            assert(j == 0 || j == 1 || j == 2 || j == 3);
        }
    }

    let mut tp: i64 = 0;
    let mut tq: i64 = 1;
    let mut iter: usize = 0;
    while iter < MAX_ITERATIONS
        invariant
            num_v@.map_values(|x: i64| x as int) == nums,
            rate_v@.map_values(|x: i64| x as int) == rates,
            pair_data_bounded(nums, rates),
            num_v.len() == 4 && rate_v.len() == 4,
            nums == pair_nums(*pos1, *cuboid1, *pos2, *cuboid2),
            rates == pair_rates(*vel1, *vel2),
            pos1.wf() && pos2.wf() && cuboid1.wf() && cuboid2.wf(),
            0 <= d <= COORD_BOUND,
            d == target_distance,
            max_time.is_some() ==> max_time.unwrap() >= 0,
            0 <= tp <= 0x4_0000,
            0 < tq <= 0x4000,
            iter <= MAX_ITERATIONS,
            iter == 0 ==> tp == 0 && tq == 1,
            iter > 0 ==> separated_at(nums, rates, d as int, 0, 1),
            within_horizon(max_time, tp as int, tq as int),
            apart_before(nums, rates, d as int, tp as int, tq as int),
            iter <= count_closed(nums, rates, d as int, tp as int, tq as int),
        decreases MAX_ITERATIONS - iter,
    {
        let (best, best_val) = best_axis_at(&num_v, &rate_v, tp, tq);
        proof {
            assert(num_v@[best as int] as int == nums[best as int]);
            assert(rate_v@[best as int] as int == rates[best as int]);
            assert forall|j: int| 0 <= j < 4 implies num_v@[j] as int == nums[j] && rate_v@[j] as int == rates[j] by {
                assert(num_v@.map_values(|x: i64| x as int)[j] == num_v@[j] as int);
                assert(rate_v@.map_values(|x: i64| x as int)[j] == rate_v@[j] as int);
            }
            lemma_mul_bound(tq as int, d as int, 0x4000, 4096);
        }
        if best_val <= tq * d {
            proof {
                assert(!clear_along(nums, rates, d as int, 0, tp as int, tq as int));
                assert(!clear_along(nums, rates, d as int, 1, tp as int, tq as int));
                assert(!clear_along(nums, rates, d as int, 2, tp as int, tq as int));
                assert(!clear_along(nums, rates, d as int, 3, tp as int, tq as int));
            }
            let status = if iter == 0 { ToiStatus::AlreadyPenetrating } else { ToiStatus::Converged };
            let toi = make_toi(pos1, cuboid1, pos2, cuboid2, best, tp, tq, status);
            assert(toi.normal@ == toi_axis(best as int));
            return Ok(Some(toi));
        }
        assert(clear_along(nums, rates, d as int, best as int, tp as int, tq as int));
        let w = rate_v[best];
        if w >= 0 {
            proof {
                assert forall|p: int, q: int| q > 0 && p >= 0 && within_horizon(max_time, p, q)
                    implies #[trigger] separated_at(nums, rates, d as int, p, q) by {
                    if p * tq < tp * q {
                    } else {
                        lemma_apart_after(nums, rates, d as int, best as int, tp as int, tq as int, p, q);
                    }
                }
            }
            return Ok(None);
        }
        let np = num_v[best] - d;
        let nq = -w;
        proof {
            lemma_apart_before_root(nums, rates, d as int, best as int);
            lemma_step_closes_one_more(nums, rates, d as int, best as int, tp as int, tq as int);
            let n = nums[best as int];
            let ww = rates[best as int];
            assert(n - d > 0) by (nonlinear_arith)
                requires
                    tq * n + tp * ww > tq * d,
                    ww < 0,
                    tp >= 0,
                    tq > 0,
            ;
        }
        if let Some(m) = max_time {
            proof {
                lemma_mul_bound(m as int, nq as int, 0x7fff_ffff_ffff_ffff, 0x4000);
            }
            if (np as i128) > (m as i128) * (nq as i128) {
                proof {
                    assert forall|p: int, q: int| q > 0 && p >= 0 && within_horizon(max_time, p, q)
                        implies #[trigger] separated_at(nums, rates, d as int, p, q) by {
                        assert(p * nq < np * q) by (nonlinear_arith)
                            requires
                                p <= m * q,
                                np > m * nq,
                                nq > 0,
                                q > 0,
                        ;
                    }
                }
                return Ok(None);
            }
        }
        tp = np;
        tq = nq;
        iter = iter + 1;
    }
    // Each step closes one more of the four axes for good, so the budget is
    // never reached.
    assert(iter <= 4);
    let (best, _) = best_axis_at(&num_v, &rate_v, tp, tq);
    let toi = make_toi(pos1, cuboid1, pos2, cuboid2, best, tp, tq, ToiStatus::OutOfIterations);
    assert(toi.normal@ == toi_axis(best as int));
    Ok(Some(toi))
}

} // verus!
