//! The rigid-body solver: brute-force pair collection of contacts, and the
//! position-based sub-step updates that drive body state.

use crate::body::Body;
use crate::collider::{shape_wf, Collider};
use crate::fixed::{fdiv, fdiv_s, fmul, fmul_s, SCALE};
use crate::rotor::{pose_wf, Pose, ROTOR_TOL, TRANS_LIM};
use crate::shape_shape::{intersection_check, result_wf, ContactResult};
use crate::vec2::{vadd_s, vec_wf, vscale_s, Vec2};
use vstd::prelude::*;

verus! {

/// Bound on a velocity component: a thousand units per second.
pub const VEL_LIM: i64 = 1_000_000_000_000;

/// Bound on a sub-step length: one second.
pub const DT_LIM: i64 = 1_000_000_000;

/// Shortest sub-step: a millisecond.
pub const DT_MIN: i64 = 1_000_000;

/// One entity as the solver sees it: its id, its pose and its collider.
#[derive(Clone, Copy, Debug)]
pub struct ColliderFilter {
    pub id: usize,
    pub pose: Pose,
    pub coll: Collider,
}

/// A contact found between two entities, by their positions in the scanned
/// slice.
#[derive(Clone, Copy, Debug)]
pub struct CollisionEvent {
    pub first: usize,
    pub second: usize,
    pub contacts: ContactResult,
}

/// A well-formed solver item: a near-unit rotor, a bounded translation and
/// a well-formed shape.
pub open spec fn item_wf(it: ColliderFilter) -> bool {
    &&& pose_wf(it.pose, ROTOR_TOL as int, TRANS_LIM as int)
    &&& shape_wf(it.coll.shape)
}

/// The walk over every unordered pair `(i, j)` with `i < j`, from the pair
/// `(i, j)` on, appending an event for each pair whose narrow-phase check
/// finds contact.
#[verifier::opaque]
pub open spec fn pair_scan_s(
    items: Seq<ColliderFilter>,
    i: int,
    j: int,
    acc: Seq<CollisionEvent>,
) -> Seq<CollisionEvent>
    decreases items.len() - i, items.len() - j,
{
    if i < 0 || j <= i || i >= items.len() {
        acc
    } else if j >= items.len() {
        pair_scan_s(items, i + 1, i + 2, acc)
    } else {
        let c = crate::shape_shape::intersection_check_s(
            [items[i].pose, items[j].pose],
            [items[i].coll.shape, items[j].coll.shape],
        );
        let acc2 = if c is Zero {
            acc
        } else {
            acc.push(CollisionEvent { first: i as usize, second: j as usize, contacts: c })
        };
        pair_scan_s(items, i, j + 1, acc2)
    }
}

/// The brute-force narrow-phase pass over every unordered pair.
pub struct RigidBodySolver;

impl RigidBodySolver {
    /// Check every unordered pair of items for contact and collect the hits:
    /// each event carries a non-empty, well-formed contact set for a pair
    /// `(first, second)` with `first < second`, and events come out in the
    /// order the pairs were scanned.
    pub fn run_system(self, items: &Vec<ColliderFilter>) -> (events: Vec<CollisionEvent>)
        requires
            forall|i: int| 0 <= i < items@.len() ==> item_wf(#[trigger] items@[i]),
        ensures
            events@ == pair_scan_s(items@, 0, 1, Seq::<CollisionEvent>::empty()),
            forall|k: int|
                0 <= k < events@.len() ==> {
                    let e = #[trigger] events@[k];
                    &&& e.first < e.second < items@.len()
                    &&& !(e.contacts is Zero)
                    &&& result_wf(e.contacts)
                },
            forall|k1: int, k2: int|
                0 <= k1 < k2 < events@.len() ==> (#[trigger] events@[k1]).first <= (
                #[trigger] events@[k2]).first,
    {
        proof {
            reveal(pair_scan_s);
        }
        let mut events: Vec<CollisionEvent> = Vec::new();
        let n = items.len();
        let mut i: usize = 0;
        while i < n
            invariant
                i <= n,
                pair_scan_s(items@, 0, 1, Seq::<CollisionEvent>::empty()) == pair_scan_s(
                    items@,
                    i as int,
                    i + 1 as int,
                    events@,
                ),
                n == items@.len(),
                forall|q: int| 0 <= q < items@.len() ==> item_wf(#[trigger] items@[q]),
                forall|k: int|
                    0 <= k < events@.len() ==> {
                        let e = #[trigger] events@[k];
                        &&& e.first < e.second < items@.len()
                        &&& !(e.contacts is Zero)
                        &&& result_wf(e.contacts)
                    },
                forall|k: int|
                    0 <= k < events@.len() ==> (#[trigger] events@[k]).first < i,
                forall|k1: int, k2: int|
                    0 <= k1 < k2 < events@.len() ==> (#[trigger] events@[k1]).first <= (
                    #[trigger] events@[k2]).first,
            decreases n - i,
        {
            proof {
                reveal(pair_scan_s);
            }
            let a = items[i];
            let mut j: usize = i + 1;
            while j < n
                invariant
                    i < j <= n || (i + 1 > n && j == i + 1),
                    i < n,
                    n == items@.len(),
                    a == items@[i as int],
                    pair_scan_s(items@, 0, 1, Seq::<CollisionEvent>::empty()) == pair_scan_s(
                        items@,
                        i as int,
                        j as int,
                        events@,
                    ),
                    forall|q: int| 0 <= q < items@.len() ==> item_wf(#[trigger] items@[q]),
                    forall|k: int|
                        0 <= k < events@.len() ==> {
                            let e = #[trigger] events@[k];
                            &&& e.first < e.second < items@.len()
                            &&& !(e.contacts is Zero)
                            &&& result_wf(e.contacts)
                        },
                    forall|k: int|
                        0 <= k < events@.len() ==> (#[trigger] events@[k]).first <= i,
                    forall|k1: int, k2: int|
                        0 <= k1 < k2 < events@.len() ==> (#[trigger] events@[k1]).first <= (
                        #[trigger] events@[k2]).first,
                decreases n - j,
            {
                let b = items[j];
                let contacts = intersection_check([a.pose, b.pose], [a.coll.shape, b.coll.shape]);
                proof {
                    reveal(pair_scan_s);
                }
                if !contacts.is_zero() {
                    events.push(CollisionEvent { first: i, second: j, contacts });
                }
                j += 1;
            }
            proof {
                reveal(pair_scan_s);
            }
            i += 1;
        }
        proof {
            reveal(pair_scan_s);
        }
        events
    }
}

/// One sub-step position prediction for a body that sees forces: the
/// velocity gains `dt_s * gravity` unless the body ignores gravity, and the
/// translation advances by `dt_s` times the new velocity. The pose before
/// the step comes back for the velocity recomputation after the solve.
pub fn predict_pose(body: &mut Body, gravity: Vec2, dt_s: i64) -> (prev_pose: Pose)
    requires
        DT_MIN <= dt_s <= DT_LIM,
        -VEL_LIM <= old(body).velocity.linear.x <= VEL_LIM,
        -VEL_LIM <= old(body).velocity.linear.y <= VEL_LIM,
        -VEL_LIM <= gravity.x <= VEL_LIM,
        -VEL_LIM <= gravity.y <= VEL_LIM,
        -TRANS_LIM <= old(body).pose.translation.x <= TRANS_LIM,
        -TRANS_LIM <= old(body).pose.translation.y <= TRANS_LIM,
    ensures
        prev_pose == old(body).pose,
        ({
            let v1 = if old(body).sees_forces_s() && !old(body).ignores_gravity {
                vadd_s(old(body).velocity.linear, vscale_s(dt_s as int, gravity))
            } else {
                old(body).velocity.linear
            };
            &&& final(body).velocity.linear == v1
            &&& final(body).pose.translation == vadd_s(
                old(body).pose.translation,
                vscale_s(dt_s as int, v1),
            )
        }),
        final(body).pose.rotation == old(body).pose.rotation,
        final(body).velocity.angular == old(body).velocity.angular,
        final(body).mass == old(body).mass,
        final(body).moment_of_inertia == old(body).moment_of_inertia,
        final(body).ignores_gravity == old(body).ignores_gravity,
{
    let prev_pose = body.pose;
    if body.sees_forces() && !body.ignores_gravity {
        proof {
            lemma_step_term(dt_s as int, gravity.x as int);
            lemma_step_term(dt_s as int, gravity.y as int);
        }
        let dv = Vec2 { x: fmul(dt_s, gravity.x), y: fmul(dt_s, gravity.y) };
        proof {
            assert(dv == vscale_s(dt_s as int, gravity));
        }
        body.velocity.linear = body.velocity.linear.add(dv);
    }
    proof {
        lemma_step_term(dt_s as int, body.velocity.linear.x as int);
        lemma_step_term(dt_s as int, body.velocity.linear.y as int);
    }
    let dp = Vec2 {
        x: fmul(dt_s, body.velocity.linear.x),
        y: fmul(dt_s, body.velocity.linear.y),
    };
    proof {
        assert(dp == vscale_s(dt_s as int, body.velocity.linear));
    }
    body.pose.translation = body.pose.translation.add(dp);
    prev_pose
}

/// A sub-step no longer than a second times a rate moves a coordinate by
/// at most the rate itself.
proof fn lemma_step_term(dt: int, v: int)
    requires
        0 < dt <= DT_LIM,
        -3 * VEL_LIM <= v <= 3 * VEL_LIM,
    ensures
        -crate::fixed::FMUL_PROD_LIM <= dt * v <= crate::fixed::FMUL_PROD_LIM,
        -crate::fixed::abs_s(v) - 1 <= fmul_s(dt, v) <= crate::fixed::abs_s(v),
{
    let s = SCALE as int;
    let a = crate::fixed::abs_s(v);
    assert(-(a * s) <= dt * v <= a * s && a * s <= crate::fixed::FMUL_PROD_LIM)
        by (nonlinear_arith)
        requires
            0 < dt <= DT_LIM,
            -3 * VEL_LIM <= v <= 3 * VEL_LIM,
            a == if v >= 0 {
                v
            } else {
                -v
            },
            DT_LIM == 1_000_000_000i64,
            VEL_LIM == 1_000_000_000_000i64,
            s == 1_000_000_000int,
            crate::fixed::FMUL_PROD_LIM == 9_000_000_000_000_000_000_000_000_000i128,
    ;
    crate::fixed::lemma_div_in_range(dt * v, a * s, s);
    assert((a * s) / s == a) by (nonlinear_arith)
        requires
            0 <= a,
            s == 1_000_000_000int,
    ;
}

/// After the positional solve, a body's velocity is recomputed as exactly
/// the pose difference over the sub-step: `v == (pose - prev_pose) / dt_s`,
/// componentwise and exactly.
pub fn recompute_velocity(body: &mut Body, prev_pose: Pose, dt_s: i64)
    requires
        DT_MIN <= dt_s <= DT_LIM,
        -4 * TRANS_LIM <= old(body).pose.translation.x <= 4 * TRANS_LIM,
        -4 * TRANS_LIM <= old(body).pose.translation.y <= 4 * TRANS_LIM,
        -4 * TRANS_LIM <= prev_pose.translation.x <= 4 * TRANS_LIM,
        -4 * TRANS_LIM <= prev_pose.translation.y <= 4 * TRANS_LIM,
    ensures
        final(body).velocity.linear.x == fdiv_s(
            old(body).pose.translation.x - prev_pose.translation.x,
            dt_s as int,
        ),
        final(body).velocity.linear.y == fdiv_s(
            old(body).pose.translation.y - prev_pose.translation.y,
            dt_s as int,
        ),
        final(body).pose == old(body).pose,
        final(body).velocity.angular == old(body).velocity.angular,
        final(body).mass == old(body).mass,
        final(body).moment_of_inertia == old(body).moment_of_inertia,
        final(body).ignores_gravity == old(body).ignores_gravity,
{
    let dx = body.pose.translation.x - prev_pose.translation.x;
    let dy = body.pose.translation.y - prev_pose.translation.y;
    proof {
        lemma_recompute_term(dx as int, dt_s as int);
        lemma_recompute_term(dy as int, dt_s as int);
    }
    body.velocity.linear = Vec2 { x: fdiv(dx, dt_s), y: fdiv(dy, dt_s) };
}

/// The recomputed velocity fits the scalar range.
proof fn lemma_recompute_term(d: int, dt: int)
    requires
        DT_MIN <= dt <= DT_LIM,
        -8 * TRANS_LIM <= d <= 8 * TRANS_LIM,
    ensures
        i64::MIN <= fdiv_s(d, dt) <= i64::MAX,
{
    let s = SCALE as int;
    let bound = 8 * (TRANS_LIM as int) * s;
    assert(-bound <= d * s <= bound && 0 <= bound) by (nonlinear_arith)
        requires
            -8 * TRANS_LIM <= d <= 8 * TRANS_LIM,
            bound == 8 * (TRANS_LIM as int) * s,
            s == 1_000_000_000int,
            TRANS_LIM == 1_000_000_000_000i64,
    ;
    crate::fixed::lemma_div_in_range(d * s, bound, dt);
    vstd::arithmetic::div_mod::lemma_div_pos_is_pos(bound, dt);
    vstd::arithmetic::div_mod::lemma_fundamental_div_mod(bound, dt);
    vstd::arithmetic::div_mod::lemma_mod_bound(bound, dt);
    assert(bound / dt <= 9_000_000_000_000_000int) by (nonlinear_arith)
        requires
            bound == dt * (bound / dt) + bound % dt,
            0 <= bound % dt,
            DT_MIN <= dt,
            0 <= bound / dt,
            bound == 8 * (TRANS_LIM as int) * s,
            s == 1_000_000_000int,
            TRANS_LIM == 1_000_000_000_000i64,
            DT_MIN == 1_000_000i64,
    ;
}

} // verus!
