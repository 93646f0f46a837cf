//! Intersection queries for points and rays against colliders.

use crate::collider::{
    projected_extent_s, separating_axes_s, shape_wf, Collider, ColliderPolygon, SHAPE_LIM,
};
use crate::fixed::{
    abs_s, fdiv_sat, fdiv_sat_s, fmul, fmul_s, iabs, isqrt, lemma_prod_bound, sqrt_floor,
    COORD_LIM, SCALE,
};
use crate::rotor::{pose_inv_s, pose_pt_s, pose_wf, rotate_v_s, Pose, ROTOR_TOL, TRANS_LIM};
use crate::shape_shape::{SupportingEdge, NORMAL_TOL};
use crate::vec2::{dot_s, is_unit, sq_raw_s, vadd_s, vec_wf, vneg_s, vscale_s, vsub_s, UnitVec2,
    Vec2};
use vstd::prelude::*;

verus! {

/// Below this raw slope against an axis a ray counts as parallel to it.
pub const PARALLEL_EPS: i64 = 100_000;

/// A ray: a start point and a unit direction.
#[derive(Clone, Copy, Debug)]
pub struct Ray {
    pub start: Vec2,
    pub dir: UnitVec2,
}

/// A well-formed query ray, possibly already carried into a collider's
/// local frame: a bounded start and a direction near unit length.
pub open spec fn ray_wf(ray: Ray) -> bool {
    &&& abs_s(ray.start.x as int) <= 40_000_000_000_000
    &&& abs_s(ray.start.y as int) <= 40_000_000_000_000
    &&& is_unit(ray.dir.v, RAY_DIR_TOL as int)
}

/// A ray carried through a pose.
pub open spec fn ray_tf_s(p: Pose, ray: Ray) -> Ray {
    Ray {
        start: pose_pt_s(p, ray.start),
        dir: UnitVec2 { v: rotate_v_s(p.rotation, ray.dir.v) },
    }
}

impl Ray {
    /// The point reached by travelling `t` units along the ray.
    pub fn point_at_t(&self, t: i64) -> (r: Vec2)
        requires
            ray_wf(*self),
            -COORD_LIM <= t <= COORD_LIM,
            -i64::MAX <= self.start.x + 3 * abs_s(t as int) + 1 <= i64::MAX,
        ensures
            r == vadd_s(self.start, vscale_s(t as int, self.dir.v)),
    {
        self.start.add(self.dir.v.scaled(t))
    }

    /// Mirror by the x axis: flip the y values. An exact operation that
    /// keeps the direction's unit band.
    pub fn mirrored_by_x(self) -> (r: Ray)
        requires
            self.start.y > i64::MIN,
            self.dir.v.y > i64::MIN,
        ensures
            r.start.x == self.start.x,
            r.start.y == -self.start.y,
            r.dir.v.x == self.dir.v.x,
            r.dir.v.y == -self.dir.v.y,
            forall|tol: int| is_unit(self.dir.v, tol) ==> is_unit(r.dir.v, tol),
    {
        let r = Ray {
            start: Vec2 { x: self.start.x, y: -self.start.y },
            dir: UnitVec2 { v: Vec2 { x: self.dir.v.x, y: -self.dir.v.y } },
        };
        proof {
            assert forall|tol: int| is_unit(self.dir.v, tol) implies is_unit(r.dir.v, tol) by {
                assert(r.dir.v.y * r.dir.v.y == self.dir.v.y * self.dir.v.y) by (nonlinear_arith)
                    requires
                        r.dir.v.y == -self.dir.v.y,
                ;
            }
        }
        r
    }

    /// Mirror by the y axis: flip the x values. An exact operation that
    /// keeps the direction's unit band.
    pub fn mirrored_by_y(self) -> (r: Ray)
        requires
            self.start.x > i64::MIN,
            self.dir.v.x > i64::MIN,
        ensures
            r.start.x == -self.start.x,
            r.start.y == self.start.y,
            r.dir.v.x == -self.dir.v.x,
            r.dir.v.y == self.dir.v.y,
            forall|tol: int| is_unit(self.dir.v, tol) ==> is_unit(r.dir.v, tol),
    {
        let r = Ray {
            start: Vec2 { x: -self.start.x, y: self.start.y },
            dir: UnitVec2 { v: Vec2 { x: -self.dir.v.x, y: self.dir.v.y } },
        };
        proof {
            assert forall|tol: int| is_unit(self.dir.v, tol) implies is_unit(r.dir.v, tol) by {
                assert(r.dir.v.x * r.dir.v.x == self.dir.v.x * self.dir.v.x) by (nonlinear_arith)
                    requires
                        r.dir.v.x == -self.dir.v.x,
                ;
            }
        }
        r
    }

    /// Carry the ray through a pose.
    pub fn transformed(self, pose: Pose) -> (r: Ray)
        requires
            -2 * SCALE <= pose.rotation.c <= 2 * SCALE,
            -2 * SCALE <= pose.rotation.s <= 2 * SCALE,
            vec_wf(self.start),
            vec_wf(pose.translation),
            vec_wf(self.dir.v),
        ensures
            r == ray_tf_s(pose, self),
            abs_s(r.start.x as int) <= 2 * abs_s(self.start.x as int) + 2 * abs_s(
                self.start.y as int,
            ) + 2 + abs_s(pose.translation.x as int),
            abs_s(r.start.y as int) <= 2 * abs_s(self.start.x as int) + 2 * abs_s(
                self.start.y as int,
            ) + 2 + abs_s(pose.translation.y as int),
    {
        Ray {
            start: pose.transform_point(self.start),
            dir: UnitVec2 { v: pose.rotation.rotate(self.dir.v) },
        }
    }
}

/// What `ray_circle` returns: the nearer root of the ray-circle quadratic
/// when the ray starts outside the circle and meets it ahead of its start;
/// a ray starting inside or on the circle misses by convention.
pub open spec fn ray_circle_s(ray: Ray, circ_pos: Vec2, r: i64) -> Option<i64> {
    let m = vsub_s(ray.start, circ_pos);
    let b = dot_s(m, ray.dir.v);
    let c = sq_raw_s(m) - r * r;
    if c < 0 {
        // strictly inside the circle: a miss by convention
        Option::None
    } else if b > 0 && c > 0 {
        // moving away with the start outside
        Option::None
    } else {
        let discr = b * b - c;
        if discr < 0 {
            Option::None
        } else {
            let t = -b - sqrt_floor(discr);
            if t >= 0 {
                Option::Some(t as i64)
            } else {
                Option::None
            }
        }
    }
}

/// Find the `t` at which the ray first meets the circle of radius `r` at
/// `circ_pos`; see `ray_circle_s`. A ray that starts strictly inside any
/// circle always misses.
pub fn ray_circle(ray: Ray, circ_pos: Vec2, r: i64) -> (res: Option<i64>)
    requires
        ray_wf(ray),
        vec_wf(circ_pos),
        abs_s(circ_pos.x as int) <= 4_000_000_000_000,
        abs_s(circ_pos.y as int) <= 4_000_000_000_000,
        0 <= r <= SHAPE_LIM,
    ensures
        res == ray_circle_s(ray, circ_pos, r),
{
    // Real-Time Collision Detection, chapter 5: solve
    // t^2 + 2 (m . d) t + (m . m) - r^2 == 0
    let m = ray.start.sub(circ_pos);
    proof {
        crate::vec2::lemma_scaled_term(m.x as int, ray.dir.v.x as int);
        crate::vec2::lemma_scaled_term(m.y as int, ray.dir.v.y as int);
    }
    let b = m.dot(ray.dir.v);
    proof {
        lemma_prod_bound(r as int, r as int, SHAPE_LIM as int, SHAPE_LIM as int);
        crate::vec2::lemma_sq_raw_in_lim(m);
        lemma_prod_bound(
            b as int,
            b as int,
            420_000_000_000_000int,
            420_000_000_000_000int,
        );
    }
    let c: i128 = m.mag_sq_raw() - (r as i128) * (r as i128);
    if c < 0 {
        // started strictly inside the circle: a miss by convention
        return None;
    }
    if b > 0 && c > 0 {
        return None;
    }
    let discr: i128 = (b as i128) * (b as i128) - c;
    if discr < 0 {
        return None;
    }
    let s = isqrt(discr);
    proof {
        assert(s <= 450_000_000_000_000int) by (nonlinear_arith)
            requires
                0 <= s,
                (s as int) * (s as int) <= discr as int,
                discr as int <= 176_400_000_000_000_000_000_000_000_000int,
        ;
    }
    let t = -b - s;
    if t >= 0 {
        Some(t)
    } else {
        None
    }
}

/// A ray that starts strictly inside a circle always misses it: the
/// convention every query of this module follows.
pub proof fn lemma_ray_inside_circle_misses(ray: Ray, circ_pos: Vec2, r: i64)
    requires
        sq_raw_s(vsub_s(ray.start, circ_pos)) < r * r,
    ensures
        ray_circle_s(ray, circ_pos, r) is None,
{
}

/// What `point_collider_bool` returns: whether the point, carried into the
/// collider's frame, lies within the polygon inflated by the circle radius.
/// The distance to the polygon is measured with the outside gaps clamped at
/// zero, so a point straight above a face sees only its gap to that face.
pub open spec fn point_collider_s(point: Vec2, pose: Pose, coll: Collider) -> bool {
    let p = pose_pt_s(pose_inv_s(pose), point);
    let r = coll.shape.circle_r;
    match coll.shape.polygon {
        ColliderPolygon::Point => sq_raw_s(p) < r * r,
        ColliderPolygon::LineSegment { hl } => {
            let xd = if abs_s(p.x as int) - hl >= 0 {
                abs_s(p.x as int) - hl
            } else {
                0
            };
            let yd = abs_s(p.y as int);
            xd * xd + yd * yd < r * r
        },
        ColliderPolygon::Rect { hw, hh } => {
            let xd = abs_s(p.x as int) - hw;
            let yd = abs_s(p.y as int) - hh;
            let xc = if xd >= 0 {
                xd
            } else {
                0
            };
            let yc = if yd >= 0 {
                yd
            } else {
                0
            };
            (xd <= 0 && yd <= 0) || xc * xc + yc * yc < r * r
        },
    }
}

/// Check whether a point intersects a collider; see `point_collider_s`.
pub fn point_collider_bool(point: Vec2, pose: Pose, coll: Collider) -> (res: bool)
    requires
        pose_wf(pose, ROTOR_TOL as int, TRANS_LIM as int),
        shape_wf(coll.shape),
        abs_s(point.x as int) <= TRANS_LIM,
        abs_s(point.y as int) <= TRANS_LIM,
    ensures
        res == point_collider_s(point, pose, coll),
{
    let r = coll.shape.circle_r;
    let p_wrt_c = pose.inversed().transform_point(point);
    proof {
        lemma_prod_bound(r as int, r as int, SHAPE_LIM as int, SHAPE_LIM as int);
    }
    let r_sq: i128 = (r as i128) * (r as i128);
    match coll.shape.polygon {
        ColliderPolygon::Point => {
            let d = p_wrt_c.mag_sq_raw();
            d < r_sq
        },
        ColliderPolygon::LineSegment { hl } => {
            let xg = iabs(p_wrt_c.x) - hl;
            let x_dist: i64 = if xg >= 0 {
                xg
            } else {
                0
            };
            let y_dist = iabs(p_wrt_c.y);
            proof {
                lemma_prod_bound(
                    x_dist as int,
                    x_dist as int,
                    20_000_000_000_000int,
                    20_000_000_000_000int,
                );
                lemma_prod_bound(
                    y_dist as int,
                    y_dist as int,
                    20_000_000_000_000int,
                    20_000_000_000_000int,
                );
            }
            let d: i128 = (x_dist as i128) * (x_dist as i128) + (y_dist as i128) * (
            y_dist as i128);
            d < r_sq
        },
        ColliderPolygon::Rect { hw, hh } => {
            let xd = iabs(p_wrt_c.x) - hw;
            let yd = iabs(p_wrt_c.y) - hh;
            if xd <= 0 && yd <= 0 {
                true
            } else {
                let xc: i64 = if xd >= 0 {
                    xd
                } else {
                    0
                };
                let yc: i64 = if yd >= 0 {
                    yd
                } else {
                    0
                };
                proof {
                    lemma_prod_bound(
                        xc as int,
                        xc as int,
                        20_000_000_000_000int,
                        20_000_000_000_000int,
                    );
                    lemma_prod_bound(
                        yc as int,
                        yc as int,
                        20_000_000_000_000int,
                        20_000_000_000_000int,
                    );
                }
                let d: i128 = (xc as i128) * (xc as i128) + (yc as i128) * (yc as i128);
                d < r_sq
            }
        },
    }
}

/// A ray that runs along a capsule from strictly inside its slab misses it:
/// the same convention as for circles, on the capsule's parallel branch.
pub proof fn lemma_ray_inside_capsule_slab_misses(ray: Ray, hl: i64, r: i64)
    requires
        abs_s(ray.dir.v.y as int) < PARALLEL_EPS,
        abs_s(ray.start.y as int) < r,
        abs_s(ray.start.x as int) < hl,
    ensures
        ray_seg_s(ray, hl, r) is None,
{
}

/// Parameters beyond this distance along a ray count as misses: the far
/// guard that keeps near-parallel quotients inside the world.
pub const RAY_T_MAX: i64 = 100_000_000_000_000;

/// Tolerance of a ray direction that has been carried through one pose.
pub const RAY_DIR_TOL: i64 = 5_400_000_000_000;

/// The capsule branch of `ray_collider`, in the collider's local frame: a
/// ray nearly parallel to the segment tests the facing cap; otherwise the
/// facing flat side is hit, or the cap on the side where it was missed. A
/// ray starting inside, or aimed beyond the far guard, misses.
pub open spec fn ray_seg_s(ray: Ray, hl: i64, r: i64) -> Option<i64> {
    if abs_s(ray.dir.v.y as int) < PARALLEL_EPS {
        if abs_s(ray.start.y as int) >= r || abs_s(ray.start.x as int) < hl {
            Option::None
        } else {
            ray_circle_s(
                ray,
                Vec2 { x: if ray.start.x >= 0 { hl } else { (-hl) as i64 }, y: 0i64 },
                r,
            )
        }
    } else {
        let fey: i64 = if ray.dir.v.y < 0 {
            r
        } else {
            (-r) as i64
        };
        let t = fdiv_sat_s(fey - ray.start.y, ray.dir.v.y as int);
        if t < 0 || t > RAY_T_MAX {
            Option::None
        } else {
            let x_at = ray.start.x + fmul_s(t, ray.dir.v.x as int);
            if abs_s(x_at) <= hl {
                Option::Some(t as i64)
            } else {
                ray_circle_s(
                    ray,
                    Vec2 { x: if x_at >= 0 { hl } else { (-hl) as i64 }, y: 0i64 },
                    r,
                )
            }
        }
    }
}

/// The walk over the polygon's faces from index `i`, keeping the closest
/// face hit and the vertex to test when the hit fell past the flat part.
pub open spec fn ray_edges_s(
    ray: Ray,
    poly: ColliderPolygon,
    r: i64,
    extra: i64,
    i: int,
    closest: i64,
    vertex: Option<Vec2>,
) -> (i64, Option<Vec2>)
    decreases separating_axes_s(poly).len() - i,
{
    if i < 0 || i >= separating_axes_s(poly).len() {
        (closest, vertex)
    } else {
        let ax = separating_axes_s(poly)[i];
        let se0 = SupportingEdge { edge: ax.edge, normal: ax.axis };
        // faces pointing along the ray are mirrored: all the closed
        // variants are symmetric about their centre
        let se = if dot_s(ray.dir.v, se0.normal) <= 0 {
            se0
        } else {
            crate::shape_shape::sedge_mirror_s(se0)
        };
        let outer = crate::shape_shape::edge_offset_s(se.edge, vscale_s(r as int, se.normal));
        let ed = vsub_s(outer.start, ray.start);
        let speed = dot_s(ray.dir.v, vneg_s(se.normal));
        if speed == 0 {
            ray_edges_s(ray, poly, r, extra, i + 1, closest, vertex)
        } else {
            let rt = fdiv_sat_s(dot_s(ed, vneg_s(se.normal)), speed);
            if rt < 0 || rt > RAY_T_MAX {
                ray_edges_s(ray, poly, r, extra, i + 1, closest, vertex)
            } else {
                let sa = dot_s(ray.dir.v, se.edge.dir);
                let et = fmul_s(rt, sa) - dot_s(ed, se.edge.dir);
                if et < -extra || et > se.edge.length + extra {
                    ray_edges_s(ray, poly, r, extra, i + 1, closest, vertex)
                } else if closest <= rt {
                    ray_edges_s(ray, poly, r, extra, i + 1, closest, vertex)
                } else {
                    let v = if et < 0 {
                        Option::Some(se.edge.start)
                    } else if et > se.edge.length {
                        Option::Some(
                            vadd_s(se.edge.start, vscale_s(se.edge.length as int, se.edge.dir)),
                        )
                    } else {
                        Option::None
                    };
                    ray_edges_s(ray, poly, r, extra, i + 1, rt as i64, v)
                }
            }
        }
    }
}

/// The polygon branch of `ray_collider`, in the collider's local frame:
/// a separating test against the ray's perpendicular, then the walk over
/// the inflated faces, with a cap test at the nearest vertex when the
/// closest face was hit past its flat part.
pub open spec fn ray_poly_s(ray: Ray, poly: ColliderPolygon, r: i64) -> Option<i64> {
    let perp0 = Vec2 { x: (-ray.dir.v.y) as i64, y: ray.dir.v.x };
    let rd0 = dot_s(ray.start, perp0);
    let perp = if rd0 >= 0 {
        perp0
    } else {
        vneg_s(perp0)
    };
    let rd = if rd0 >= 0 {
        rd0
    } else {
        -rd0
    };
    if projected_extent_s(poly, perp) + r <= rd {
        Option::None
    } else {
        let extra: i64 = if r == 0 {
            0
        } else {
            r
        };
        let walk = ray_edges_s(ray, poly, r, extra, 0, i64::MAX, Option::None);
        if walk.0 == i64::MAX {
            Option::None
        } else {
            match walk.1 {
                Option::Some(v) => ray_circle_s(ray, v, r),
                Option::None => Option::Some(walk.0),
            }
        }
    }
}

/// What `ray_collider` returns for each shape: circles are met in world
/// space, capsules and polygons in the collider's local frame.
pub open spec fn ray_collider_s(ray: Ray, pose: Pose, coll: Collider) -> Option<i64> {
    let r = coll.shape.circle_r;
    match coll.shape.polygon {
        ColliderPolygon::Point => ray_circle_s(ray, pose.translation, r),
        ColliderPolygon::LineSegment { hl } => ray_seg_s(ray_tf_s(pose_inv_s(pose), ray), hl, r),
        ColliderPolygon::Rect { .. } => ray_poly_s(
            ray_tf_s(pose_inv_s(pose), ray),
            coll.shape.polygon,
            r,
        ),
    }
}

/// Find the `t` at which `start + t * dir` first meets the inflated shape;
/// see `ray_collider_s`. A ray starting strictly inside misses by
/// convention.
#[verifier::rlimit(100)]
#[verifier::spinoff_prover]
#[verifier::loop_isolation(false)]
pub fn ray_collider(ray: Ray, pose: Pose, coll: Collider) -> (res: Option<i64>)
    requires
        pose_wf(pose, ROTOR_TOL as int, TRANS_LIM as int),
        shape_wf(coll.shape),
        abs_s(ray.start.x as int) <= 8 * TRANS_LIM,
        abs_s(ray.start.y as int) <= 8 * TRANS_LIM,
        is_unit(ray.dir.v, NORMAL_TOL as int),
    ensures
        res == ray_collider_s(ray, pose, coll),
{
    let r = coll.shape.circle_r;
    match coll.shape.polygon {
        ColliderPolygon::Point => {
            proof {
                lemma_unit_weaken(ray.dir.v, NORMAL_TOL as int, RAY_DIR_TOL as int);
            }
            ray_circle(ray, pose.translation, r)
        },
        ColliderPolygon::LineSegment { hl } => {
            let inv = pose.inversed();
            let local = ray.transformed(inv);
            proof {
                crate::rotor::lemma_rotate_unit_band(
                    inv.rotation,
                    ray.dir.v,
                    local.dir.v,
                    ROTOR_TOL as int,
                    NORMAL_TOL as int,
                );
            }
            if iabs(local.dir.v.y) < PARALLEL_EPS {
                // nearly parallel to the segment: only a cap can be hit
                if iabs(local.start.y) >= r || iabs(local.start.x) < hl {
                    None
                } else {
                    ray_circle(local, Vec2 { x: if local.start.x >= 0 { hl } else { -hl }, y: 0 },
                        r)
                }
            } else {
                let fey: i64 = if local.dir.v.y < 0 {
                    r
                } else {
                    -r
                };
                let t = fdiv_sat(fey - local.start.y, local.dir.v.y);
                if t < 0 || t > RAY_T_MAX {
                    // started inside or past the facing side, or aimed
                    // beyond the far guard
                    None
                } else {
                    proof {
                        lemma_prod_bound(
                            t as int,
                            local.dir.v.x as int,
                            RAY_T_MAX as int,
                            3 * SCALE as int,
                        );
                        crate::fixed::lemma_div_in_range(
                            t as int * local.dir.v.x as int,
                            (RAY_T_MAX as int) * (3 * SCALE as int),
                            SCALE as int,
                        );
                        assert(((RAY_T_MAX as int) * (3 * SCALE as int)) / (SCALE as int) == 3 * (
                        RAY_T_MAX as int)) by (nonlinear_arith)
                            requires
                                RAY_T_MAX == 100_000_000_000_000i64,
                                SCALE == 1_000_000_000i64,
                        ;
                    }
                    let x_at = local.start.x + fmul(t, local.dir.v.x);
                    if iabs(x_at) <= hl {
                        Some(t)
                    } else {
                        ray_circle(local, Vec2 { x: if x_at >= 0 { hl } else { -hl }, y: 0 }, r)
                    }
                }
            }
        },
        ColliderPolygon::Rect { .. } => {
            let poly = coll.shape.polygon;
            let inv = pose.inversed();
            let local = ray.transformed(inv);
            proof {
                crate::rotor::lemma_rotate_unit_band(
                    inv.rotation,
                    ray.dir.v,
                    local.dir.v,
                    ROTOR_TOL as int,
                    NORMAL_TOL as int,
                );
                crate::shape_shape::lemma_axes_ok(poly);
            }
            // a separating test against the ray's perpendicular gives a
            // quick out when the line misses the shape entirely
            let perp0 = local.dir.v.left_normal();
            proof {
                lemma_left_normal_band(local.dir.v, perp0);
            }
            let rd0 = local.start.dot(perp0);
            let (perp, rd) = if rd0 >= 0 {
                (perp0, rd0)
            } else {
                proof {
                    crate::shape_shape::lemma_neg_keeps_unit(perp0);
                }
                (perp0.neg(), -rd0)
            };
            let ext = poly.projected_extent(perp);
            if ext + r <= rd {
                return None;
            }
            // faces are inflated by the radius; their flat parts extend to
            // the corner of the sum shape by r / tan(half angle), which is
            // r itself for the right angles of the closed variants
            let extra: i64 = if r == 0 {
                0
            } else {
                r
            };
            let n = poly.edge_count();
            let mut closest: i64 = i64::MAX;
            let mut vertex: Option<Vec2> = None;
            let mut i: usize = 0;
            while i < n
                invariant
                    i <= n,
                    ray_edges_s(local, poly, r, extra, 0, i64::MAX, Option::None) == ray_edges_s(
                        local,
                        poly,
                        r,
                        extra,
                        i as int,
                        closest,
                        vertex,
                    ),
                    vertex matches Some(v) ==> abs_s(v.x as int) <= 4_000_000_000_000 && abs_s(
                        v.y as int,
                    ) <= 4_000_000_000_000,
                decreases n - i,
            {
                let se0 = poly.get_edge(i);
                proof {
                    assert(crate::shape_shape::cand_ok(
                        crate::shape_shape::AxisCand {
                            axis: separating_axes_s(poly)[i as int],
                            owner: 0usize,
                        },
                    ));
                    crate::shape_shape::lemma_exact_axis_unit(se0.normal);
                    crate::shape_shape::lemma_exact_axis_unit(se0.edge.dir);
                }
                let d0 = local.dir.v.dot(se0.normal);
                let se = if d0 <= 0 {
                    se0
                } else {
                    se0.mirrored()
                };
                proof {
                    crate::shape_shape::lemma_exact_axis_unit(se.normal);
                    crate::shape_shape::lemma_exact_axis_unit(se.edge.dir);
                    crate::shape_shape::lemma_scale_exact(r as int, se.normal);
                }
                let outer = se.edge.offset(se.normal.scaled(r));
                let ed = outer.start.sub(local.start);
                let mneg = se.normal.neg();
                let speed = local.dir.v.dot(mneg);
                if speed != 0 {
                    let rt = fdiv_sat(ed.dot(mneg), speed);
                    if rt >= 0 && rt <= RAY_T_MAX {
                        let sa = local.dir.v.dot(se.edge.dir);
                        proof {
                            crate::shape_shape::lemma_dot_exact(local.dir.v, se.edge.dir);
                            lemma_prod_bound(
                                rt as int,
                                sa as int,
                                RAY_T_MAX as int,
                                13_000_000_000int,
                            );
                            crate::fixed::lemma_div_in_range(
                                rt as int * sa as int,
                                (RAY_T_MAX as int) * 13_000_000_000int,
                                SCALE as int,
                            );
                            assert(((RAY_T_MAX as int) * 13_000_000_000int) / (SCALE as int)
                                == 1_300_000_000_000_000int) by (nonlinear_arith)
                                requires
                                    RAY_T_MAX == 100_000_000_000_000i64,
                                    SCALE == 1_000_000_000i64,
                            ;
                        }
                        let et = fmul(rt, sa) - ed.dot(se.edge.dir);
                        if !(et < -extra || et > se.edge.length + extra) && closest > rt {
                            closest = rt;
                            vertex = if et < 0 {
                                Some(se.edge.start)
                            } else if et > se.edge.length {
                                proof {
                                    crate::shape_shape::lemma_scale_exact(
                                        se.edge.length as int,
                                        se.edge.dir,
                                    );
                                }
                                Some(se.edge.start.add(se.edge.dir.scaled(se.edge.length)))
                            } else {
                                None
                            };
                        }
                    }
                }
                i += 1;
            }
            if closest == i64::MAX {
                None
            } else {
                match vertex {
                    Some(vert) => ray_circle(local, vert, r),
                    None => Some(closest),
                }
            }
        },
    }
}

/// A wider unit band still admits the same vector.
proof fn lemma_unit_weaken(v: Vec2, t1: int, t2: int)
    requires
        is_unit(v, t1),
        t1 <= t2,
    ensures
        is_unit(v, t2),
{
}

/// The left normal swaps the squared components, keeping any unit band.
proof fn lemma_left_normal_band(v: Vec2, w: Vec2)
    requires
        w.x == -v.y,
        w.y == v.x,
    ensures
        sq_raw_s(w) == sq_raw_s(v),
        forall|tol: int| is_unit(v, tol) ==> is_unit(w, tol),
{
    assert(w.x * w.x == v.y * v.y) by (nonlinear_arith)
        requires
            w.x == -v.y,
    ;
}


} // verus!
