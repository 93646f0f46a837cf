//! Colliders: convex polygons inflated by a circle radius (sum shapes),
//! with material, layer mask and solidity.

use crate::fixed::{abs_s, clamp_s, fmul, fmul_s, iabs, iclamp, SCALE};
use crate::shape_shape::{ClosestBoundaryPoint, Edge, SeparatingAxis, SupportingEdge};
use crate::vec2::Vec2;
use vstd::arithmetic::div_mod::{lemma_div_is_ordered, lemma_div_pos_is_pos};
use vstd::prelude::*;

verus! {

/// Bound on shape half-extents and radii: a thousand world units.
pub const SHAPE_LIM: i64 = 1_000_000_000_000;

/// The polygon part of a collider shape. The set of variants is closed;
/// a `Point` with a radius is a circle, a `LineSegment` with a radius a
/// capsule, a `Rect` with a radius a rounded rectangle.
#[derive(Clone, Copy, Debug, PartialEq, Eq, Structural)]
pub enum ColliderPolygon {
    Point,
    LineSegment { hl: i64 },
    Rect { hw: i64, hh: i64 },
}

/// A convex shape: a polygon inflated by `circle_r`.
#[derive(Clone, Copy, Debug, PartialEq, Eq, Structural)]
pub struct ColliderShape {
    pub polygon: ColliderPolygon,
    pub circle_r: i64,
}

/// Whether a collider produces contact forces or only reports overlap.
#[derive(Clone, Copy, Debug, PartialEq, Eq, Structural)]
pub enum ColliderType {
    Solid,
    Trigger,
}

/// Friction and restitution factors of a collider, in fixed-point.
#[derive(Clone, Copy, Debug, PartialEq, Eq, Structural)]
pub struct PhysicsMaterial {
    pub static_friction: i64,
    pub dynamic_friction: i64,
    pub restitution: i64,
}

/// A complete collider: sum shape, material, layer mask, solidity.
#[derive(Clone, Copy, Debug, PartialEq, Eq, Structural)]
pub struct Collider {
    pub shape: ColliderShape,
    pub material: PhysicsMaterial,
    pub layer_mask: u64,
    pub kind: ColliderType,
}

/// Nonnegative extents within the world bound.
pub open spec fn polygon_wf(p: ColliderPolygon) -> bool {
    match p {
        ColliderPolygon::Point => true,
        ColliderPolygon::LineSegment { hl } => 0 <= hl <= SHAPE_LIM,
        ColliderPolygon::Rect { hw, hh } => 0 <= hw <= SHAPE_LIM && 0 <= hh <= SHAPE_LIM,
    }
}

pub open spec fn shape_wf(s: ColliderShape) -> bool {
    &&& polygon_wf(s.polygon)
    &&& 0 <= s.circle_r <= SHAPE_LIM
}

/// The extent of the polygon alone, projected onto a direction.
pub open spec fn projected_extent_s(p: ColliderPolygon, dir: Vec2) -> int {
    match p {
        ColliderPolygon::Point => 0,
        ColliderPolygon::LineSegment { hl } => fmul_s(abs_s(dir.x as int), hl as int),
        ColliderPolygon::Rect { hw, hh } => fmul_s(abs_s(dir.x as int), hw as int) + fmul_s(
            abs_s(dir.y as int),
            hh as int,
        ),
    }
}

/// The closest point to `pt` on the polygon's boundary, and whether `pt`
/// lies inside (a point or segment has no interior).
pub open spec fn closest_boundary_point_s(p: ColliderPolygon, pt: Vec2) -> ClosestBoundaryPoint {
    match p {
        ColliderPolygon::Point => ClosestBoundaryPoint {
            pt: Vec2 { x: 0i64, y: 0i64 },
            is_interior: false,
        },
        ColliderPolygon::LineSegment { hl } => ClosestBoundaryPoint {
            pt: Vec2 { x: clamp_s(pt.x as int, -hl as int, hl as int) as i64, y: 0i64 },
            is_interior: false,
        },
        ColliderPolygon::Rect { hw, hh } => {
            if abs_s(pt.x as int) <= hw && abs_s(pt.y as int) <= hh {
                // inside: snap to the nearest face
                if hw - abs_s(pt.x as int) < hh - abs_s(pt.y as int) {
                    ClosestBoundaryPoint {
                        pt: Vec2 { x: if pt.x >= 0 { hw } else { (-hw) as i64 }, y: pt.y },
                        is_interior: true,
                    }
                } else {
                    ClosestBoundaryPoint {
                        pt: Vec2 { x: pt.x, y: if pt.y >= 0 { hh } else { (-hh) as i64 } },
                        is_interior: true,
                    }
                }
            } else {
                ClosestBoundaryPoint {
                    pt: Vec2 {
                        x: clamp_s(pt.x as int, -hw as int, hw as int) as i64,
                        y: clamp_s(pt.y as int, -hh as int, hh as int) as i64,
                    },
                    is_interior: false,
                }
            }
        },
    }
}

/// The separating-axis candidates of the polygon: one face normal per
/// distinct face direction, each tagged symmetrical because all the closed
/// variants are point-symmetric.
pub open spec fn separating_axes_s(p: ColliderPolygon) -> Seq<SeparatingAxis> {
    match p {
        ColliderPolygon::Point => Seq::empty(),
        ColliderPolygon::LineSegment { hl } => seq![
            SeparatingAxis {
                axis: Vec2 { x: 0i64, y: SCALE },
                extent: 0i64,
                edge: Edge {
                    start: Vec2 { x: (-hl) as i64, y: 0i64 },
                    dir: Vec2 { x: SCALE, y: 0i64 },
                    length: (2 * hl) as i64,
                },
                symmetrical: true,
            },
        ],
        ColliderPolygon::Rect { hw, hh } => seq![
            SeparatingAxis {
                axis: Vec2 { x: SCALE, y: 0i64 },
                extent: hw,
                edge: Edge {
                    start: Vec2 { x: hw, y: (-hh) as i64 },
                    dir: Vec2 { x: 0i64, y: SCALE },
                    length: (2 * hh) as i64,
                },
                symmetrical: true,
            },
            SeparatingAxis {
                axis: Vec2 { x: 0i64, y: SCALE },
                extent: hh,
                edge: Edge {
                    start: Vec2 { x: (-hw) as i64, y: hh },
                    dir: Vec2 { x: SCALE, y: 0i64 },
                    length: (2 * hw) as i64,
                },
                symmetrical: true,
            },
        ],
    }
}

/// The face of the polygon most opposed to `dir` being an outward normal,
/// starting at the supporting corner along `dir`; `None` for a point.
pub open spec fn supporting_edge_s(p: ColliderPolygon, dir: Vec2) -> Option<SupportingEdge> {
    match p {
        ColliderPolygon::Point => None,
        ColliderPolygon::LineSegment { hl } => Some(
            SupportingEdge {
                edge: Edge {
                    start: Vec2 { x: if dir.x >= 0 { hl } else { (-hl) as i64 }, y: 0i64 },
                    dir: Vec2 { x: if dir.x >= 0 { (-SCALE) as i64 } else { SCALE }, y: 0i64 },
                    length: (2 * hl) as i64,
                },
                normal: Vec2 { x: 0i64, y: if dir.y >= 0 { SCALE } else { (-SCALE) as i64 } },
            },
        ),
        ColliderPolygon::Rect { hw, hh } => {
            let sx: i64 = if dir.x >= 0 { 1i64 } else { (-1) as i64 };
            let sy: i64 = if dir.y >= 0 { 1i64 } else { (-1) as i64 };
            if abs_s(dir.x as int) >= abs_s(dir.y as int) {
                Some(
                    SupportingEdge {
                        edge: Edge {
                            start: Vec2 { x: (sx * hw) as i64, y: (sy * hh) as i64 },
                            dir: Vec2 { x: 0i64, y: (-sy * SCALE) as i64 },
                            length: (2 * hh) as i64,
                        },
                        normal: Vec2 { x: (sx * SCALE) as i64, y: 0i64 },
                    },
                )
            } else {
                Some(
                    SupportingEdge {
                        edge: Edge {
                            start: Vec2 { x: (sx * hw) as i64, y: (sy * hh) as i64 },
                            dir: Vec2 { x: (-sx * SCALE) as i64, y: 0i64 },
                            length: (2 * hw) as i64,
                        },
                        normal: Vec2 { x: 0i64, y: (sy * SCALE) as i64 },
                    },
                )
            }
        },
    }
}

impl ColliderPolygon {
    /// How many distinct face directions the polygon has.
    pub fn edge_count(&self) -> (r: usize)
        ensures
            r == separating_axes_s(*self).len(),
    {
        match self {
            ColliderPolygon::Point => 0,
            ColliderPolygon::LineSegment { .. } => 1,
            ColliderPolygon::Rect { .. } => 2,
        }
    }

    /// All the closed polygon variants are symmetric about their centre,
    /// so one face per direction covers both sides.
    pub fn is_rotationally_symmetrical(&self) -> (r: bool)
        ensures
            r == true,
    {
        true
    }

    /// The tangent of half the angle between adjacent faces, used to extend
    /// an inflated face to the corner of the sum shape. Of the closed
    /// variants only the rectangle has adjacent faces; its faces meet at a
    /// right angle, so the tangent is one.
    pub fn half_angle_between_edges_tan(&self) -> (r: i64)
        ensures
            r == SCALE,
    {
        SCALE
    }

    pub fn projected_extent(&self, dir: Vec2) -> (r: i64)
        requires
            polygon_wf(*self),
            -2 * SCALE <= dir.x <= 2 * SCALE,
            -2 * SCALE <= dir.y <= 2 * SCALE,
        ensures
            r == projected_extent_s(*self, dir),
            0 <= r <= 5 * SHAPE_LIM,
    {
        match *self {
            ColliderPolygon::Point => 0,
            ColliderPolygon::LineSegment { hl } => {
                proof {
                    lemma_extent_term(dir.x as int, hl as int);
                }
                fmul(iabs(dir.x), hl)
            },
            ColliderPolygon::Rect { hw, hh } => {
                proof {
                    lemma_extent_term(dir.x as int, hw as int);
                    lemma_extent_term(dir.y as int, hh as int);
                }
                fmul(iabs(dir.x), hw) + fmul(iabs(dir.y), hh)
            },
        }
    }

    pub fn closest_boundary_point(&self, pt: Vec2) -> (r: ClosestBoundaryPoint)
        requires
            polygon_wf(*self),
            pt.x > i64::MIN,
            pt.y > i64::MIN,
        ensures
            r == closest_boundary_point_s(*self, pt),
            abs_s(r.pt.x as int) <= abs_s(pt.x as int) + SHAPE_LIM,
            abs_s(r.pt.y as int) <= abs_s(pt.y as int) + SHAPE_LIM,
    {
        match *self {
            ColliderPolygon::Point => ClosestBoundaryPoint {
                pt: Vec2 { x: 0, y: 0 },
                is_interior: false,
            },
            ColliderPolygon::LineSegment { hl } => ClosestBoundaryPoint {
                pt: Vec2 { x: iclamp(pt.x, -hl, hl), y: 0 },
                is_interior: false,
            },
            ColliderPolygon::Rect { hw, hh } => {
                let ax = iabs(pt.x);
                let ay = iabs(pt.y);
                if ax <= hw && ay <= hh {
                    if hw - ax < hh - ay {
                        ClosestBoundaryPoint {
                            pt: Vec2 { x: if pt.x >= 0 { hw } else { -hw }, y: pt.y },
                            is_interior: true,
                        }
                    } else {
                        ClosestBoundaryPoint {
                            pt: Vec2 { x: pt.x, y: if pt.y >= 0 { hh } else { -hh } },
                            is_interior: true,
                        }
                    }
                } else {
                    ClosestBoundaryPoint {
                        pt: Vec2 { x: iclamp(pt.x, -hw, hw), y: iclamp(pt.y, -hh, hh) },
                        is_interior: false,
                    }
                }
            },
        }
    }

    /// The separating-axis candidates, in a fixed order.
    pub fn separating_axes(&self) -> (r: Vec<SeparatingAxis>)
        requires
            polygon_wf(*self),
        ensures
            r@ == separating_axes_s(*self),
    {
        let mut axes: Vec<SeparatingAxis> = Vec::new();
        match *self {
            ColliderPolygon::Point => {},
            ColliderPolygon::LineSegment { hl } => {
                axes.push(
                    SeparatingAxis {
                        axis: Vec2 { x: 0, y: SCALE },
                        extent: 0,
                        edge: Edge {
                            start: Vec2 { x: -hl, y: 0 },
                            dir: Vec2 { x: SCALE, y: 0 },
                            length: 2 * hl,
                        },
                        symmetrical: true,
                    },
                );
            },
            ColliderPolygon::Rect { hw, hh } => {
                axes.push(
                    SeparatingAxis {
                        axis: Vec2 { x: SCALE, y: 0 },
                        extent: hw,
                        edge: Edge {
                            start: Vec2 { x: hw, y: -hh },
                            dir: Vec2 { x: 0, y: SCALE },
                            length: 2 * hh,
                        },
                        symmetrical: true,
                    },
                );
                axes.push(
                    SeparatingAxis {
                        axis: Vec2 { x: 0, y: SCALE },
                        extent: hh,
                        edge: Edge {
                            start: Vec2 { x: -hw, y: hh },
                            dir: Vec2 { x: SCALE, y: 0 },
                            length: 2 * hw,
                        },
                        symmetrical: true,
                    },
                );
            },
        }
        proof {
            assert(axes@ =~= separating_axes_s(*self));
        }
        axes
    }

    /// The supporting edge towards `dir`, `None` for a point.
    pub fn supporting_edge(&self, dir: Vec2) -> (r: Option<SupportingEdge>)
        requires
            polygon_wf(*self),
            -2 * SCALE <= dir.x <= 2 * SCALE,
            -2 * SCALE <= dir.y <= 2 * SCALE,
        ensures
            r == supporting_edge_s(*self, dir),
    {
        match *self {
            ColliderPolygon::Point => None,
            ColliderPolygon::LineSegment { hl } => Some(
                SupportingEdge {
                    edge: Edge {
                        start: Vec2 { x: if dir.x >= 0 { hl } else { -hl }, y: 0 },
                        dir: Vec2 { x: if dir.x >= 0 { -SCALE } else { SCALE }, y: 0 },
                        length: 2 * hl,
                    },
                    normal: Vec2 { x: 0, y: if dir.y >= 0 { SCALE } else { -SCALE } },
                },
            ),
            ColliderPolygon::Rect { hw, hh } => {
                let sx: i64 = if dir.x >= 0 { 1 } else { -1 };
                let sy: i64 = if dir.y >= 0 { 1 } else { -1 };
                if iabs(dir.x) >= iabs(dir.y) {
                    Some(
                        SupportingEdge {
                            edge: Edge {
                                start: Vec2 { x: sx * hw, y: sy * hh },
                                dir: Vec2 { x: 0, y: -sy * SCALE },
                                length: 2 * hh,
                            },
                            normal: Vec2 { x: sx * SCALE, y: 0 },
                        },
                    )
                } else {
                    Some(
                        SupportingEdge {
                            edge: Edge {
                                start: Vec2 { x: sx * hw, y: sy * hh },
                                dir: Vec2 { x: -sx * SCALE, y: 0 },
                                length: 2 * hw,
                            },
                            normal: Vec2 { x: 0, y: sy * SCALE },
                        },
                    )
                }
            },
        }
    }

    /// One face of the polygon by index, for walking all faces.
    pub fn get_edge(&self, idx: usize) -> (r: SupportingEdge)
        requires
            polygon_wf(*self),
            idx < separating_axes_s(*self).len(),
        ensures
            r.edge == separating_axes_s(*self)[idx as int].edge,
            r.normal == separating_axes_s(*self)[idx as int].axis,
    {
        match *self {
            ColliderPolygon::Point => SupportingEdge {
                edge: Edge {
                    start: Vec2 { x: 0, y: 0 },
                    dir: Vec2 { x: SCALE, y: 0 },
                    length: 0,
                },
                normal: Vec2 { x: 0, y: SCALE },
            },
            ColliderPolygon::LineSegment { hl } => SupportingEdge {
                edge: Edge {
                    start: Vec2 { x: -hl, y: 0 },
                    dir: Vec2 { x: SCALE, y: 0 },
                    length: 2 * hl,
                },
                normal: Vec2 { x: 0, y: SCALE },
            },
            ColliderPolygon::Rect { hw, hh } => {
                if idx == 0 {
                    SupportingEdge {
                        edge: Edge {
                            start: Vec2 { x: hw, y: -hh },
                            dir: Vec2 { x: 0, y: SCALE },
                            length: 2 * hh,
                        },
                        normal: Vec2 { x: SCALE, y: 0 },
                    }
                } else {
                    SupportingEdge {
                        edge: Edge {
                            start: Vec2 { x: -hw, y: hh },
                            dir: Vec2 { x: SCALE, y: 0 },
                            length: 2 * hw,
                        },
                        normal: Vec2 { x: 0, y: SCALE },
                    }
                }
            },
        }
    }
}

/// One extent term is nonnegative and stays within machine range.
proof fn lemma_extent_term(d: int, h: int)
    requires
        -2 * SCALE <= d <= 2 * SCALE,
        0 <= h <= SHAPE_LIM,
    ensures
        0 <= fmul_s(abs_s(d), h) <= 2 * SHAPE_LIM,
{
    let s = SCALE as int;
    let a = abs_s(d);
    let lim = SHAPE_LIM as int;
    assert(0 <= a * h <= (2 * s) * lim) by (nonlinear_arith)
        requires
            0 <= a <= 2 * s,
            0 <= h <= lim,
            0 < s,
    ;
    lemma_div_pos_is_pos(a * h, s);
    lemma_div_is_ordered(a * h, (2 * s) * lim, s);
    assert(((2 * s) * lim) / s == 2 * lim) by (nonlinear_arith)
        requires
            s == 1_000_000_000int,
            lim == 1_000_000_000_000int,
    ;
}

impl Collider {
    /// A circle: a point polygon inflated by `r`.
    pub fn new_circle(r: i64) -> (c: Collider)
        requires
            0 <= r <= SHAPE_LIM,
        ensures
            c.shape.polygon == ColliderPolygon::Point,
            c.shape.circle_r == r,
            shape_wf(c.shape),
            c.kind == ColliderType::Solid,
    {
        Collider {
            shape: ColliderShape { polygon: ColliderPolygon::Point, circle_r: r },
            material: PhysicsMaterial::standard(),
            layer_mask: u64::MAX,
            kind: ColliderType::Solid,
        }
    }

    /// A capsule of total length `length` and cap radius `r`.
    pub fn new_capsule(length: i64, r: i64) -> (c: Collider)
        requires
            0 <= length <= SHAPE_LIM,
            0 <= r <= SHAPE_LIM,
        ensures
            c.shape.polygon == (ColliderPolygon::LineSegment { hl: (length / 2) as i64 }),
            c.shape.circle_r == r,
            shape_wf(c.shape),
            c.kind == ColliderType::Solid,
    {
        Collider {
            shape: ColliderShape {
                polygon: ColliderPolygon::LineSegment { hl: length / 2 },
                circle_r: r,
            },
            material: PhysicsMaterial::standard(),
            layer_mask: u64::MAX,
            kind: ColliderType::Solid,
        }
    }

    /// A sharp rectangle of full width `w` and full height `h`.
    pub fn new_rect(w: i64, h: i64) -> (c: Collider)
        requires
            0 <= w <= SHAPE_LIM,
            0 <= h <= SHAPE_LIM,
        ensures
            c.shape.polygon == (ColliderPolygon::Rect {
                hw: (w / 2) as i64,
                hh: (h / 2) as i64,
            }),
            c.shape.circle_r == 0,
            shape_wf(c.shape),
            c.kind == ColliderType::Solid,
    {
        Collider {
            shape: ColliderShape {
                polygon: ColliderPolygon::Rect { hw: w / 2, hh: h / 2 },
                circle_r: 0,
            },
            material: PhysicsMaterial::standard(),
            layer_mask: u64::MAX,
            kind: ColliderType::Solid,
        }
    }

    /// A rectangle of full outer width `w` and height `h` whose corners are
    /// rounded with radius `r`: the inner polygon shrinks by `r`.
    pub fn new_rounded_rect(w: i64, h: i64, r: i64) -> (c: Collider)
        requires
            0 <= r <= SHAPE_LIM,
            2 * r <= w <= SHAPE_LIM,
            2 * r <= h <= SHAPE_LIM,
        ensures
            c.shape.polygon == (ColliderPolygon::Rect {
                hw: (w / 2 - r) as i64,
                hh: (h / 2 - r) as i64,
            }),
            c.shape.circle_r == r,
            shape_wf(c.shape),
            c.kind == ColliderType::Solid,
    {
        Collider {
            shape: ColliderShape {
                polygon: ColliderPolygon::Rect { hw: w / 2 - r, hh: h / 2 - r },
                circle_r: r,
            },
            material: PhysicsMaterial::standard(),
            layer_mask: u64::MAX,
            kind: ColliderType::Solid,
        }
    }

    /// Turn a solid collider into an overlap-only trigger.
    pub fn trigger(self) -> (c: Collider)
        ensures
            c.kind == ColliderType::Trigger,
            c.shape == self.shape,
            c.material == self.material,
            c.layer_mask == self.layer_mask,
    {
        Collider { kind: ColliderType::Trigger, ..self }
    }
}

impl PhysicsMaterial {
    /// Half friction, no bounce.
    pub fn standard() -> (m: PhysicsMaterial)
        ensures
            m.static_friction == SCALE / 2,
            m.dynamic_friction == SCALE / 2,
            m.restitution == 0,
    {
        PhysicsMaterial {
            static_friction: SCALE / 2,
            dynamic_friction: SCALE / 2,
            restitution: 0,
        }
    }
}

} // verus!
