//! Narrow-phase contact generation between pairs of colliders.
//!
//! Between two convex sum shapes at most two contact points arise. Circles
//! get special cases; every other pair runs a separating-axis test over the
//! face normals of both polygons followed by edge clipping, with a
//! circle-against-circle fallback at rounded corners.

use crate::collider::{
    closest_boundary_point_s, polygon_wf, projected_extent_s, separating_axes_s, shape_wf,
    supporting_edge_s, ColliderPolygon, ColliderShape, SHAPE_LIM,
};
use crate::fixed::{
    abs_s, clamp_s, fdiv_sat, fdiv_sat_s, fmul, fmul_s, iclamp, lemma_prod_bound, COORD_LIM,
    SCALE,
};
use crate::rotor::{
    pose_comp_s, pose_inv_s, pose_pt_s, pose_wf, rot_rev_s, rotate_v_s, rotor_wf, Pose, ROTOR_TOL,
    ROT_GROW, TRANS_LIM,
};
use crate::vec2::{
    dot_s, is_unit, normalize_s, sq_raw_s, vadd_s, vec_wf, vneg_s, vscale_s, vsub_s, UnitVec2,
    Vec2, MIN_MAG, UNIT_TOL,
};
use vstd::prelude::*;

verus! {

/// Tolerance of a contact normal's squared length: a freshly normalized
/// direction rotated once through an input pose's rotor.
pub const NORMAL_TOL: i64 = 5_200_000_000_000;

/// Below this raw squared distance two circle centres count as coincident
/// and the contact normal defaults to the x axis.
pub const CC_EPS_SQ: i128 = 1_000_000_000_000_000;

/// Raw squared length below which a direction is too short to normalize;
/// such degenerate features fall back to the penetration axis.
pub const MIN_MAG_SQ: i128 = 1_000_000_000_000;

/// An intersection between two objects: the normal faces away from the
/// first object, and each offset is the contact point in that object's own
/// frame.
#[derive(Clone, Copy, Debug)]
pub struct Contact {
    /// The normal, facing away from the first object.
    pub normal: UnitVec2,
    /// Points of contact on the surface of each object, in object-local
    /// space.
    pub offsets: [Vec2; 2],
}

/// Zero to two points of contact can occur between two convex 2D objects.
#[derive(Clone, Copy, Debug)]
pub enum ContactResult {
    Zero,
    One(Contact),
    Two(Contact, Contact),
}

/// A contact whose normal is within tolerance of unit length and whose
/// offsets are well-formed coordinates.
pub open spec fn contact_wf(c: Contact) -> bool {
    &&& is_unit(c.normal.v, NORMAL_TOL as int)
    &&& vec_wf(c.offsets[0])
    &&& vec_wf(c.offsets[1])
}

/// Every contact of the result is well-formed.
pub open spec fn result_wf(r: ContactResult) -> bool {
    match r {
        ContactResult::Zero => true,
        ContactResult::One(c) => contact_wf(c),
        ContactResult::Two(c1, c2) => contact_wf(c1) && contact_wf(c2),
    }
}

/// How many contacts the result carries.
pub open spec fn result_len_s(r: ContactResult) -> int {
    match r {
        ContactResult::Zero => 0,
        ContactResult::One(_) => 1,
        ContactResult::Two(_, _) => 2,
    }
}

/// The `i`-th contact of the result.
pub open spec fn result_nth_s(r: ContactResult, i: int) -> Contact {
    match r {
        ContactResult::Zero => Contact {
            normal: UnitVec2 { v: Vec2 { x: 0i64, y: 0i64 } },
            offsets: [Vec2 { x: 0i64, y: 0i64 }, Vec2 { x: 0i64, y: 0i64 }],
        },
        ContactResult::One(c) => c,
        ContactResult::Two(c1, c2) => if i == 0 {
            c1
        } else {
            c2
        },
    }
}

impl ContactResult {
    /// Walk the contacts in order.
    pub fn iter(&self) -> (it: ContactIterator<'_>)
        ensures
            it.cr == self,
            it.idx == 0,
    {
        ContactIterator { cr: self, idx: 0 }
    }

    /// Execute a function on every contact in the result, keeping the
    /// variant.
    pub fn map<F: Fn(Contact) -> Contact>(self, f: F) -> (r: ContactResult)
        requires
            forall|c: Contact| #[trigger] f.requires((c,)),
        ensures
            match (self, r) {
                (ContactResult::Zero, ContactResult::Zero) => true,
                (ContactResult::One(c), ContactResult::One(d)) => f.ensures((c,), d),
                (ContactResult::Two(c1, c2), ContactResult::Two(d1, d2)) => f.ensures((c1,), d1)
                    && f.ensures((c2,), d2),
                _ => false,
            },
    {
        match self {
            ContactResult::Zero => ContactResult::Zero,
            ContactResult::One(c) => ContactResult::One(f(c)),
            ContactResult::Two(c1, c2) => ContactResult::Two(f(c1), f(c2)),
        }
    }

    /// Whether the result carries no contact.
    pub fn is_zero(&self) -> (r: bool)
        ensures
            r == (*self is Zero),
    {
        matches!(self, ContactResult::Zero)
    }
}

/// An iterator over the contacts in a `ContactResult`.
pub struct ContactIterator<'a> {
    pub cr: &'a ContactResult,
    pub idx: u8,
}

impl<'a> ContactIterator<'a> {
    /// Yield the contact at the cursor and move past it, `None` at the end.
    pub fn next(&mut self) -> (r: Option<&'a Contact>)
        ensures
            final(self).cr == old(self).cr,
            match r {
                Some(c) => {
                    &&& old(self).idx < result_len_s(*old(self).cr)
                    &&& final(self).idx == old(self).idx + 1
                    &&& *c == result_nth_s(*old(self).cr, old(self).idx as int)
                },
                None => {
                    &&& old(self).idx >= result_len_s(*old(self).cr)
                    &&& final(self).idx == old(self).idx
                },
            },
    {
        let r: Option<&'a Contact> = match (self.cr, self.idx) {
            (ContactResult::Zero, _) => None,
            (ContactResult::One(c), 0) => Some(c),
            (ContactResult::One(_), _) => None,
            (ContactResult::Two(c1, _), 0) => Some(c1),
            (ContactResult::Two(_, c2), 1) => Some(c2),
            (ContactResult::Two(_, _), _) => None,
        };
        if r.is_some() {
            self.idx = self.idx + 1;
        }
        r
    }
}

/// `d` is `c` with the normal turned around and the offsets swapped: the
/// same contact seen from the other body.
pub open spec fn flipped_contact(c: Contact, d: Contact) -> bool {
    &&& d.normal.v == vneg_s(c.normal.v)
    &&& d.offsets[0] == c.offsets[1]
    &&& d.offsets[1] == c.offsets[0]
}

/// A whole result seen from the other body.
pub open spec fn flip_result_s(cr: ContactResult) -> ContactResult {
    match cr {
        ContactResult::Zero => ContactResult::Zero,
        ContactResult::One(c) => ContactResult::One(flip_c_s(c)),
        ContactResult::Two(c1, c2) => ContactResult::Two(flip_c_s(c1), flip_c_s(c2)),
    }
}

/// Turn a contact result around so it is seen from the other body.
pub fn flip_contacts(contacts: ContactResult) -> (r: ContactResult)
    requires
        result_wf(contacts),
    ensures
        result_wf(r),
        r == flip_result_s(contacts),
        match (contacts, r) {
            (ContactResult::Zero, ContactResult::Zero) => true,
            (ContactResult::One(c), ContactResult::One(d)) => flipped_contact(c, d),
            (ContactResult::Two(c1, c2), ContactResult::Two(d1, d2)) => flipped_contact(c1, d1)
                && flipped_contact(c2, d2),
            _ => false,
        },
{
    match contacts {
        ContactResult::Zero => ContactResult::Zero,
        ContactResult::One(c) => ContactResult::One(flip_one(c)),
        ContactResult::Two(c1, c2) => ContactResult::Two(flip_one(c1), flip_one(c2)),
    }
}

/// One contact seen from the other body.
fn flip_one(c: Contact) -> (d: Contact)
    requires
        contact_wf(c),
    ensures
        contact_wf(d),
        flipped_contact(c, d),
        d == flip_c_s(c),
{
    proof {
        lemma_neg_keeps_unit(c.normal.v);
    }
    Contact {
        normal: UnitVec2 { v: c.normal.v.neg() },
        offsets: [c.offsets[1], c.offsets[0]],
    }
}

/// Negation keeps a squared-length tolerance band.
pub proof fn lemma_neg_keeps_unit(v: Vec2)
    requires
        -2 * SCALE <= v.x <= 2 * SCALE,
        -2 * SCALE <= v.y <= 2 * SCALE,
    ensures
        sq_raw_s(vneg_s(v)) == sq_raw_s(v),
{
    let w = vneg_s(v);
    assert(w.x * w.x == v.x * v.x && w.y * w.y == v.y * v.y) by (nonlinear_arith)
        requires
            w.x == -v.x,
            w.y == -v.y,
    ;
}

//
// utility types & operations
//

/// Closest point to a query point on the boundary of a polygon, plus
/// whether the query point is inside the polygon or not.
#[derive(Clone, Copy, Debug, PartialEq, Eq, Structural)]
pub struct ClosestBoundaryPoint {
    pub pt: Vec2,
    pub is_interior: bool,
}

/// A directed edge: a start point, a unit direction, and a length.
#[derive(Clone, Copy, Debug, PartialEq, Eq, Structural)]
pub struct Edge {
    pub start: Vec2,
    pub dir: Vec2,
    pub length: i64,
}

/// Bounds under which edge arithmetic cannot overflow: a well-formed start,
/// a direction within three units, a length within the shape bound.
pub open spec fn edge_bounded(e: Edge) -> bool {
    &&& vec_wf(e.start)
    &&& -3 * SCALE <= e.dir.x <= 3 * SCALE
    &&& -3 * SCALE <= e.dir.y <= 3 * SCALE
    &&& 0 <= e.length <= 5 * SHAPE_LIM
}

/// An edge carried through a pose.
pub open spec fn edge_tf_s(e: Edge, p: Pose) -> Edge {
    Edge { start: pose_pt_s(p, e.start), dir: rotate_v_s(p.rotation, e.dir), length: e.length }
}

/// An edge mirrored through the origin.
pub open spec fn edge_mirror_s(e: Edge) -> Edge {
    Edge { start: vneg_s(e.start), dir: vneg_s(e.dir), length: e.length }
}

/// An edge moved sideways.
pub open spec fn edge_offset_s(e: Edge, amount: Vec2) -> Edge {
    Edge { start: vadd_s(e.start, amount), dir: e.dir, length: e.length }
}

impl Edge {
    pub fn transformed(self, pose: Pose) -> (r: Edge)
        requires
            -2 * SCALE <= pose.rotation.c <= 2 * SCALE,
            -2 * SCALE <= pose.rotation.s <= 2 * SCALE,
            vec_wf(self.start),
            vec_wf(self.dir),
            vec_wf(pose.translation),
            -i64::MAX <= 2 * abs_s(self.start.x as int) + 2 * abs_s(self.start.y as int) + 2
                + abs_s(pose.translation.x as int) <= i64::MAX,
            -i64::MAX <= 2 * abs_s(self.start.x as int) + 2 * abs_s(self.start.y as int) + 2
                + abs_s(pose.translation.y as int) <= i64::MAX,
        ensures
            r == edge_tf_s(self, pose),
            abs_s(r.start.x as int) <= 2 * abs_s(self.start.x as int) + 2 * abs_s(
                self.start.y as int,
            ) + 2 + abs_s(pose.translation.x as int),
            abs_s(r.start.y as int) <= 2 * abs_s(self.start.x as int) + 2 * abs_s(
                self.start.y as int,
            ) + 2 + abs_s(pose.translation.y as int),
            r.length == self.length,
    {
        Edge {
            start: pose.transform_point(self.start),
            dir: pose.rotation.rotate(self.dir),
            length: self.length,
        }
    }

    pub fn mirrored(self) -> (r: Edge)
        requires
            self.start.x > i64::MIN,
            self.start.y > i64::MIN,
            self.dir.x > i64::MIN,
            self.dir.y > i64::MIN,
        ensures
            r == edge_mirror_s(self),
    {
        Edge { start: self.start.neg(), dir: self.dir.neg(), length: self.length }
    }

    pub fn offset(self, amount: Vec2) -> (r: Edge)
        requires
            -i64::MAX <= self.start.x + amount.x <= i64::MAX,
            -i64::MAX <= self.start.y + amount.y <= i64::MAX,
        ensures
            r == edge_offset_s(self, amount),
    {
        Edge { start: self.start.add(amount), dir: self.dir, length: self.length }
    }
}

/// The edge of a shape's polygon closest to a given direction, starting
/// from the supporting point in that direction. The normal expands the edge
/// to the boundary of the sum shape.
#[derive(Clone, Copy, Debug, PartialEq, Eq, Structural)]
pub struct SupportingEdge {
    pub edge: Edge,
    pub normal: Vec2,
}

/// A supporting edge carried through a pose.
pub open spec fn sedge_tf_s(se: SupportingEdge, p: Pose) -> SupportingEdge {
    SupportingEdge { edge: edge_tf_s(se.edge, p), normal: rotate_v_s(p.rotation, se.normal) }
}

/// A supporting edge mirrored through the origin.
pub open spec fn sedge_mirror_s(se: SupportingEdge) -> SupportingEdge {
    SupportingEdge { edge: edge_mirror_s(se.edge), normal: vneg_s(se.normal) }
}

impl SupportingEdge {
    /// Mirror the edge and its normal through the origin.
    pub fn mirrored(self) -> (r: SupportingEdge)
        requires
            self.edge.start.x > i64::MIN,
            self.edge.start.y > i64::MIN,
            self.edge.dir.x > i64::MIN,
            self.edge.dir.y > i64::MIN,
            self.normal.x > i64::MIN,
            self.normal.y > i64::MIN,
        ensures
            r == sedge_mirror_s(self),
    {
        SupportingEdge { edge: self.edge.mirrored(), normal: self.normal.neg() }
    }

    pub fn transformed(self, pose: Pose) -> (r: SupportingEdge)
        requires
            -2 * SCALE <= pose.rotation.c <= 2 * SCALE,
            -2 * SCALE <= pose.rotation.s <= 2 * SCALE,
            vec_wf(self.edge.start),
            vec_wf(self.edge.dir),
            vec_wf(self.normal),
            vec_wf(pose.translation),
            -i64::MAX <= 2 * abs_s(self.edge.start.x as int) + 2 * abs_s(self.edge.start.y as int)
                + 2 + abs_s(pose.translation.x as int) <= i64::MAX,
            -i64::MAX <= 2 * abs_s(self.edge.start.x as int) + 2 * abs_s(self.edge.start.y as int)
                + 2 + abs_s(pose.translation.y as int) <= i64::MAX,
        ensures
            r == sedge_tf_s(self, pose),
            abs_s(r.edge.start.x as int) <= 2 * abs_s(self.edge.start.x as int) + 2 * abs_s(
                self.edge.start.y as int,
            ) + 2 + abs_s(pose.translation.x as int),
            abs_s(r.edge.start.y as int) <= 2 * abs_s(self.edge.start.x as int) + 2 * abs_s(
                self.edge.start.y as int,
            ) + 2 + abs_s(pose.translation.y as int),
            r.edge.length == self.edge.length,
            r.edge.dir == rotate_v_s(pose.rotation, self.edge.dir),
            r.normal == rotate_v_s(pose.rotation, self.normal),
    {
        SupportingEdge {
            edge: self.edge.transformed(pose),
            normal: pose.rotation.rotate(self.normal),
        }
    }
}

/// A possible axis of separation, with the face it belongs to.
#[derive(Clone, Copy, Debug, PartialEq, Eq, Structural)]
pub struct SeparatingAxis {
    pub axis: Vec2,
    pub extent: i64,
    pub edge: Edge,
    pub symmetrical: bool,
}

/// An axis mirrored through the origin.
pub open spec fn axis_mirror_s(a: SeparatingAxis) -> SeparatingAxis {
    SeparatingAxis {
        axis: vneg_s(a.axis),
        extent: a.extent,
        edge: edge_mirror_s(a.edge),
        symmetrical: a.symmetrical,
    }
}

impl SeparatingAxis {
    /// Mirror the axis and its face through the origin. Only symmetrical
    /// axes make sense to mirror.
    pub fn mirrored(self) -> (r: SeparatingAxis)
        requires
            self.symmetrical,
            self.axis.x > i64::MIN,
            self.axis.y > i64::MIN,
            self.edge.start.x > i64::MIN,
            self.edge.start.y > i64::MIN,
            self.edge.dir.x > i64::MIN,
            self.edge.dir.y > i64::MIN,
        ensures
            r == axis_mirror_s(self),
    {
        SeparatingAxis {
            axis: self.axis.neg(),
            extent: self.extent,
            edge: self.edge.mirrored(),
            symmetrical: self.symmetrical,
        }
    }
}

//
// EDGE CLIP
//

/// How one edge lies against another.
#[derive(Clone, Copy, Debug, PartialEq, Eq, Structural)]
pub enum EdgeClipResult {
    /// The edges intersect: a single contact at a known location.
    Intersects,
    /// The second edge crosses the slab of the first between these two
    /// parameters along itself, both clamped into its own range.
    Passes { enters: i64, exits: i64 },
    /// The second edge lies entirely outside the slab of the first, or is
    /// exactly perpendicular to it without intersecting.
    Misses,
}

/// The exact clip of `edge` against the slab spanned by `target`.
/// Quotients saturate instead of overflowing where the edges are nearly
/// parallel; an exactly parallel pair never reaches the quotient because the
/// intersection test is gated on a nonzero denominator, and an exactly
/// perpendicular non-intersecting pair counts as a miss.
pub open spec fn clip_edge_s(target: Edge, edge: Edge) -> EdgeClipResult {
    let sd = vsub_s(target.start, edge.start);
    let denom = fmul_s(edge.dir.x as int, -target.dir.y as int) - fmul_s(
        -target.dir.x as int,
        edge.dir.y as int,
    );
    let t0 = fdiv_sat_s(
        fmul_s(sd.x as int, -target.dir.y as int) - fmul_s(-target.dir.x as int, sd.y as int),
        denom,
    );
    let t1 = fdiv_sat_s(
        fmul_s(edge.dir.x as int, sd.y as int) - fmul_s(sd.x as int, edge.dir.y as int),
        denom,
    );
    if denom != 0 && 0 <= t0 <= edge.length && 0 <= t1 <= target.length {
        EdgeClipResult::Intersects
    } else {
        let dist_dot_dir2 = dot_s(sd, target.dir);
        let dirs_dot = dot_s(edge.dir, target.dir);
        if dirs_dot == 0 {
            EdgeClipResult::Misses
        } else {
            let start_clip_t = fdiv_sat_s(dist_dot_dir2, dirs_dot);
            let end_clip_t = fdiv_sat_s(target.length + dist_dot_dir2, dirs_dot);
            if (start_clip_t <= 0 && end_clip_t <= 0) || (start_clip_t >= edge.length && end_clip_t
                >= edge.length) {
                EdgeClipResult::Misses
            } else {
                let lo = if start_clip_t < end_clip_t {
                    start_clip_t
                } else {
                    end_clip_t
                };
                let hi = if start_clip_t < end_clip_t {
                    end_clip_t
                } else {
                    start_clip_t
                };
                EdgeClipResult::Passes {
                    enters: clamp_s(lo as int, 0, edge.length as int) as i64,
                    exits: clamp_s(hi as int, 0, edge.length as int) as i64,
                }
            }
        }
    }
}

/// Clip `edge` against the slab spanned by `target` and its side planes.
pub fn clip_edge(target: Edge, edge: Edge) -> (r: EdgeClipResult)
    requires
        edge_bounded(target),
        edge_bounded(edge),
    ensures
        r == clip_edge_s(target, edge),
        r matches EdgeClipResult::Passes { enters, exits } ==> 0 <= enters <= exits
            <= edge.length,
{
    let sd = target.start.sub(edge.start);
    proof {
        lemma_dir_term(edge.dir.x as int, target.dir.y as int);
        lemma_dir_term(target.dir.x as int, edge.dir.y as int);
        lemma_cross_term(sd.x as int, target.dir.y as int);
        lemma_cross_term(sd.y as int, target.dir.x as int);
        lemma_cross_term(sd.y as int, edge.dir.x as int);
        lemma_cross_term(sd.x as int, edge.dir.y as int);
    }
    // Cramer's rule for the intersection parameters along both edges;
    // a zero denominator means exactly parallel directions and skips
    // straight to the slab test
    let denom = fmul(edge.dir.x, -target.dir.y) - fmul(-target.dir.x, edge.dir.y);
    if denom != 0 {
        let t0 = fdiv_sat(fmul(sd.x, -target.dir.y) - fmul(-target.dir.x, sd.y), denom);
        let t1 = fdiv_sat(fmul(edge.dir.x, sd.y) - fmul(sd.x, edge.dir.y), denom);
        if 0 <= t0 && t0 <= edge.length && 0 <= t1 && t1 <= target.length {
            return EdgeClipResult::Intersects;
        }
    }
    let dist_dot_dir2 = sd.dot(target.dir);
    let dirs_dot = edge.dir.dot(target.dir);
    if dirs_dot == 0 {
        return EdgeClipResult::Misses;
    }
    let start_clip_t = fdiv_sat(dist_dot_dir2, dirs_dot);
    let end_clip_t = fdiv_sat(target.length + dist_dot_dir2, dirs_dot);
    if (start_clip_t <= 0 && end_clip_t <= 0) || (start_clip_t >= edge.length && end_clip_t
        >= edge.length) {
        return EdgeClipResult::Misses;
    }
    let (lo, hi) = if start_clip_t < end_clip_t {
        (start_clip_t, end_clip_t)
    } else {
        (end_clip_t, start_clip_t)
    };
    EdgeClipResult::Passes {
        enters: iclamp(lo, 0, edge.length),
        exits: iclamp(hi, 0, edge.length),
    }
}

/// A product of two direction components stays within the multiplier's
/// domain and descales to a few units.
proof fn lemma_dir_term(a: int, b: int)
    requires
        -3 * SCALE <= a <= 3 * SCALE,
        -3 * SCALE <= b <= 3 * SCALE,
    ensures
        -crate::fixed::FMUL_PROD_LIM <= a * b <= crate::fixed::FMUL_PROD_LIM,
        -crate::fixed::FMUL_PROD_LIM <= a * -b <= crate::fixed::FMUL_PROD_LIM,
        -crate::fixed::FMUL_PROD_LIM <= -a * b <= crate::fixed::FMUL_PROD_LIM,
        abs_s(fmul_s(a, b)) <= 9 * SCALE + 1,
        abs_s(fmul_s(a, -b)) <= 9 * SCALE + 1,
        abs_s(fmul_s(-a, b)) <= 9 * SCALE + 1,
{
    let s = SCALE as int;
    assert(-(9 * s * s) <= a * b <= 9 * s * s && a * -b == -(a * b) && -a * b == -(a * b)
        && 9 * s * s <= crate::fixed::FMUL_PROD_LIM) by (nonlinear_arith)
        requires
            -3 * s <= a <= 3 * s,
            -3 * s <= b <= 3 * s,
            s == 1_000_000_000int,
            crate::fixed::FMUL_PROD_LIM == 9_000_000_000_000_000_000_000_000_000i128,
    ;
    crate::fixed::lemma_div_in_range(a * b, 9 * s * s, s);
    crate::fixed::lemma_div_in_range(-(a * b), 9 * s * s, s);
    assert((9 * s * s) / s == 9 * s) by (nonlinear_arith)
        requires
            s == 1_000_000_000int,
    ;
}

/// A product of a coordinate and a direction component stays within the
/// multiplier's domain.
proof fn lemma_cross_term(a: int, b: int)
    requires
        -2 * COORD_LIM <= a <= 2 * COORD_LIM,
        -3 * SCALE <= b <= 3 * SCALE,
    ensures
        -crate::fixed::FMUL_PROD_LIM <= a * b <= crate::fixed::FMUL_PROD_LIM,
        -crate::fixed::FMUL_PROD_LIM <= a * -b <= crate::fixed::FMUL_PROD_LIM,
        -crate::fixed::FMUL_PROD_LIM <= -b * a <= crate::fixed::FMUL_PROD_LIM,
        -crate::fixed::FMUL_PROD_LIM <= b * a <= crate::fixed::FMUL_PROD_LIM,
        abs_s(fmul_s(a, b)) <= 6 * COORD_LIM + 1,
        abs_s(fmul_s(a, -b)) <= 6 * COORD_LIM + 1,
        abs_s(fmul_s(-b, a)) <= 6 * COORD_LIM + 1,
        abs_s(fmul_s(b, a)) <= 6 * COORD_LIM + 1,
{
    let s = SCALE as int;
    let lim = 6 * (COORD_LIM as int) * s;
    assert(-lim <= a * b <= lim && a * -b == -(a * b) && -b * a == -(a * b) && b * a == a * b
        && lim <= crate::fixed::FMUL_PROD_LIM) by (nonlinear_arith)
        requires
            -2 * COORD_LIM <= a <= 2 * COORD_LIM,
            -3 * SCALE <= b <= 3 * SCALE,
            lim == 6 * (COORD_LIM as int) * s,
            s == SCALE as int,
            COORD_LIM == 300_000_000_000_000i64,
            SCALE == 1_000_000_000i64,
            crate::fixed::FMUL_PROD_LIM == 9_000_000_000_000_000_000_000_000_000i128,
    ;
    crate::fixed::lemma_div_in_range(a * b, lim, s);
    crate::fixed::lemma_div_in_range(-(a * b), lim, s);
    assert(lim / s == 6 * COORD_LIM) by (nonlinear_arith)
        requires
            lim == 6 * (COORD_LIM as int) * s,
            s == 1_000_000_000int,
            COORD_LIM == 300_000_000_000_000i64,
    ;
}

//
// circle special cases
//


/// The contact between two circles, as a function of the poses and radii;
/// the functional form of `circle_circle_post`.
#[verifier::opaque]
pub open spec fn circle_circle_s(pose1: Pose, r1: i64, pose2: Pose, r2: i64) -> ContactResult {
    let dist = vsub_s(pose2.translation, pose1.translation);
    let dsq = sq_raw_s(dist);
    let rsum = r1 + r2;
    let normal = if dsq < CC_EPS_SQ {
        Vec2 { x: SCALE, y: 0i64 }
    } else {
        normalize_s(dist)
    };
    if dsq < CC_EPS_SQ || dsq < rsum * rsum {
        ContactResult::One(
            Contact {
                normal: UnitVec2 { v: normal },
                offsets: [
                    rotate_v_s(rot_rev_s(pose1.rotation), vscale_s(r1 as int, normal)),
                    rotate_v_s(rot_rev_s(pose2.rotation), vscale_s(-r2 as int, normal)),
                ],
            },
        )
    } else {
        ContactResult::Zero
    }
}

/// What `circle_circle` returns: one contact along the centre-to-centre
/// direction exactly when the raw squared centre distance is under the
/// squared radius sum, with the x axis standing in when the centres
/// coincide within `CC_EPS_SQ`.
pub open spec fn circle_circle_post(
    pose1: Pose,
    r1: i64,
    pose2: Pose,
    r2: i64,
    r: ContactResult,
) -> bool {
    let dist = vsub_s(pose2.translation, pose1.translation);
    let dsq = sq_raw_s(dist);
    let rsum = r1 + r2;
    match r {
        ContactResult::Zero => dsq >= CC_EPS_SQ && dsq >= rsum * rsum,
        ContactResult::One(c) => {
            &&& (dsq < CC_EPS_SQ || dsq < rsum * rsum)
            &&& c.normal.v == if dsq < CC_EPS_SQ {
                Vec2 { x: SCALE, y: 0i64 }
            } else {
                normalize_s(dist)
            }
            &&& c.offsets[0] == rotate_v_s(
                rot_rev_s(pose1.rotation),
                vscale_s(r1 as int, c.normal.v),
            )
            &&& c.offsets[1] == rotate_v_s(
                rot_rev_s(pose2.rotation),
                vscale_s(-r2 as int, c.normal.v),
            )
        },
        ContactResult::Two(_, _) => false,
    }
}

/// The exact contact between two circles; see `circle_circle_post`.
pub fn circle_circle(pose1: Pose, r1: i64, pose2: Pose, r2: i64) -> (r: ContactResult)
    requires
        pose_wf(pose1, ROTOR_TOL as int, TRANS_LIM as int),
        pose_wf(pose2, ROTOR_TOL as int, TRANS_LIM as int),
        0 <= r1 <= SHAPE_LIM,
        0 <= r2 <= SHAPE_LIM,
    ensures
        result_wf(r),
        circle_circle_post(pose1, r1, pose2, r2, r),
        r == circle_circle_s(pose1, r1, pose2, r2),
{
    proof {
        reveal(circle_circle_s);
    }
    let dist = pose2.translation.sub(pose1.translation);
    let dist_sq = dist.mag_sq_raw();
    let r_sum = r1 + r2;
    proof {
        lemma_prod_bound(r_sum as int, r_sum as int, 2 * SHAPE_LIM as int, 2 * SHAPE_LIM as int);
    }
    let r_sum_sq: i128 = (r_sum as i128) * (r_sum as i128);

    let normal: UnitVec2 = if dist_sq < CC_EPS_SQ {
        // same position: consider the penetration to be on the x axis
        UnitVec2::unit_x()
    } else if dist_sq < r_sum_sq {
        // typical collision
        UnitVec2::new_normalize(dist)
    } else {
        return ContactResult::Zero;
    };

    ContactResult::One(
        Contact {
            normal,
            offsets: [
                pose1.rotation.reversed().rotate(normal.v.scaled(r1)),
                pose2.rotation.reversed().rotate(normal.v.scaled(-r2)),
            ],
        },
    )
}

/// The direction from the closest boundary feature, or the x axis when the
/// feature coincides with the circle centre.
pub open spec fn feature_dir_s(dfc: Vec2) -> Vec2 {
    if sq_raw_s(dfc) < MIN_MAG_SQ {
        Vec2 { x: SCALE, y: 0i64 }
    } else {
        normalize_s(dfc)
    }
}


/// The contact between a circle and another sum shape, as a function of the
/// inputs; the functional form of `circle_any_post`.
#[verifier::opaque]
pub open spec fn circle_any_s(
    pose_circ: Pose,
    r_circ: i64,
    pose_other: Pose,
    shape_other: ColliderShape,
    r_other: i64,
) -> ContactResult {
    let lp = pose_comp_s(pose_inv_s(pose_other), pose_circ);
    let dist = lp.translation;
    let cbp = closest_boundary_point_s(shape_other.polygon, dist);
    let dfc = vsub_s(dist, cbp.pt);
    let dsq = sq_raw_s(dfc);
    let rsum = r_circ + r_other;
    let dir = feature_dir_s(dfc);
    if cbp.is_interior {
        ContactResult::One(
            Contact {
                normal: UnitVec2 { v: rotate_v_s(pose_other.rotation, dir) },
                offsets: [
                    rotate_v_s(rot_rev_s(lp.rotation), vscale_s(r_circ as int, dir)),
                    vsub_s(cbp.pt, vscale_s(r_other as int, dir)),
                ],
            },
        )
    } else if dsq < rsum * rsum {
        ContactResult::One(
            Contact {
                normal: UnitVec2 { v: rotate_v_s(pose_other.rotation, vneg_s(dir)) },
                offsets: [
                    rotate_v_s(rot_rev_s(lp.rotation), vscale_s(r_circ as int, vneg_s(dir))),
                    vadd_s(cbp.pt, vscale_s(r_other as int, dir)),
                ],
            },
        )
    } else {
        ContactResult::Zero
    }
}

/// What `circle_any` returns: one contact through the closest boundary
/// point of the other shape, facing away from the circle, computed in the
/// other shape's local frame. A centre exactly on the boundary falls back to
/// the x axis as the feature direction.
pub open spec fn circle_any_post(
    pose_circ: Pose,
    r_circ: i64,
    pose_other: Pose,
    shape_other: ColliderShape,
    r_other: i64,
    r: ContactResult,
) -> bool {
    let lp = pose_comp_s(pose_inv_s(pose_other), pose_circ);
    let dist = lp.translation;
    let cbp = closest_boundary_point_s(shape_other.polygon, dist);
    let dfc = vsub_s(dist, cbp.pt);
    let dsq = sq_raw_s(dfc);
    let rsum = r_circ + r_other;
    let dir = feature_dir_s(dfc);
    match r {
        ContactResult::Zero => !cbp.is_interior && dsq >= rsum * rsum,
        ContactResult::One(c) => if cbp.is_interior {
            // the normal faces away from the circle: from inside, the
            // feature direction points into the other shape
            &&& c.normal.v == rotate_v_s(pose_other.rotation, dir)
            &&& c.offsets[0] == rotate_v_s(rot_rev_s(lp.rotation), vscale_s(r_circ as int, dir))
            &&& c.offsets[1] == vsub_s(cbp.pt, vscale_s(r_other as int, dir))
        } else {
            &&& dsq < rsum * rsum
            &&& c.normal.v == rotate_v_s(pose_other.rotation, vneg_s(dir))
            &&& c.offsets[0] == rotate_v_s(
                rot_rev_s(lp.rotation),
                vscale_s(r_circ as int, vneg_s(dir)),
            )
            &&& c.offsets[1] == vadd_s(cbp.pt, vscale_s(r_other as int, dir))
        },
        ContactResult::Two(_, _) => false,
    }
}

/// The exact contact between a circle and any other sum shape; see
/// `circle_any_post`.
#[verifier::rlimit(100)]
#[verifier::spinoff_prover]
pub fn circle_any(
    pose_circ: Pose,
    r_circ: i64,
    pose_other: Pose,
    shape_other: ColliderShape,
    r_other: i64,
) -> (r: ContactResult)
    requires
        pose_wf(pose_circ, ROTOR_TOL as int, TRANS_LIM as int),
        pose_wf(pose_other, ROTOR_TOL as int, TRANS_LIM as int),
        shape_wf(shape_other),
        0 <= r_circ <= SHAPE_LIM,
        r_other == shape_other.circle_r,
    ensures
        result_wf(r),
        circle_any_post(pose_circ, r_circ, pose_other, shape_other, r_other, r),
        r == circle_any_s(pose_circ, r_circ, pose_other, shape_other, r_other),
{
    proof {
        reveal(circle_any_s);
    }
    // work in the local space of the other shape
    let pose_circ_local = pose_other.inversed().compose(pose_circ);
    proof {
        crate::rotor::lemma_rotor_comp_band(
            rot_rev_s(pose_other.rotation),
            pose_circ.rotation,
            ROTOR_TOL as int,
            ROTOR_TOL as int,
        );
    }
    let dist = pose_circ_local.translation;

    let closest_pt = shape_other.polygon.closest_boundary_point(dist);
    let dist_from_closest = dist.sub(closest_pt.pt);
    let dir_from_closest: UnitVec2 = if dist_from_closest.mag_sq_raw() < MIN_MAG_SQ {
        UnitVec2::unit_x()
    } else {
        UnitVec2::new_normalize(dist_from_closest)
    };
    let local_rev = pose_circ_local.rotation.reversed();

    if closest_pt.is_interior {
        let normal_local = dir_from_closest.v;
        let world_normal = pose_other.rotation.rotate(normal_local);
        proof {
            lemma_feature_normal_band(pose_other.rotation, normal_local, world_normal);
        }
        ContactResult::One(
            Contact {
                // the feature direction points inward into the other shape,
                // which is away from the circle
                normal: UnitVec2 { v: world_normal },
                offsets: [
                    local_rev.rotate(normal_local.scaled(r_circ)),
                    closest_pt.pt.sub(normal_local.scaled(r_other)),
                ],
            },
        )
    } else {
        let r_sum = r_circ + r_other;
        proof {
            lemma_prod_bound(
                r_sum as int,
                r_sum as int,
                2 * SHAPE_LIM as int,
                2 * SHAPE_LIM as int,
            );
        }
        let r_sum_sq: i128 = (r_sum as i128) * (r_sum as i128);
        let dist_sq = dist_from_closest.mag_sq_raw();
        if dist_sq >= r_sum_sq {
            ContactResult::Zero
        } else {
            let away = dir_from_closest.v.neg();
            let world_normal = pose_other.rotation.rotate(away);
            proof {
                lemma_neg_keeps_unit(dir_from_closest.v);
                lemma_feature_normal_band(pose_other.rotation, away, world_normal);
            }
            ContactResult::One(
                Contact {
                    normal: UnitVec2 { v: world_normal },
                    offsets: [
                        local_rev.rotate(away.scaled(r_circ)),
                        closest_pt.pt.add(dir_from_closest.v.scaled(r_other)),
                    ],
                },
            )
        }
    }
}

/// A feature direction rotated by an input pose's rotor is a well-formed
/// contact normal.
proof fn lemma_feature_normal_band(rot: crate::rotor::Rotor2, dir: Vec2, w: Vec2)
    requires
        rotor_wf(rot, ROTOR_TOL as int),
        is_unit(dir, UNIT_TOL as int),
        w.x == crate::rotor::rot_x_s(rot, dir),
        w.y == crate::rotor::rot_y_s(rot, dir),
    ensures
        is_unit(w, NORMAL_TOL as int),
{
    crate::rotor::lemma_rotate_unit_band(rot, dir, w, ROTOR_TOL as int, UNIT_TOL as int);
}

//
// generic test for all other shape pairs
//

/// One separating-axis candidate: a face axis and which shape owns it.
#[derive(Clone, Copy, Debug, PartialEq, Eq, Structural)]
pub struct AxisCand {
    pub axis: SeparatingAxis,
    pub owner: usize,
}

/// An axis-aligned exact unit direction.
pub open spec fn exact_axis(v: Vec2) -> bool {
    ||| (v.y == 0 && (v.x == SCALE || v.x == -SCALE))
    ||| (v.x == 0 && (v.y == SCALE || v.y == -SCALE))
}

/// The bounds every candidate of the closed polygon set satisfies.
pub open spec fn cand_ok(c: AxisCand) -> bool {
    &&& c.owner <= 1
    &&& c.axis.symmetrical
    &&& exact_axis(c.axis.axis)
    &&& 0 <= c.axis.extent <= SHAPE_LIM
    &&& exact_axis(c.axis.edge.dir)
    &&& abs_s(c.axis.edge.start.x as int) <= SHAPE_LIM
    &&& abs_s(c.axis.edge.start.y as int) <= SHAPE_LIM
    &&& 0 <= c.axis.edge.length <= 2 * SHAPE_LIM
}

/// The separating-axis candidates of both shapes, the first shape's first.
#[verifier::opaque]
pub open spec fn cands_s(shapes: [ColliderShape; 2]) -> Seq<AxisCand> {
    separating_axes_s(shapes[0].polygon).map(
        |i: int, a: SeparatingAxis| AxisCand { axis: a, owner: 0usize },
    ) + separating_axes_s(shapes[1].polygon).map(
        |i: int, a: SeparatingAxis| AxisCand { axis: a, owner: 1usize },
    )
}

/// The pose of the shape opposite `o`, in the frame of shape `o`.
#[verifier::opaque]
pub open spec fn rel_pose_s(poses: [Pose; 2], o: int) -> Pose {
    let rp = pose_comp_s(pose_inv_s(poses[0]), poses[1]);
    if o == 0 {
        pose_inv_s(rp)
    } else {
        rp
    }
}

/// A candidate axis oriented towards the other shape; every candidate of
/// the closed polygon set is symmetrical, so an axis that points away is
/// mirrored rather than skipped.
#[verifier::opaque]
pub open spec fn oriented_s(c: AxisCand, poses: [Pose; 2]) -> SeparatingAxis {
    let dist = rel_pose_s(poses, 1 - c.owner as int).translation;
    if dot_s(dist, c.axis.axis) >= 0 {
        c.axis
    } else {
        axis_mirror_s(c.axis)
    }
}

/// The overlap depth along one oriented candidate axis: the sum of both
/// shapes' extents towards each other, minus their distance along the axis.
#[verifier::opaque]
pub open spec fn depth_s(c: AxisCand, poses: [Pose; 2], shapes: [ColliderShape; 2]) -> int {
    let o = c.owner as int;
    let a = oriented_s(c, poses);
    let dist = rel_pose_s(poses, 1 - o).translation;
    let awo = vneg_s(rotate_v_s(rel_pose_s(poses, o).rotation, a.axis));
    a.extent + shapes[0].circle_r + projected_extent_s(shapes[1 - o].polygon, awo)
        + shapes[1].circle_r - dot_s(dist, a.axis)
}

/// The separating-axis scan from index `i` with the best depth and index so
/// far: stops separated at the first nonpositive depth, else keeps the
/// strictly smallest depth. Returns (separated, best index, best depth).
#[verifier::opaque]
pub open spec fn scan_s(
    cands: Seq<AxisCand>,
    poses: [Pose; 2],
    shapes: [ColliderShape; 2],
    i: int,
    best_depth: int,
    best_idx: int,
) -> (bool, int, int)
    decreases cands.len() - i,
{
    if i < 0 || i >= cands.len() {
        (false, best_idx, best_depth)
    } else {
        let d = depth_s(cands[i], poses, shapes);
        if d <= 0 {
            (true, i, d)
        } else if d < best_depth {
            scan_s(cands, poses, shapes, i + 1, d, i)
        } else {
            scan_s(cands, poses, shapes, i + 1, best_depth, best_idx)
        }
    }
}

/// A contact seen from the other body.
pub open spec fn flip_c_s(c: Contact) -> Contact {
    Contact { normal: UnitVec2 { v: vneg_s(c.normal.v) }, offsets: [c.offsets[1], c.offsets[0]] }
}

/// A result seen from the body that owns the penetration axis: flipped when
/// the axis came from the second shape.
pub open spec fn orient_s(flip: bool, r: ContactResult) -> ContactResult {
    if flip {
        flip_result_s(r)
    } else {
        r
    }
}

/// The single-contact path after the separating-axis scan: either the
/// incident corner lies within the owner's extent, or the closest points of
/// the two polygon parts are tested circle-against-circle.
#[verifier::opaque]
pub open spec fn single_point_s(
    own_pose: Pose,
    own_rel: Pose,
    flip: bool,
    r_own: i64,
    r_oth: i64,
    pen: SeparatingAxis,
    inc_inner: SupportingEdge,
) -> ContactResult {
    let cp = inc_inner.edge.start;
    if dot_s(cp, pen.axis) <= pen.extent {
        // the polygon parts overlap along the axis: a certain collision
        let sp = vsub_s(cp, vscale_s(r_oth as int, pen.axis));
        let sd = pen.extent - dot_s(sp, pen.axis);
        let nw = rotate_v_s(own_pose.rotation, pen.axis);
        orient_s(
            flip,
            ContactResult::One(
                Contact {
                    normal: UnitVec2 { v: nw },
                    offsets: [vadd_s(sp, vscale_s(sd, pen.axis)), pose_pt_s(own_rel, sp)],
                },
            ),
        )
    } else {
        corner_s(own_pose, own_rel, flip, r_own, r_oth, pen, cp)
    }
}

/// The rounded-corner fallback: the closest points of the two polygon parts
/// tested circle-against-circle with the sum of the radii.
#[verifier::opaque]
pub open spec fn corner_s(
    own_pose: Pose,
    own_rel: Pose,
    flip: bool,
    r_own: i64,
    r_oth: i64,
    pen: SeparatingAxis,
    cp: Vec2,
) -> ContactResult {
    let e2c = vsub_s(cp, pen.edge.start);
    let tp = dot_s(e2c, pen.edge.dir);
    let tc = clamp_s(tp, 0, pen.edge.length as int);
    let cop = vadd_s(pen.edge.start, vscale_s(tc, pen.edge.dir));
    let dbc = vsub_s(cp, cop);
    let dsq = sq_raw_s(dbc);
    let rsum = r_own + r_oth;
    if dsq >= rsum * rsum {
        ContactResult::Zero
    } else {
        let ax = feature_dir_s(dbc);
        let axw = rotate_v_s(own_pose.rotation, ax);
        orient_s(
            flip,
            ContactResult::One(
                Contact {
                    normal: UnitVec2 { v: axw },
                    offsets: [
                        vadd_s(cop, vscale_s(r_own as int, ax)),
                        pose_pt_s(own_rel, vsub_s(cp, vscale_s(r_oth as int, ax))),
                    ],
                },
            ),
        )
    }
}

/// The two-contact attempt when the clip reports a crossing span: two
/// contacts when the span keeps positive depth at both ends, a miss for two
/// sharp polygons, else the single-contact path.
#[verifier::opaque]
pub open spec fn passes_s(
    own_pose: Pose,
    own_rel: Pose,
    flip: bool,
    r_own: i64,
    r_oth: i64,
    pen: SeparatingAxis,
    inc_inner: SupportingEdge,
    inc_outer: Edge,
    enters: i64,
    exits: i64,
) -> ContactResult {
    let start_depth = pen.extent + r_own - dot_s(inc_outer.start, pen.axis);
    let dda = dot_s(inc_outer.dir, pen.axis);
    let enter_depth = start_depth - fmul_s(enters as int, dda);
    let exit_depth = start_depth - fmul_s(exits as int, dda);
    if enter_depth > 0 && exit_depth > 0 {
        two_contacts_s(
            own_pose,
            own_rel,
            flip,
            pen,
            inc_outer,
            enters,
            exits,
            enter_depth as i64,
            exit_depth as i64,
        )
    } else if r_own == 0 && r_oth == 0 {
        ContactResult::Zero
    } else {
        single_point_s(own_pose, own_rel, flip, r_own, r_oth, pen, inc_inner)
    }
}

/// The two contacts at the ends of a clipped span with positive depths.
#[verifier::opaque]
pub open spec fn two_contacts_s(
    own_pose: Pose,
    own_rel: Pose,
    flip: bool,
    pen: SeparatingAxis,
    inc_outer: Edge,
    enters: i64,
    exits: i64,
    enter_depth: i64,
    exit_depth: i64,
) -> ContactResult {
    let ep = vadd_s(inc_outer.start, vscale_s(enters as int, inc_outer.dir));
    let xp = vadd_s(inc_outer.start, vscale_s(exits as int, inc_outer.dir));
    let nw = rotate_v_s(own_pose.rotation, pen.axis);
    orient_s(
        flip,
        ContactResult::Two(
            Contact {
                normal: UnitVec2 { v: nw },
                offsets: [
                    vadd_s(ep, vscale_s(enter_depth as int, pen.axis)),
                    pose_pt_s(own_rel, ep),
                ],
            },
            Contact {
                normal: UnitVec2 { v: nw },
                offsets: [
                    vadd_s(xp, vscale_s(exit_depth as int, pen.axis)),
                    pose_pt_s(own_rel, xp),
                ],
            },
        ),
    )
}

/// Everything after the separating-axis scan settled on a best candidate
/// axis: orient it towards the other shape, clip the incident edge of the
/// other shape against the owning face; two contacts when the clipped span
/// keeps positive depth at both ends, else the single-contact path; sharp
/// polygons that fail the clip miss outright.
#[verifier::opaque]
pub open spec fn post_sat_s(
    own_pose: Pose,
    own_rel: Pose,
    oth_rel: Pose,
    flip: bool,
    r_own: i64,
    r_oth: i64,
    other_poly: ColliderPolygon,
    cand_axis: SeparatingAxis,
) -> ContactResult {
    let dist = oth_rel.translation;
    let pen = if dot_s(dist, cand_axis.axis) >= 0 {
        cand_axis
    } else {
        axis_mirror_s(cand_axis)
    };
    let owning_edge = if r_own == 0 {
        pen.edge
    } else {
        edge_offset_s(pen.edge, vscale_s(r_own as int, pen.axis))
    };
    let paws = vneg_s(rotate_v_s(own_rel.rotation, pen.axis));
    match supporting_edge_s(other_poly, paws) {
        Option::None => ContactResult::Zero,
        Option::Some(inc_local) => {
            let inc_inner = sedge_tf_s(inc_local, oth_rel);
            let inc_outer = if r_oth == 0 {
                inc_inner.edge
            } else {
                edge_offset_s(inc_inner.edge, vscale_s(r_oth as int, inc_inner.normal))
            };
            let both_simple = r_own == 0 && r_oth == 0;
            match clip_edge_s(owning_edge, inc_outer) {
                EdgeClipResult::Passes { enters, exits } => passes_s(
                    own_pose,
                    own_rel,
                    flip,
                    r_own,
                    r_oth,
                    pen,
                    inc_inner,
                    inc_outer,
                    enters,
                    exits,
                ),
                EdgeClipResult::Misses => if both_simple {
                    ContactResult::Zero
                } else {
                    single_point_s(own_pose, own_rel, flip, r_own, r_oth, pen, inc_inner)
                },
                EdgeClipResult::Intersects => single_point_s(
                    own_pose,
                    own_rel,
                    flip,
                    r_own,
                    r_oth,
                    pen,
                    inc_inner,
                ),
            }
        },
    }
}

/// What the generic separating-axis test returns: `Zero` exactly when some
/// candidate axis separates the shapes or the post-scan paths rule a
/// contact out, else the one or two contacts of `post_sat_s`.
#[verifier::opaque]
pub open spec fn any_any_s(poses: [Pose; 2], shapes: [ColliderShape; 2]) -> ContactResult {
    let cands = cands_s(shapes);
    let scan = scan_s(cands, poses, shapes, 0, i64::MAX as int, 0);
    if scan.0 {
        ContactResult::Zero
    } else {
        let best = cands[scan.1];
        let owner = best.owner as int;
        post_sat_s(
            poses[owner],
            rel_pose_s(poses, owner),
            rel_pose_s(poses, 1 - owner),
            best.owner == 1,
            shapes[owner].circle_r,
            shapes[1 - owner].circle_r,
            shapes[1 - owner].polygon,
            best.axis,
        )
    }
}

/// The tolerance of the rotor of a relative pose: two input rotors
/// composed once.
pub const REL_ROTOR_TOL: i64 = 300_000_000_000;

/// An exact axis-aligned unit direction is a unit vector with no tolerance.
pub proof fn lemma_exact_axis_unit(v: Vec2)
    requires
        exact_axis(v),
    ensures
        is_unit(v, 0),
        exact_axis(vneg_s(v)),
{
    assert((SCALE as int) * (SCALE as int) == (-SCALE as int) * (-SCALE as int) && 0 * 0 == 0int)
        by (nonlinear_arith);
}

/// A scalar times an exact unit is exact: one component carries the scalar
/// with its sign, the other is zero.
pub proof fn lemma_scale_exact(fv: int, a: Vec2)
    requires
        exact_axis(a),
        -1_000_000_000_000_000 <= fv <= 1_000_000_000_000_000,
    ensures
        abs_s(vscale_s(fv, a).x as int) <= abs_s(fv),
        abs_s(vscale_s(fv, a).y as int) <= abs_s(fv),
        -abs_s(fv) <= fmul_s(fv, a.x as int) <= abs_s(fv),
        -abs_s(fv) <= fmul_s(fv, a.y as int) <= abs_s(fv),
        -crate::fixed::FMUL_PROD_LIM <= fv * a.x <= crate::fixed::FMUL_PROD_LIM,
        -crate::fixed::FMUL_PROD_LIM <= fv * a.y <= crate::fixed::FMUL_PROD_LIM,
{
    let s = SCALE as int;
    lemma_fmul_cancel(fv);
    assert(fv * 0 == 0 && -crate::fixed::FMUL_PROD_LIM <= fv * s
        <= crate::fixed::FMUL_PROD_LIM && -crate::fixed::FMUL_PROD_LIM <= fv * -s
        <= crate::fixed::FMUL_PROD_LIM) by (nonlinear_arith)
        requires
            s == 1_000_000_000int,
            -1_000_000_000_000_000 <= fv <= 1_000_000_000_000_000,
            crate::fixed::FMUL_PROD_LIM == 9_000_000_000_000_000_000_000_000_000i128,
    ;
    assert(fmul_s(fv, 0) == 0int / s);
    assert(0 == 0 * s + 0int) by (nonlinear_arith);
    vstd::arithmetic::div_mod::lemma_fundamental_div_mod_converse(0, s, 0, 0);
}

/// Multiplying by the scale itself and descaling cancels exactly, with
/// either sign.
proof fn lemma_fmul_cancel(fv: int)
    ensures
        fmul_s(fv, SCALE as int) == fv,
        fmul_s(fv, -(SCALE as int)) == -fv,
{
    let s = SCALE as int;
    assert(fv * s == fv * s + 0 && fv * -s == (-fv) * s + 0) by (nonlinear_arith);
    vstd::arithmetic::div_mod::lemma_fundamental_div_mod_converse(fv * s, s, fv, 0);
    vstd::arithmetic::div_mod::lemma_fundamental_div_mod_converse(fv * -s, s, -fv, 0);
}

/// A dot product against an exact axis picks out one coordinate, up to
/// sign.
pub proof fn lemma_dot_exact(v: Vec2, a: Vec2)
    requires
        exact_axis(a),
    ensures
        abs_s(dot_s(v, a)) <= abs_s(v.x as int) + abs_s(v.y as int),
{
    lemma_fmul_cancel(v.x as int);
    lemma_fmul_cancel(v.y as int);
    assert(fmul_s(v.x as int, 0) == 0 && fmul_s(v.y as int, 0) == 0) by {
        assert(v.x as int * 0 == 0 && v.y as int * 0 == 0) by (nonlinear_arith);
        assert(0 == 0 * (SCALE as int) + 0int) by (nonlinear_arith);
        vstd::arithmetic::div_mod::lemma_fundamental_div_mod_converse(0, SCALE as int, 0, 0);
    }
}

/// Every candidate drawn from the closed polygon set is well-behaved, and
/// a shape that is not a point contributes at least one.
pub proof fn lemma_axes_ok(p: ColliderPolygon)
    requires
        polygon_wf(p),
    ensures
        forall|k: int|
            0 <= k < separating_axes_s(p).len() ==> cand_ok(
                AxisCand { axis: #[trigger] separating_axes_s(p)[k], owner: 0 },
            ) && cand_ok(AxisCand { axis: separating_axes_s(p)[k], owner: 1 }),
        !(p is Point) ==> separating_axes_s(p).len() >= 1,
        separating_axes_s(p).len() <= 2,
{
    match p {
        ColliderPolygon::Point => {},
        ColliderPolygon::LineSegment { hl } => {
            assert forall|k: int| 0 <= k < separating_axes_s(p).len() implies cand_ok(
                AxisCand { axis: #[trigger] separating_axes_s(p)[k], owner: 0 },
            ) && cand_ok(AxisCand { axis: separating_axes_s(p)[k], owner: 1 }) by {
                assert(separating_axes_s(p)[0] == separating_axes_s(p)[k]);
            }
        },
        ColliderPolygon::Rect { hw, hh } => {
            assert forall|k: int| 0 <= k < separating_axes_s(p).len() implies cand_ok(
                AxisCand { axis: #[trigger] separating_axes_s(p)[k], owner: 0 },
            ) && cand_ok(AxisCand { axis: separating_axes_s(p)[k], owner: 1 }) by {
                if k == 0 {
                    assert(separating_axes_s(p)[0].extent == hw);
                } else {
                    assert(separating_axes_s(p)[1].extent == hh);
                }
            }
        },
    }
}

/// The supporting edge of a shape that is not a point always exists, with
/// bounded features.
proof fn lemma_supporting_edge_ok(p: ColliderPolygon, dir: Vec2)
    requires
        polygon_wf(p),
        !(p is Point),
    ensures
        supporting_edge_s(p, dir) is Some,
        ({
            let se = supporting_edge_s(p, dir)->Some_0;
            &&& exact_axis(se.edge.dir)
            &&& exact_axis(se.normal)
            &&& abs_s(se.edge.start.x as int) <= SHAPE_LIM
            &&& abs_s(se.edge.start.y as int) <= SHAPE_LIM
            &&& 0 <= se.edge.length <= 2 * SHAPE_LIM
        }),
{
    match p {
        ColliderPolygon::Point => {},
        ColliderPolygon::LineSegment { hl } => {
            assert(supporting_edge_s(p, dir) is Some);
        },
        ColliderPolygon::Rect { hw, hh } => {
            if dir.x >= 0 {
                if dir.y >= 0 {
                    assert(supporting_edge_s(p, dir)->Some_0.edge.start == (Vec2 {
                        x: (1 * hw) as i64,
                        y: (1 * hh) as i64,
                    }));
                } else {
                    assert(supporting_edge_s(p, dir)->Some_0.edge.start == (Vec2 {
                        x: (1 * hw) as i64,
                        y: ((-1) * hh) as i64,
                    }));
                }
            } else {
                if dir.y >= 0 {
                    assert(supporting_edge_s(p, dir)->Some_0.edge.start == (Vec2 {
                        x: ((-1) * hw) as i64,
                        y: (1 * hh) as i64,
                    }));
                } else {
                    assert(supporting_edge_s(p, dir)->Some_0.edge.start == (Vec2 {
                        x: ((-1) * hw) as i64,
                        y: ((-1) * hh) as i64,
                    }));
                }
            }
        },
    }
}

/// The separating-axis scan over all candidates: returns whether some axis
/// separates the shapes, and otherwise the index and depth of the axis of
/// least overlap; the exact evaluation of `scan_s` from the start.
#[verifier::rlimit(100)]
#[verifier::spinoff_prover]
fn sat_scan(
    cands: &Vec<AxisCand>,
    poses: [Pose; 2],
    shapes: [ColliderShape; 2],
    rel0: Pose,
    rp: Pose,
) -> (res: (bool, usize, i64))
    requires
        shape_wf(shapes[0]),
        shape_wf(shapes[1]),
        cands@ == cands_s(shapes),
        cands@.len() >= 1,
        forall|i: int| 0 <= i < cands@.len() ==> cand_ok(#[trigger] cands@[i]),
        rel0 == rel_pose_s(poses, 0),
        rp == rel_pose_s(poses, 1),
        rotor_wf(rel0.rotation, REL_ROTOR_TOL as int),
        rotor_wf(rp.rotation, REL_ROTOR_TOL as int),
        abs_s(rp.translation.x as int) <= 9_000_000_000_000,
        abs_s(rp.translation.y as int) <= 9_000_000_000_000,
        abs_s(rel0.translation.x as int) <= 37_000_000_000_000,
        abs_s(rel0.translation.y as int) <= 37_000_000_000_000,
    ensures
        ({
            let sc = scan_s(cands@, poses, shapes, 0, i64::MAX as int, 0);
            &&& res.0 == sc.0
            &&& !sc.0 ==> res.1 as int == sc.1 && res.2 as int == sc.2 && res.1 < cands@.len()
        }),
{
    proof {
        reveal(scan_s);
    }
    let n = cands.len();
    let mut best_depth: i64 = i64::MAX;
    let mut best_idx: usize = 0;
    let mut k: usize = 0;
    while k < n
        invariant
            shape_wf(shapes[0]),
            shape_wf(shapes[1]),
            cands@ == cands_s(shapes),
            forall|i: int| 0 <= i < cands@.len() ==> cand_ok(#[trigger] cands@[i]),
            rel0 == rel_pose_s(poses, 0),
            rp == rel_pose_s(poses, 1),
            rotor_wf(rel0.rotation, REL_ROTOR_TOL as int),
            rotor_wf(rp.rotation, REL_ROTOR_TOL as int),
            abs_s(rp.translation.x as int) <= 9_000_000_000_000,
            abs_s(rp.translation.y as int) <= 9_000_000_000_000,
            abs_s(rel0.translation.x as int) <= 37_000_000_000_000,
            abs_s(rel0.translation.y as int) <= 37_000_000_000_000,
            n == cands@.len(),
            1 <= n,
            k <= n,
            best_idx < n,
            scan_s(cands@, poses, shapes, 0, i64::MAX as int, 0) == scan_s(
                cands@,
                poses,
                shapes,
                k as int,
                best_depth as int,
                best_idx as int,
            ),
        decreases n - k,
    {
        let c = cands[k];
        let oth_rel = if c.owner == 0 {
            rp
        } else {
            rel0
        };
        let own_rel = if c.owner == 0 {
            rel0
        } else {
            rp
        };
        proof {
            reveal(scan_s);
            reveal(oriented_s);
            reveal(depth_s);
            lemma_dot_exact(oth_rel.translation, c.axis.axis);
            lemma_exact_axis_unit(c.axis.axis);
        }
        let dist = oth_rel.translation;
        let dd = dist.dot(c.axis.axis);
        let a = if dd >= 0 {
            c.axis
        } else {
            c.axis.mirrored()
        };
        proof {
            assert(a == oriented_s(cands@[k as int], poses));
            lemma_exact_axis_unit(a.axis);
            lemma_dot_exact(dist, a.axis);
        }
        let rotated = own_rel.rotation.rotate(a.axis);
        proof {
            crate::rotor::lemma_rotate_unit_band(
                own_rel.rotation,
                a.axis,
                rotated,
                REL_ROTOR_TOL as int,
                0,
            );
            lemma_neg_keeps_unit(rotated);
        }
        let awo = rotated.neg();
        let ext_other = if c.owner == 0 {
            shapes[1].polygon.projected_extent(awo)
        } else {
            shapes[0].polygon.projected_extent(awo)
        };
        let dd_or = dist.dot(a.axis);
        let depth = a.extent + shapes[0].circle_r + ext_other + shapes[1].circle_r - dd_or;
        proof {
            assert(depth as int == depth_s(cands@[k as int], poses, shapes));
        }
        if depth <= 0 {
            proof {
                assert(scan_s(cands@, poses, shapes, k as int, best_depth as int, best_idx as int)
                    == (true, k as int, depth as int));
            }
            return (true, k, depth);
        }
        if depth < best_depth {
            best_depth = depth;
            best_idx = k;
        }
        k += 1;
    }
    proof {
        reveal(scan_s);
    }
    (false, best_idx, best_depth)
}

/// The rounded-corner fallback; the exact evaluation of `corner_s`.
#[verifier::rlimit(100)]
#[verifier::spinoff_prover]
fn corner_point(
    own_pose: Pose,
    own_rel: Pose,
    flip: bool,
    r_own: i64,
    r_oth: i64,
    pen: SeparatingAxis,
    cp: Vec2,
) -> (r: ContactResult)
    requires
        pose_wf(own_pose, ROTOR_TOL as int, TRANS_LIM as int),
        rotor_wf(own_rel.rotation, REL_ROTOR_TOL as int),
        abs_s(own_rel.translation.x as int) <= 37_000_000_000_000,
        abs_s(own_rel.translation.y as int) <= 37_000_000_000_000,
        0 <= r_own <= SHAPE_LIM,
        0 <= r_oth <= SHAPE_LIM,
        exact_axis(pen.axis),
        0 <= pen.extent <= SHAPE_LIM,
        exact_axis(pen.edge.dir),
        abs_s(pen.edge.start.x as int) <= SHAPE_LIM,
        abs_s(pen.edge.start.y as int) <= SHAPE_LIM,
        0 <= pen.edge.length <= 2 * SHAPE_LIM,
        abs_s(cp.x as int) <= 46_000_000_000_000,
        abs_s(cp.y as int) <= 46_000_000_000_000,
    ensures
        result_wf(r),
        r == corner_s(own_pose, own_rel, flip, r_own, r_oth, pen, cp),
{
    proof {
        reveal(corner_s);
    }
    let e2c = cp.sub(pen.edge.start);
    proof {
        lemma_dot_exact(e2c, pen.edge.dir);
        lemma_exact_axis_unit(pen.edge.dir);
    }
    let tp = e2c.dot(pen.edge.dir);
    let tc = iclamp(tp, 0, pen.edge.length);
    proof {
        lemma_scale_exact(tc as int, pen.edge.dir);
    }
    let cop = pen.edge.start.add(pen.edge.dir.scaled(tc));
    let dbc = cp.sub(cop);
    let dsq = dbc.mag_sq_raw();
    let r_sum = r_own + r_oth;
    proof {
        lemma_prod_bound(r_sum as int, r_sum as int, 2 * SHAPE_LIM as int, 2 * SHAPE_LIM as int);
        assert((2 * SHAPE_LIM as int) * (2 * SHAPE_LIM as int)
            == 4_000_000_000_000_000_000_000_000int) by (nonlinear_arith)
            requires
                SHAPE_LIM == 1_000_000_000_000i64,
        ;
    }
    let r_sum_sq: i128 = (r_sum as i128) * (r_sum as i128);
    if dsq >= r_sum_sq {
        ContactResult::Zero
    } else {
        let ax: UnitVec2 = if dsq < MIN_MAG_SQ {
            UnitVec2::unit_x()
        } else {
            UnitVec2::new_normalize(dbc)
        };
        let axw = own_pose.rotation.rotate(ax.v);
        proof {
            crate::rotor::lemma_rotate_unit_band(
                own_pose.rotation,
                ax.v,
                axw,
                ROTOR_TOL as int,
                UNIT_TOL as int,
            );
        }
        let one = ContactResult::One(
            Contact {
                normal: UnitVec2 { v: axw },
                offsets: [
                    cop.add(ax.v.scaled(r_own)),
                    own_rel.transform_point(cp.sub(ax.v.scaled(r_oth))),
                ],
            },
        );
        if !flip {
            one
        } else {
            flip_contacts(one)
        }
    }
}

/// The single-contact path after the separating-axis scan; the exact
/// evaluation of `single_point_s`.
#[verifier::rlimit(100)]
#[verifier::spinoff_prover]
fn single_point(
    own_pose: Pose,
    own_rel: Pose,
    flip: bool,
    r_own: i64,
    r_oth: i64,
    pen: SeparatingAxis,
    inc_inner: SupportingEdge,
) -> (r: ContactResult)
    requires
        pose_wf(own_pose, ROTOR_TOL as int, TRANS_LIM as int),
        rotor_wf(own_rel.rotation, REL_ROTOR_TOL as int),
        abs_s(own_rel.translation.x as int) <= 37_000_000_000_000,
        abs_s(own_rel.translation.y as int) <= 37_000_000_000_000,
        0 <= r_own <= SHAPE_LIM,
        0 <= r_oth <= SHAPE_LIM,
        exact_axis(pen.axis),
        0 <= pen.extent <= SHAPE_LIM,
        exact_axis(pen.edge.dir),
        abs_s(pen.edge.start.x as int) <= SHAPE_LIM,
        abs_s(pen.edge.start.y as int) <= SHAPE_LIM,
        0 <= pen.edge.length <= 2 * SHAPE_LIM,
        abs_s(inc_inner.edge.start.x as int) <= 46_000_000_000_000,
        abs_s(inc_inner.edge.start.y as int) <= 46_000_000_000_000,
    ensures
        result_wf(r),
        r == single_point_s(own_pose, own_rel, flip, r_own, r_oth, pen, inc_inner),
{
    proof {
        reveal(single_point_s);
    }
    let cp = inc_inner.edge.start;
    proof {
        lemma_dot_exact(cp, pen.axis);
        lemma_scale_exact(r_oth as int, pen.axis);
    }
    if cp.dot(pen.axis) <= pen.extent {
        // the polygon parts overlap along the axis: a certain collision
        let sp = cp.sub(pen.axis.scaled(r_oth));
        proof {
            lemma_dot_exact(sp, pen.axis);
        }
        let sd = pen.extent - sp.dot(pen.axis);
        let nw = own_pose.rotation.rotate(pen.axis);
        proof {
            lemma_exact_axis_unit(pen.axis);
            crate::rotor::lemma_rotate_unit_band(
                own_pose.rotation,
                pen.axis,
                nw,
                ROTOR_TOL as int,
                0,
            );
            lemma_scale_exact(sd as int, pen.axis);
        }
        let one = ContactResult::One(
            Contact {
                normal: UnitVec2 { v: nw },
                offsets: [sp.add(pen.axis.scaled(sd)), own_rel.transform_point(sp)],
            },
        );
        if !flip {
            one
        } else {
            flip_contacts(one)
        }
    } else {
        corner_point(own_pose, own_rel, flip, r_own, r_oth, pen, cp)
    }
}

/// The two-contact attempt on a crossing clip span; the exact evaluation of
/// `passes_s`.
#[verifier::rlimit(100)]
#[verifier::spinoff_prover]
fn passes_branch(
    own_pose: Pose,
    own_rel: Pose,
    flip: bool,
    r_own: i64,
    r_oth: i64,
    pen: SeparatingAxis,
    inc_inner: SupportingEdge,
    inc_outer: Edge,
    enters: i64,
    exits: i64,
) -> (r: ContactResult)
    requires
        pose_wf(own_pose, ROTOR_TOL as int, TRANS_LIM as int),
        rotor_wf(own_rel.rotation, REL_ROTOR_TOL as int),
        abs_s(own_rel.translation.x as int) <= 37_000_000_000_000,
        abs_s(own_rel.translation.y as int) <= 37_000_000_000_000,
        0 <= r_own <= SHAPE_LIM,
        0 <= r_oth <= SHAPE_LIM,
        exact_axis(pen.axis),
        0 <= pen.extent <= SHAPE_LIM,
        exact_axis(pen.edge.dir),
        abs_s(pen.edge.start.x as int) <= SHAPE_LIM,
        abs_s(pen.edge.start.y as int) <= SHAPE_LIM,
        0 <= pen.edge.length <= 2 * SHAPE_LIM,
        abs_s(inc_inner.edge.start.x as int) <= 46_000_000_000_000,
        abs_s(inc_inner.edge.start.y as int) <= 46_000_000_000_000,
        abs_s(inc_outer.start.x as int) <= 50_000_000_000_000,
        abs_s(inc_outer.start.y as int) <= 50_000_000_000_000,
        is_unit(inc_outer.dir, REL_ROTOR_TOL as int + ROT_GROW as int),
        0 <= enters <= exits <= inc_outer.length,
        0 <= inc_outer.length <= 2 * SHAPE_LIM,
    ensures
        result_wf(r),
        r == passes_s(
            own_pose,
            own_rel,
            flip,
            r_own,
            r_oth,
            pen,
            inc_inner,
            inc_outer,
            enters,
            exits,
        ),
{
    proof {
        reveal(passes_s);
        lemma_dot_exact(inc_outer.start, pen.axis);
        lemma_dot_exact(inc_outer.dir, pen.axis);
    }
    let start_depth = pen.extent + r_own - inc_outer.start.dot(pen.axis);
    let dda = inc_outer.dir.dot(pen.axis);
    proof {
        lemma_prod_bound(enters as int, dda as int, 2 * SHAPE_LIM as int, 5 * SCALE as int);
        lemma_prod_bound(exits as int, dda as int, 2 * SHAPE_LIM as int, 5 * SCALE as int);
        crate::fixed::lemma_div_in_range(
            enters as int * dda as int,
            2 * (SHAPE_LIM as int) * (5 * SCALE as int),
            SCALE as int,
        );
        crate::fixed::lemma_div_in_range(
            exits as int * dda as int,
            2 * (SHAPE_LIM as int) * (5 * SCALE as int),
            SCALE as int,
        );
        assert((2 * (SHAPE_LIM as int) * (5 * SCALE as int)) / (SCALE as int) == 10 * SHAPE_LIM)
            by (nonlinear_arith)
            requires
                SHAPE_LIM == 1_000_000_000_000i64,
                SCALE == 1_000_000_000i64,
        ;
    }
    let enter_depth = start_depth - fmul(enters, dda);
    let exit_depth = start_depth - fmul(exits, dda);
    if enter_depth > 0 && exit_depth > 0 {
        two_contacts(own_pose, own_rel, flip, pen, inc_outer, enters, exits, enter_depth,
            exit_depth)
    } else if r_own == 0 && r_oth == 0 {
        ContactResult::Zero
    } else {
        single_point(own_pose, own_rel, flip, r_own, r_oth, pen, inc_inner)
    }
}

/// Build the two contacts at the ends of a clipped span; the exact
/// evaluation of `two_contacts_s`.
#[verifier::rlimit(100)]
#[verifier::spinoff_prover]
fn two_contacts(
    own_pose: Pose,
    own_rel: Pose,
    flip: bool,
    pen: SeparatingAxis,
    inc_outer: Edge,
    enters: i64,
    exits: i64,
    enter_depth: i64,
    exit_depth: i64,
) -> (r: ContactResult)
    requires
        pose_wf(own_pose, ROTOR_TOL as int, TRANS_LIM as int),
        rotor_wf(own_rel.rotation, REL_ROTOR_TOL as int),
        abs_s(own_rel.translation.x as int) <= 37_000_000_000_000,
        abs_s(own_rel.translation.y as int) <= 37_000_000_000_000,
        exact_axis(pen.axis),
        abs_s(inc_outer.start.x as int) <= 50_000_000_000_000,
        abs_s(inc_outer.start.y as int) <= 50_000_000_000_000,
        is_unit(inc_outer.dir, REL_ROTOR_TOL as int + ROT_GROW as int),
        0 <= enters <= exits <= inc_outer.length,
        0 <= inc_outer.length <= 2 * SHAPE_LIM,
        abs_s(enter_depth as int) <= 130_000_000_000_000,
        abs_s(exit_depth as int) <= 130_000_000_000_000,
    ensures
        result_wf(r),
        r == two_contacts_s(
            own_pose,
            own_rel,
            flip,
            pen,
            inc_outer,
            enters,
            exits,
            enter_depth,
            exit_depth,
        ),
{
    proof {
        reveal(two_contacts_s);
    }
    let ep = inc_outer.start.add(inc_outer.dir.scaled(enters));
    let xp = inc_outer.start.add(inc_outer.dir.scaled(exits));
    let nw = own_pose.rotation.rotate(pen.axis);
    proof {
        lemma_exact_axis_unit(pen.axis);
        crate::rotor::lemma_rotate_unit_band(own_pose.rotation, pen.axis, nw, ROTOR_TOL as int, 0);
        lemma_scale_exact(enter_depth as int, pen.axis);
        lemma_scale_exact(exit_depth as int, pen.axis);
    }
    let c1 = Contact {
        normal: UnitVec2 { v: nw },
        offsets: [ep.add(pen.axis.scaled(enter_depth)), own_rel.transform_point(ep)],
    };
    let c2 = Contact {
        normal: UnitVec2 { v: nw },
        offsets: [xp.add(pen.axis.scaled(exit_depth)), own_rel.transform_point(xp)],
    };
    let two = ContactResult::Two(c1, c2);
    if !flip {
        two
    } else {
        flip_contacts(two)
    }
}

/// Everything after the scan, on one owner's scalars; the exact evaluation
/// of `post_sat_s`.
#[verifier::rlimit(100)]
#[verifier::spinoff_prover]
fn post_sat(
    own_pose: Pose,
    own_rel: Pose,
    oth_rel: Pose,
    flip: bool,
    r_own: i64,
    r_oth: i64,
    other_poly: ColliderPolygon,
    cand_axis: SeparatingAxis,
) -> (r: ContactResult)
    requires
        pose_wf(own_pose, ROTOR_TOL as int, TRANS_LIM as int),
        rotor_wf(own_rel.rotation, REL_ROTOR_TOL as int),
        rotor_wf(oth_rel.rotation, REL_ROTOR_TOL as int),
        abs_s(own_rel.translation.x as int) <= 37_000_000_000_000,
        abs_s(own_rel.translation.y as int) <= 37_000_000_000_000,
        abs_s(oth_rel.translation.x as int) <= 37_000_000_000_000,
        abs_s(oth_rel.translation.y as int) <= 37_000_000_000_000,
        0 <= r_own <= SHAPE_LIM,
        0 <= r_oth <= SHAPE_LIM,
        polygon_wf(other_poly),
        !(other_poly is Point),
        exact_axis(cand_axis.axis),
        cand_axis.symmetrical,
        0 <= cand_axis.extent <= SHAPE_LIM,
        exact_axis(cand_axis.edge.dir),
        abs_s(cand_axis.edge.start.x as int) <= SHAPE_LIM,
        abs_s(cand_axis.edge.start.y as int) <= SHAPE_LIM,
        0 <= cand_axis.edge.length <= 2 * SHAPE_LIM,
    ensures
        result_wf(r),
        r == post_sat_s(own_pose, own_rel, oth_rel, flip, r_own, r_oth, other_poly, cand_axis),
{
    proof {
        reveal(post_sat_s);
        lemma_dot_exact(oth_rel.translation, cand_axis.axis);
        lemma_exact_axis_unit(cand_axis.axis);
    }
    let dd0 = oth_rel.translation.dot(cand_axis.axis);
    let pen = if dd0 >= 0 {
        cand_axis
    } else {
        cand_axis.mirrored()
    };
    proof {
        lemma_exact_axis_unit(pen.axis);
        lemma_scale_exact(r_own as int, pen.axis);
    }
    let owning_edge = if r_own == 0 {
        pen.edge
    } else {
        pen.edge.offset(pen.axis.scaled(r_own))
    };
    let rotated_pen = own_rel.rotation.rotate(pen.axis);
    proof {
        crate::rotor::lemma_rotate_unit_band(
            own_rel.rotation,
            pen.axis,
            rotated_pen,
            REL_ROTOR_TOL as int,
            0,
        );
        lemma_neg_keeps_unit(rotated_pen);
        lemma_supporting_edge_ok(other_poly, vneg_s(rotate_v_s(own_rel.rotation, pen.axis)));
    }
    let paws = rotated_pen.neg();
    let inc_local = match other_poly.supporting_edge(paws) {
        Some(se) => se,
        None => {
            return ContactResult::Zero;
        },
    };
    proof {
        lemma_exact_axis_unit(inc_local.edge.dir);
        lemma_exact_axis_unit(inc_local.normal);
    }
    let inc_inner = inc_local.transformed(oth_rel);
    proof {
        crate::rotor::lemma_rotate_unit_band(
            oth_rel.rotation,
            inc_local.normal,
            inc_inner.normal,
            REL_ROTOR_TOL as int,
            0,
        );
        crate::rotor::lemma_rotate_unit_band(
            oth_rel.rotation,
            inc_local.edge.dir,
            inc_inner.edge.dir,
            REL_ROTOR_TOL as int,
            0,
        );
        lemma_scale_exact(r_oth as int, inc_local.normal);
    }
    let inc_outer = if r_oth == 0 {
        inc_inner.edge
    } else {
        inc_inner.edge.offset(inc_inner.normal.scaled(r_oth))
    };
    let both_simple = r_own == 0 && r_oth == 0;

    match clip_edge(owning_edge, inc_outer) {
        EdgeClipResult::Passes { enters, exits } => passes_branch(
            own_pose,
            own_rel,
            flip,
            r_own,
            r_oth,
            pen,
            inc_inner,
            inc_outer,
            enters,
            exits,
        ),
        EdgeClipResult::Misses => {
            if both_simple {
                ContactResult::Zero
            } else {
                single_point(own_pose, own_rel, flip, r_own, r_oth, pen, inc_inner)
            }
        },
        EdgeClipResult::Intersects => single_point(
            own_pose,
            own_rel,
            flip,
            r_own,
            r_oth,
            pen,
            inc_inner,
        ),
    }
}

/// Generic contact test for two shapes that are both more than a point:
/// the exact fixed-point evaluation of the separating-axis scan and the
/// edge-clipping contact construction mirrored by `any_any_s`.
#[verifier::rlimit(100)]
#[verifier::spinoff_prover]
fn any_any(poses: [Pose; 2], shapes: [ColliderShape; 2]) -> (r: ContactResult)
    requires
        pose_wf(poses[0], ROTOR_TOL as int, TRANS_LIM as int),
        pose_wf(poses[1], ROTOR_TOL as int, TRANS_LIM as int),
        shape_wf(shapes[0]),
        shape_wf(shapes[1]),
        !(shapes[0].polygon is Point),
        !(shapes[1].polygon is Point),
    ensures
        result_wf(r),
        r == any_any_s(poses, shapes),
{
    let p0 = poses[0];
    let p1 = poses[1];
    let rp = p0.inversed().compose(p1);
    proof {
        crate::rotor::lemma_rotor_comp_band(
            rot_rev_s(p0.rotation),
            p1.rotation,
            ROTOR_TOL as int,
            ROTOR_TOL as int,
        );
        assert(rp == pose_comp_s(pose_inv_s(poses[0]), poses[1]));
        assert(rotor_wf(rp.rotation, REL_ROTOR_TOL as int));
    }
    let rel0 = rp.inversed();
    proof {
        reveal(rel_pose_s);
        assert(rel0 == rel_pose_s(poses, 0));
        assert(rp == rel_pose_s(poses, 1));
        assert(rotor_wf(rel0.rotation, REL_ROTOR_TOL as int));
        assert(abs_s(rp.translation.x as int) <= 9_000_000_000_000 && abs_s(
            rp.translation.y as int,
        ) <= 9_000_000_000_000);
        assert(abs_s(rel0.translation.x as int) <= 37_000_000_000_000 && abs_s(
            rel0.translation.y as int,
        ) <= 37_000_000_000_000);
        lemma_axes_ok(shapes[0].polygon);
        lemma_axes_ok(shapes[1].polygon);
    }

    // gather the candidate axes of both shapes, tagged with their owner
    let axes0 = shapes[0].polygon.separating_axes();
    let axes1 = shapes[1].polygon.separating_axes();
    let n0 = axes0.len();
    let n1 = axes1.len();
    let mut cands: Vec<AxisCand> = Vec::new();
    let mut j: usize = 0;
    while j < n0
        invariant
            j <= n0,
            n0 == axes0@.len(),
            cands@.len() == j,
            forall|i: int|
                0 <= i < j ==> cands@[i] == (AxisCand { axis: axes0@[i], owner: 0usize }),
        decreases n0 - j,
    {
        cands.push(AxisCand { axis: axes0[j], owner: 0 });
        j += 1;
    }
    let mut k0: usize = 0;
    while k0 < n1
        invariant
            k0 <= n1,
            n0 == axes0@.len(),
            n1 == axes1@.len(),
            cands@.len() == n0 + k0,
            forall|i: int|
                0 <= i < n0 ==> cands@[i] == (AxisCand { axis: axes0@[i], owner: 0usize }),
            forall|i: int|
                n0 <= i < n0 + k0 ==> cands@[i] == (AxisCand {
                    axis: axes1@[i - n0],
                    owner: 1usize,
                }),
        decreases n1 - k0,
    {
        cands.push(AxisCand { axis: axes1[k0], owner: 1 });
        k0 += 1;
    }
    proof {
        reveal(cands_s);
        assert forall|i: int| 0 <= i < cands@.len() implies cands@[i] == cands_s(shapes)[i] by {
            if i < n0 {
                assert(cands_s(shapes)[i] == separating_axes_s(shapes[0].polygon).map(
                    |ii: int, a: SeparatingAxis| AxisCand { axis: a, owner: 0usize },
                )[i]);
            } else {
                assert(cands_s(shapes)[i] == separating_axes_s(shapes[1].polygon).map(
                    |ii: int, a: SeparatingAxis| AxisCand { axis: a, owner: 1usize },
                )[i - n0]);
            }
        }
        assert(cands@ =~= cands_s(shapes));
        assert(forall|i: int| 0 <= i < cands@.len() ==> cand_ok(#[trigger] cands@[i]));
    }

    let (separated, best_idx, _best_depth) = sat_scan(&cands, poses, shapes, rel0, rp);
    if separated {
        proof {
            reveal(any_any_s);
        }
        return ContactResult::Zero;
    }

    let bc = cands[best_idx];
    let owner = bc.owner;
    let own_rel = if owner == 0 {
        rel0
    } else {
        rp
    };
    let oth_rel = if owner == 0 {
        rp
    } else {
        rel0
    };
    let own_pose = if owner == 0 {
        p0
    } else {
        p1
    };
    let r_own = if owner == 0 {
        shapes[0].circle_r
    } else {
        shapes[1].circle_r
    };
    let r_oth = if owner == 0 {
        shapes[1].circle_r
    } else {
        shapes[0].circle_r
    };
    let other_poly = if owner == 0 {
        shapes[1].polygon
    } else {
        shapes[0].polygon
    };
    proof {
        assert(own_rel == rel_pose_s(poses, owner as int));
        assert(oth_rel == rel_pose_s(poses, 1 - owner as int));
        assert(own_pose == poses[owner as int]);
    }
    let res = post_sat(own_pose, own_rel, oth_rel, owner == 1, r_own, r_oth, other_poly, bc.axis);
    proof {
        reveal(any_any_s);
    }
    res
}


/// The contact result of a collider pair, as a function of the poses and
/// shapes: the full narrow phase as one specification.
#[verifier::opaque]
pub open spec fn intersection_check_s(
    poses: [Pose; 2],
    shapes: [ColliderShape; 2],
) -> ContactResult {
    match (shapes[0].polygon, shapes[1].polygon) {
        (ColliderPolygon::Point, ColliderPolygon::Point) => circle_circle_s(
            poses[0],
            shapes[0].circle_r,
            poses[1],
            shapes[1].circle_r,
        ),
        (ColliderPolygon::Point, _) => circle_any_s(
            poses[0],
            shapes[0].circle_r,
            poses[1],
            shapes[1],
            shapes[1].circle_r,
        ),
        (_, ColliderPolygon::Point) => flip_result_s(
            circle_any_s(poses[1], shapes[1].circle_r, poses[0], shapes[0], shapes[0].circle_r),
        ),
        _ => any_any_s(poses, shapes),
    }
}

/// Check two colliders for intersection: circles get their special cases,
/// everything else runs the generic separating-axis test. The result is
/// stated from the first collider's point of view.
pub fn intersection_check(poses: [Pose; 2], shapes: [ColliderShape; 2]) -> (r: ContactResult)
    requires
        pose_wf(poses[0], ROTOR_TOL as int, TRANS_LIM as int),
        pose_wf(poses[1], ROTOR_TOL as int, TRANS_LIM as int),
        shape_wf(shapes[0]),
        shape_wf(shapes[1]),
    ensures
        result_wf(r),
        r == intersection_check_s(poses, shapes),
        match (shapes[0].polygon, shapes[1].polygon) {
            (ColliderPolygon::Point, ColliderPolygon::Point) => circle_circle_post(
                poses[0],
                shapes[0].circle_r,
                poses[1],
                shapes[1].circle_r,
                r,
            ),
            (ColliderPolygon::Point, _) => circle_any_post(
                poses[0],
                shapes[0].circle_r,
                poses[1],
                shapes[1],
                shapes[1].circle_r,
                r,
            ),
            (_, ColliderPolygon::Point) => exists|m: ContactResult|
                #[trigger] circle_any_post(
                    poses[1],
                    shapes[1].circle_r,
                    poses[0],
                    shapes[0],
                    shapes[0].circle_r,
                    m,
                ) && r == flip_result_s(m) && result_wf(m),
            _ => r == any_any_s(poses, shapes),
        },
{
    proof {
        reveal(intersection_check_s);
    }
    let r0 = shapes[0].circle_r;
    let r1 = shapes[1].circle_r;
    match (shapes[0].polygon, shapes[1].polygon) {
        (ColliderPolygon::Point, ColliderPolygon::Point) => circle_circle(
            poses[0],
            r0,
            poses[1],
            r1,
        ),
        (ColliderPolygon::Point, _) => circle_any(poses[0], r0, poses[1], shapes[1], r1),
        (_, ColliderPolygon::Point) => flip_contacts(
            circle_any(poses[1], r1, poses[0], shapes[0], r0),
        ),
        _ => any_any(poses, shapes),
    }
}

/// Two circles whose centres stand at exactly the sum of their radii do not
/// touch: the raw squared centre distance equals the squared radius sum, so
/// the strict overlap test fails and the result is `Zero`. (Radii summing
/// below the coincidence threshold are excluded: such centres count as
/// coincident and fall back to the x-axis contact.)
pub proof fn lemma_touching_circles_miss(
    pose1: Pose,
    r1: i64,
    pose2: Pose,
    r2: i64,
    res: ContactResult,
)
    requires
        circle_circle_post(pose1, r1, pose2, r2, res),
        sq_raw_s(vsub_s(pose2.translation, pose1.translation)) == (r1 + r2) * (r1 + r2),
        (r1 + r2) * (r1 + r2) >= CC_EPS_SQ,
    ensures
        res is Zero,
{
}

/// Every contact a well-formed result carries has a normal within
/// `NORMAL_TOL` of unit length and well-formed offsets — the fixed-point
/// reading of "every contact normal has length one".
pub proof fn lemma_contact_normals_near_unit(res: ContactResult)
    requires
        result_wf(res),
    ensures
        forall|i: int|
            0 <= i < result_len_s(res) ==> is_unit(
                #[trigger] result_nth_s(res, i).normal.v,
                NORMAL_TOL as int,
            ) && vec_wf(result_nth_s(res, i).offsets[0]) && vec_wf(result_nth_s(res, i).offsets[1]),
{
    assert forall|i: int| 0 <= i < result_len_s(res) implies is_unit(
        #[trigger] result_nth_s(res, i).normal.v,
        NORMAL_TOL as int,
    ) && vec_wf(result_nth_s(res, i).offsets[0]) && vec_wf(result_nth_s(res, i).offsets[1]) by {
        match res {
            ContactResult::Zero => {},
            ContactResult::One(c) => {},
            ContactResult::Two(c1, c2) => {},
        }
    }
}

} // verus!
