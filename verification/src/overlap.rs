//! Overlap tests between placed shapes.
//!
//! Pairs among points, axis-aligned boxes and circles are decided by
//! closest-point and distance rules; every pair involving a polygon is
//! decided by the separating-axis test, with boxes normalized into
//! four-vertex polygons and points treated as radius-zero circles, so no
//! shape pair is unsupported. Distance comparisons against a radius are
//! strict and stated over squares, which keeps them exact in integers;
//! the separating-axis test counts a mere touch as overlap.

use vstd::prelude::*;
use crate::fx::{LIMIT, mul64, mul128};
use crate::shape::{ColliderShape, Polygon, shape_wf, world_pts, wrap};
use crate::transform::{Transform, transform_wf};
use crate::vec2::{Vec2, dot, pt, vec_in_range};

verus! {

/// The mathematical points behind a vector of world-space vertices.
pub open spec fn pts_of(v: Seq<Vec2>) -> Seq<(int, int)> {
    v.map(|i: int, x: Vec2| pt(x))
}

// ---------------------------------------------------------------------------
// Closest-point rules for points, boxes and circles.
// ---------------------------------------------------------------------------

/// Boxes overlap iff on both axes the center distance is at most the sum of
/// the half-extents; a boundary touch counts.
pub open spec fn aabb_aabb_overlap(pa: (int, int), ha: (int, int), pb: (int, int), hb: (int, int)) -> bool {
    &&& -(ha.0 + hb.0) <= pa.0 - pb.0 <= ha.0 + hb.0
    &&& -(ha.1 + hb.1) <= pa.1 - pb.1 <= ha.1 + hb.1
}

/// A point overlaps a box iff it lies beyond no edge; the boundary counts.
pub open spec fn aabb_point_overlap(pa: (int, int), ha: (int, int), q: (int, int)) -> bool {
    &&& -ha.0 <= q.0 - pa.0 <= ha.0
    &&& -ha.1 <= q.1 - pa.1 <= ha.1
}

/// Circles overlap iff the center distance is strictly below the radius sum.
pub open spec fn circle_circle_overlap(pa: (int, int), ra: int, pb: (int, int), rb: int) -> bool {
    let dx = pa.0 - pb.0;
    let dy = pa.1 - pb.1;
    dx * dx + dy * dy < (ra + rb) * (ra + rb)
}

/// A circle contains a point iff its distance from the center is strictly
/// below the radius; a point exactly on the boundary does not count.
pub open spec fn circle_point_overlap(pc: (int, int), r: int, q: (int, int)) -> bool {
    let dx = pc.0 - q.0;
    let dy = pc.1 - q.1;
    dx * dx + dy * dy < r * r
}

/// `x` forced into `[lo, hi]`.
pub open spec fn clamp_to(lo: int, hi: int, x: int) -> int {
    if x < lo {
        lo
    } else if x > hi {
        hi
    } else {
        x
    }
}

/// A box overlaps a circle iff the point of the box closest to the circle's
/// center lies strictly inside the circle.
pub open spec fn aabb_circle_overlap(pa: (int, int), ha: (int, int), pc: (int, int), r: int) -> bool {
    let cx = clamp_to(pa.0 - ha.0, pa.0 + ha.0, pc.0);
    let cy = clamp_to(pa.1 - ha.1, pa.1 + ha.1, pc.1);
    circle_point_overlap(pc, r, (cx, cy))
}

// ---------------------------------------------------------------------------
// The separating-axis test.
// ---------------------------------------------------------------------------

/// Outward normal of the polygon edge leaving vertex `i` (unnormalized;
/// scaling an axis does not change whether it separates).
pub open spec fn edge_normal(p: Seq<(int, int)>, i: int) -> (int, int) {
    let a = p[i];
    let b = p[wrap(i, p.len() as int)];
    (-(b.1 - a.1), b.0 - a.0)
}

/// All of `a`'s projections onto `ax` lie strictly below all of `b`'s.
pub open spec fn all_below(a: Seq<(int, int)>, b: Seq<(int, int)>, ax: (int, int)) -> bool {
    forall|i: int, j: int|
        0 <= i < a.len() && 0 <= j < b.len() ==> #[trigger] dot(a[i], ax) < #[trigger] dot(b[j], ax)
}

/// The axis strictly separates the two vertex sets.
pub open spec fn separates(a: Seq<(int, int)>, b: Seq<(int, int)>, ax: (int, int)) -> bool {
    all_below(a, b, ax) || all_below(b, a, ax)
}

/// Some edge normal of `p` separates `p` from `q`.
pub open spec fn normal_separates(p: Seq<(int, int)>, q: Seq<(int, int)>) -> bool {
    exists|i: int| 0 <= i < p.len() && separates(p, q, edge_normal(p, i))
}

/// Two convex polygons overlap iff no edge normal of either separates them;
/// edge-touching polygons overlap.
pub open spec fn poly_poly_overlap(a: Seq<(int, int)>, b: Seq<(int, int)>) -> bool {
    !normal_separates(a, b) && !normal_separates(b, a)
}

/// `d` strictly exceeds `r` times the length of `ax`, stated over squares so
/// that no square root is needed.
pub open spec fn circle_gap(d: int, r: int, ax: (int, int)) -> bool {
    d > 0 && d * d > r * r * dot(ax, ax)
}

/// On axis `ax`, the whole circle lies strictly above every projection of `p`.
pub open spec fn circle_above(p: Seq<(int, int)>, c: (int, int), r: int, ax: (int, int)) -> bool {
    forall|i: int| 0 <= i < p.len() ==> circle_gap(dot(c, ax) - #[trigger] dot(p[i], ax), r, ax)
}

/// On axis `ax`, the whole circle lies strictly below every projection of `p`.
pub open spec fn circle_below(p: Seq<(int, int)>, c: (int, int), r: int, ax: (int, int)) -> bool {
    forall|i: int| 0 <= i < p.len() ==> circle_gap(#[trigger] dot(p[i], ax) - dot(c, ax), r, ax)
}

/// The axis strictly separates the circle from the polygon.
pub open spec fn circle_separated(p: Seq<(int, int)>, c: (int, int), r: int, ax: (int, int)) -> bool {
    circle_above(p, c, r, ax) || circle_below(p, c, r, ax)
}

/// A circle and a convex polygon overlap iff neither an edge normal of the
/// polygon nor an axis from a polygon vertex toward the center separates
/// them; a touch counts. With radius zero this is the point-in-polygon test,
/// boundary included.
pub open spec fn circle_poly_overlap(c: (int, int), r: int, p: Seq<(int, int)>) -> bool {
    &&& !(exists|i: int| 0 <= i < p.len() && circle_separated(p, c, r, edge_normal(p, i)))
    &&& !(exists|i: int|
        0 <= i < p.len() && circle_separated(p, c, r, ((#[trigger] p[i]).0 - c.0, p[i].1 - c.1)))
}

/// The world corners of an axis-aligned box, counter-clockwise.
pub open spec fn box_pts(p: (int, int), h: (int, int)) -> Seq<(int, int)> {
    seq![
        (p.0 - h.0, p.1 - h.1),
        (p.0 + h.0, p.1 - h.1),
        (p.0 + h.0, p.1 + h.1),
        (p.0 - h.0, p.1 + h.1),
    ]
}

// ---------------------------------------------------------------------------
// The full pairing.
// ---------------------------------------------------------------------------

/// Whether two placed shapes overlap. Every pair of shape kinds is handled:
/// boxes meeting polygons are read as four-vertex polygons, points meeting
/// polygons as radius-zero circles.
pub open spec fn shapes_overlap(a: ColliderShape, ta: Transform, b: ColliderShape, tb: Transform) -> bool {
    match (a, b) {
        (ColliderShape::Point, ColliderShape::Point) => pt(ta.position) == pt(tb.position),
        (ColliderShape::Point, ColliderShape::AABB(h)) => aabb_point_overlap(
            pt(tb.position),
            pt(h),
            pt(ta.position),
        ),
        (ColliderShape::AABB(h), ColliderShape::Point) => aabb_point_overlap(
            pt(ta.position),
            pt(h),
            pt(tb.position),
        ),
        (ColliderShape::AABB(ha), ColliderShape::AABB(hb)) => aabb_aabb_overlap(
            pt(ta.position),
            pt(ha),
            pt(tb.position),
            pt(hb),
        ),
        (ColliderShape::Circle(ra), ColliderShape::Circle(rb)) => circle_circle_overlap(
            pt(ta.position),
            ra as int,
            pt(tb.position),
            rb as int,
        ),
        (ColliderShape::Circle(r), ColliderShape::Point) => circle_point_overlap(
            pt(ta.position),
            r as int,
            pt(tb.position),
        ),
        (ColliderShape::Point, ColliderShape::Circle(r)) => circle_point_overlap(
            pt(tb.position),
            r as int,
            pt(ta.position),
        ),
        (ColliderShape::AABB(h), ColliderShape::Circle(r)) => aabb_circle_overlap(
            pt(ta.position),
            pt(h),
            pt(tb.position),
            r as int,
        ),
        (ColliderShape::Circle(r), ColliderShape::AABB(h)) => aabb_circle_overlap(
            pt(tb.position),
            pt(h),
            pt(ta.position),
            r as int,
        ),
        (ColliderShape::Polygon(va), ColliderShape::Polygon(vb)) => poly_poly_overlap(
            world_pts(va@, ta),
            world_pts(vb@, tb),
        ),
        (ColliderShape::Polygon(v), ColliderShape::AABB(h)) => poly_poly_overlap(
            world_pts(v@, ta),
            box_pts(pt(tb.position), pt(h)),
        ),
        (ColliderShape::AABB(h), ColliderShape::Polygon(v)) => poly_poly_overlap(
            world_pts(v@, tb),
            box_pts(pt(ta.position), pt(h)),
        ),
        (ColliderShape::Polygon(v), ColliderShape::Circle(r)) => circle_poly_overlap(
            pt(tb.position),
            r as int,
            world_pts(v@, ta),
        ),
        (ColliderShape::Circle(r), ColliderShape::Polygon(v)) => circle_poly_overlap(
            pt(ta.position),
            r as int,
            world_pts(v@, tb),
        ),
        (ColliderShape::Polygon(v), ColliderShape::Point) => circle_poly_overlap(
            pt(tb.position),
            0,
            world_pts(v@, ta),
        ),
        (ColliderShape::Point, ColliderShape::Polygon(v)) => circle_poly_overlap(
            pt(ta.position),
            0,
            world_pts(v@, tb),
        ),
    }
}

// ---------------------------------------------------------------------------
// Executable tests.
// ---------------------------------------------------------------------------

/// Every vector within `b` of the origin on both axes.
pub open spec fn vecs_bounded(v: Seq<Vec2>, b: int) -> bool {
    forall|i: int| 0 <= i < v.len() ==> -b <= #[trigger] v[i].x <= b && -b <= v[i].y <= b
}

/// Exact dot product of two bounded vectors, with a bound for callers.
fn dot_exec(v: Vec2, ax: Vec2) -> (r: i128)
    requires
        -(8 * LIMIT) <= v.x <= 8 * LIMIT,
        -(8 * LIMIT) <= v.y <= 8 * LIMIT,
        -(8 * LIMIT) <= ax.x <= 8 * LIMIT,
        -(8 * LIMIT) <= ax.y <= 8 * LIMIT,
    ensures
        r as int == dot(pt(v), pt(ax)),
        -(128 * LIMIT * LIMIT) <= r as int <= 128 * LIMIT * LIMIT,
{
    proof {
        assert(-(64 * LIMIT * LIMIT) <= v.x * ax.x <= 64 * LIMIT * LIMIT
            && -(64 * LIMIT * LIMIT) <= v.y * ax.y <= 64 * LIMIT * LIMIT) by (nonlinear_arith)
            requires
                -(8 * LIMIT) <= v.x <= 8 * LIMIT && -(8 * LIMIT) <= v.y <= 8 * LIMIT,
                -(8 * LIMIT) <= ax.x <= 8 * LIMIT && -(8 * LIMIT) <= ax.y <= 8 * LIMIT;
    }
    mul64(v.x, ax.x) + mul64(v.y, ax.y)
}

/// Smallest and largest projection of the vertices onto the axis, each
/// attained by some vertex.
fn range_on_axis(v: &Vec<Vec2>, ax: Vec2) -> (r: (i128, i128))
    requires
        v@.len() >= 1,
        vecs_bounded(v@, 3 * LIMIT),
        -(8 * LIMIT) <= ax.x <= 8 * LIMIT,
        -(8 * LIMIT) <= ax.y <= 8 * LIMIT,
    ensures
        forall|i: int|
            0 <= i < v@.len() ==> r.0 <= #[trigger] dot(pts_of(v@)[i], pt(ax)) <= r.1,
        exists|i: int| 0 <= i < v@.len() && dot(pts_of(v@)[i], pt(ax)) == r.0,
        exists|i: int| 0 <= i < v@.len() && dot(pts_of(v@)[i], pt(ax)) == r.1,
        -(128 * LIMIT * LIMIT) <= r.0 as int <= r.1 as int <= 128 * LIMIT * LIMIT,
{
    let n = v.len();
    let d0 = dot_exec(v[0], ax);
    proof {
        assert(pts_of(v@)[0] == pt(v@[0]));
    }
    let mut mn: i128 = d0;
    let mut mx: i128 = d0;
    let mut i: usize = 1;
    while i < n
        invariant
            1 <= i <= n == v@.len(),
            vecs_bounded(v@, 3 * LIMIT),
            -(8 * LIMIT) <= ax.x <= 8 * LIMIT && -(8 * LIMIT) <= ax.y <= 8 * LIMIT,
            forall|k: int| 0 <= k < i ==> mn <= #[trigger] dot(pts_of(v@)[k], pt(ax)) <= mx,
            exists|k: int| 0 <= k < i && dot(pts_of(v@)[k], pt(ax)) == mn,
            exists|k: int| 0 <= k < i && dot(pts_of(v@)[k], pt(ax)) == mx,
            -(128 * LIMIT * LIMIT) <= mn as int <= mx as int <= 128 * LIMIT * LIMIT,
        decreases n - i,
    {
        let d = dot_exec(v[i], ax);
        proof {
            assert(pts_of(v@)[i as int] == pt(v@[i as int]));
        }
        if d < mn {
            mn = d;
        }
        if d > mx {
            mx = d;
        }
        i = i + 1;
    }
    (mn, mx)
}

/// Whether the axis strictly separates the two vertex sets.
fn separates_exec(a: &Vec<Vec2>, b: &Vec<Vec2>, ax: Vec2) -> (r: bool)
    requires
        a@.len() >= 1,
        b@.len() >= 1,
        vecs_bounded(a@, 3 * LIMIT),
        vecs_bounded(b@, 3 * LIMIT),
        -(8 * LIMIT) <= ax.x <= 8 * LIMIT,
        -(8 * LIMIT) <= ax.y <= 8 * LIMIT,
    ensures
        r == separates(pts_of(a@), pts_of(b@), pt(ax)),
{
    let (amn, amx) = range_on_axis(a, ax);
    let (bmn, bmx) = range_on_axis(b, ax);
    let r = amx < bmn || bmx < amn;
    proof {
        let pa = pts_of(a@);
        let pb = pts_of(b@);
        let axp = pt(ax);
        if amx < bmn {
            assert(all_below(pa, pb, axp));
        } else {
            let ka = choose|k: int| 0 <= k < a@.len() && dot(pa[k], axp) == amx;
            let kb = choose|k: int| 0 <= k < b@.len() && dot(pb[k], axp) == bmn;
            assert(dot(pa[ka], axp) >= dot(pb[kb], axp));
            assert(!all_below(pa, pb, axp));
        }
        if bmx < amn {
            assert(all_below(pb, pa, axp));
        } else {
            let kb = choose|k: int| 0 <= k < b@.len() && dot(pb[k], axp) == bmx;
            let ka = choose|k: int| 0 <= k < a@.len() && dot(pa[k], axp) == amn;
            assert(dot(pb[kb], axp) >= dot(pa[ka], axp));
            assert(!all_below(pb, pa, axp));
        }
    }
    r
}

/// Whether some edge normal of `p` separates `p` from `q`.
fn normal_separates_exec(p: &Vec<Vec2>, q: &Vec<Vec2>) -> (r: bool)
    requires
        p@.len() >= 1,
        q@.len() >= 1,
        vecs_bounded(p@, 3 * LIMIT),
        vecs_bounded(q@, 3 * LIMIT),
    ensures
        r == normal_separates(pts_of(p@), pts_of(q@)),
{
    let n = p.len();
    let mut i: usize = 0;
    while i < n
        invariant
            0 <= i <= n == p@.len(),
            q@.len() >= 1,
            vecs_bounded(p@, 3 * LIMIT),
            vecs_bounded(q@, 3 * LIMIT),
            forall|k: int|
                0 <= k < i ==> !separates(pts_of(p@), pts_of(q@), #[trigger] edge_normal(pts_of(p@), k)),
        decreases n - i,
    {
        let i1 = if i + 1 < n { i + 1 } else { 0 };
        proof {
            assert(-(3 * LIMIT) <= p@[i as int].x <= 3 * LIMIT);
            assert(-(3 * LIMIT) <= p@[i1 as int].x <= 3 * LIMIT);
        }
        let a = p[i];
        let b = p[i1];
        let ax = Vec2 { x: -(b.y - a.y), y: b.x - a.x };
        proof {
            assert(pts_of(p@)[i as int] == pt(p@[i as int]));
            assert(pts_of(p@)[i1 as int] == pt(p@[i1 as int]));
            assert(pt(ax) == edge_normal(pts_of(p@), i as int));
        }
        if separates_exec(p, q, ax) {
            proof {
                assert(separates(pts_of(p@), pts_of(q@), edge_normal(pts_of(p@), i as int)));
            }
            return true;
        }
        i = i + 1;
    }
    false
}

/// Separating-axis test for two convex polygons given by world vertices.
fn poly_poly(a: &Vec<Vec2>, b: &Vec<Vec2>) -> (r: bool)
    requires
        a@.len() >= 1,
        b@.len() >= 1,
        vecs_bounded(a@, 3 * LIMIT),
        vecs_bounded(b@, 3 * LIMIT),
    ensures
        r == poly_poly_overlap(pts_of(a@), pts_of(b@)),
{
    if normal_separates_exec(a, b) {
        return false;
    }
    if normal_separates_exec(b, a) {
        return false;
    }
    true
}

/// A strictly larger positive gap still clears the same squared bound.
proof fn lemma_gap_mono(d1: int, d2: int, rhs: int)
    requires
        0 < d1 <= d2,
        d1 * d1 > rhs,
    ensures
        d2 * d2 > rhs,
{
    assert(d2 * d2 >= d1 * d1) by (nonlinear_arith)
        requires 0 < d1 <= d2;
}

/// Whether the axis strictly separates the circle from the polygon.
fn circle_separated_exec(p: &Vec<Vec2>, c: Vec2, r: i64, ax: Vec2) -> (res: bool)
    requires
        p@.len() >= 1,
        vecs_bounded(p@, 3 * LIMIT),
        vec_in_range(c),
        0 <= r <= LIMIT,
        -(8 * LIMIT) <= ax.x <= 8 * LIMIT,
        -(8 * LIMIT) <= ax.y <= 8 * LIMIT,
    ensures
        res == circle_separated(pts_of(p@), pt(c), r as int, pt(ax)),
{
    let (pmn, pmx) = range_on_axis(p, ax);
    let ca = dot_exec(c, ax);
    let axax = dot_exec(ax, ax);
    let rr: i128 = mul64(r, r);
    proof {
        assert(0 <= r * r <= LIMIT * LIMIT) by (nonlinear_arith)
            requires 0 <= r <= LIMIT;
        assert(0 <= dot(pt(ax), pt(ax))) by (nonlinear_arith);
    }
    let da: i128 = ca - pmx;
    let above = da > 0 && mul128(da, da) > mul128(rr, axax);
    let db: i128 = pmn - ca;
    let below = db > 0 && mul128(db, db) > mul128(rr, axax);
    proof {
        let pp = pts_of(p@);
        let cp = pt(c);
        let axp = pt(ax);
        let ri = r as int;
        let kmx = choose|k: int| 0 <= k < p@.len() && dot(pp[k], axp) == pmx;
        let kmn = choose|k: int| 0 <= k < p@.len() && dot(pp[k], axp) == pmn;
        if above {
            assert forall|i: int| 0 <= i < pp.len() implies circle_gap(
                dot(cp, axp) - #[trigger] dot(pp[i], axp),
                ri,
                axp,
            ) by {
                lemma_gap_mono(da as int, dot(cp, axp) - dot(pp[i], axp), ri * ri * dot(axp, axp));
            }
            assert(circle_above(pp, cp, ri, axp));
        } else {
            assert(!circle_gap(dot(cp, axp) - dot(pp[kmx], axp), ri, axp));
            assert(!circle_above(pp, cp, ri, axp));
        }
        if below {
            assert forall|i: int| 0 <= i < pp.len() implies circle_gap(
                #[trigger] dot(pp[i], axp) - dot(cp, axp),
                ri,
                axp,
            ) by {
                lemma_gap_mono(db as int, dot(pp[i], axp) - dot(cp, axp), ri * ri * dot(axp, axp));
            }
            assert(circle_below(pp, cp, ri, axp));
        } else {
            assert(!circle_gap(dot(pp[kmn], axp) - dot(cp, axp), ri, axp));
            assert(!circle_below(pp, cp, ri, axp));
        }
    }
    above || below
}

/// Separating-axis test between a circle (a point, with radius zero) and a
/// convex polygon given by world vertices.
fn circle_poly(c: Vec2, r: i64, p: &Vec<Vec2>) -> (res: bool)
    requires
        p@.len() >= 1,
        vecs_bounded(p@, 3 * LIMIT),
        vec_in_range(c),
        0 <= r <= LIMIT,
    ensures
        res == circle_poly_overlap(pt(c), r as int, pts_of(p@)),
{
    let n = p.len();
    let mut i: usize = 0;
    while i < n
        invariant
            0 <= i <= n == p@.len(),
            n >= 1,
            vecs_bounded(p@, 3 * LIMIT),
            vec_in_range(c),
            0 <= r <= LIMIT,
            forall|k: int|
                0 <= k < i ==> !circle_separated(
                    pts_of(p@),
                    pt(c),
                    r as int,
                    #[trigger] edge_normal(pts_of(p@), k),
                ),
        decreases n - i,
    {
        let i1 = if i + 1 < n { i + 1 } else { 0 };
        proof {
            assert(-(3 * LIMIT) <= p@[i as int].x <= 3 * LIMIT);
            assert(-(3 * LIMIT) <= p@[i1 as int].x <= 3 * LIMIT);
        }
        let a = p[i];
        let b = p[i1];
        let ax = Vec2 { x: -(b.y - a.y), y: b.x - a.x };
        proof {
            assert(pts_of(p@)[i as int] == pt(p@[i as int]));
            assert(pts_of(p@)[i1 as int] == pt(p@[i1 as int]));
            assert(pt(ax) == edge_normal(pts_of(p@), i as int));
        }
        if circle_separated_exec(p, c, r, ax) {
            return false;
        }
        i = i + 1;
    }
    let mut j: usize = 0;
    while j < n
        invariant
            0 <= j <= n == p@.len(),
            n >= 1,
            vecs_bounded(p@, 3 * LIMIT),
            vec_in_range(c),
            0 <= r <= LIMIT,
            forall|k: int|
                0 <= k < n ==> !circle_separated(
                    pts_of(p@),
                    pt(c),
                    r as int,
                    #[trigger] edge_normal(pts_of(p@), k),
                ),
            forall|k: int|
                0 <= k < j ==> !circle_separated(
                    pts_of(p@),
                    pt(c),
                    r as int,
                    ((#[trigger] pts_of(p@)[k]).0 - pt(c).0, pts_of(p@)[k].1 - pt(c).1),
                ),
        decreases n - j,
    {
        let a = p[j];
        let ax = Vec2 { x: a.x - c.x, y: a.y - c.y };
        proof {
            assert(pts_of(p@)[j as int] == pt(p@[j as int]));
            assert(pt(ax) == (
                (pts_of(p@)[j as int]).0 - pt(c).0,
                (pts_of(p@)[j as int]).1 - pt(c).1,
            ));
        }
        if circle_separated_exec(p, c, r, ax) {
            return false;
        }
        j = j + 1;
    }
    true
}

fn aabb_point_exec(pa: Vec2, h: Vec2, q: Vec2) -> (r: bool)
    requires
        vec_in_range(pa),
        0 <= h.x <= LIMIT,
        0 <= h.y <= LIMIT,
        vec_in_range(q),
    ensures
        r == aabb_point_overlap(pt(pa), pt(h), pt(q)),
{
    let dx: i64 = q.x - pa.x;
    let dy: i64 = q.y - pa.y;
    -h.x <= dx && dx <= h.x && -h.y <= dy && dy <= h.y
}

fn aabb_aabb_exec(pa: Vec2, ha: Vec2, pb: Vec2, hb: Vec2) -> (r: bool)
    requires
        vec_in_range(pa),
        vec_in_range(pb),
        0 <= ha.x <= LIMIT,
        0 <= ha.y <= LIMIT,
        0 <= hb.x <= LIMIT,
        0 <= hb.y <= LIMIT,
    ensures
        r == aabb_aabb_overlap(pt(pa), pt(ha), pt(pb), pt(hb)),
{
    let dx: i64 = pa.x - pb.x;
    let dy: i64 = pa.y - pb.y;
    let sx: i64 = ha.x + hb.x;
    let sy: i64 = ha.y + hb.y;
    -sx <= dx && dx <= sx && -sy <= dy && dy <= sy
}

/// Whether the squared distance between two nearby points is strictly below
/// a squared radius.
fn dist_sq_below(ax: i64, ay: i64, bx: i64, by: i64, r: i64) -> (res: bool)
    requires
        -(2 * LIMIT) <= ax <= 2 * LIMIT,
        -(2 * LIMIT) <= ay <= 2 * LIMIT,
        -(2 * LIMIT) <= bx <= 2 * LIMIT,
        -(2 * LIMIT) <= by <= 2 * LIMIT,
        0 <= r <= 2 * LIMIT,
    ensures
        res == ((ax - bx) * (ax - bx) + (ay - by) * (ay - by) < r * r),
{
    let dx: i64 = ax - bx;
    let dy: i64 = ay - by;
    proof {
        assert(0 <= dx * dx <= 16 * LIMIT * LIMIT && 0 <= dy * dy <= 16 * LIMIT * LIMIT)
            by (nonlinear_arith)
            requires -(4 * LIMIT) <= dx <= 4 * LIMIT && -(4 * LIMIT) <= dy <= 4 * LIMIT;
    }
    let d2: i128 = mul64(dx, dx) + mul64(dy, dy);
    let r2: i128 = mul64(r, r);
    d2 < r2
}

fn circle_circle_exec(pa: Vec2, ra: i64, pb: Vec2, rb: i64) -> (r: bool)
    requires
        vec_in_range(pa),
        vec_in_range(pb),
        0 <= ra <= LIMIT,
        0 <= rb <= LIMIT,
    ensures
        r == circle_circle_overlap(pt(pa), ra as int, pt(pb), rb as int),
{
    dist_sq_below(pa.x, pa.y, pb.x, pb.y, ra + rb)
}

fn circle_point_exec(pc: Vec2, r: i64, q: Vec2) -> (res: bool)
    requires
        vec_in_range(pc),
        vec_in_range(q),
        0 <= r <= LIMIT,
    ensures
        res == circle_point_overlap(pt(pc), r as int, pt(q)),
{
    dist_sq_below(pc.x, pc.y, q.x, q.y, r)
}

fn clamp_exec(lo: i64, hi: i64, x: i64) -> (r: i64)
    requires
        lo <= hi,
    ensures
        r as int == clamp_to(lo as int, hi as int, x as int),
{
    if x < lo {
        lo
    } else if x > hi {
        hi
    } else {
        x
    }
}

fn aabb_circle_exec(pa: Vec2, h: Vec2, pc: Vec2, r: i64) -> (res: bool)
    requires
        vec_in_range(pa),
        vec_in_range(pc),
        0 <= h.x <= LIMIT,
        0 <= h.y <= LIMIT,
        0 <= r <= LIMIT,
    ensures
        res == aabb_circle_overlap(pt(pa), pt(h), pt(pc), r as int),
{
    let cx: i64 = clamp_exec(pa.x - h.x, pa.x + h.x, pc.x);
    let cy: i64 = clamp_exec(pa.y - h.y, pa.y + h.y, pc.y);
    dist_sq_below(pc.x, pc.y, cx, cy, r)
}

/// The four world corners of an axis-aligned box, counter-clockwise.
fn box_polygon(p: Vec2, h: Vec2) -> (r: Vec<Vec2>)
    requires
        vec_in_range(p),
        0 <= h.x <= LIMIT,
        0 <= h.y <= LIMIT,
    ensures
        pts_of(r@) == box_pts(pt(p), pt(h)),
        r@.len() == 4,
        vecs_bounded(r@, 3 * LIMIT),
{
    let mut v: Vec<Vec2> = Vec::new();
    v.push(Vec2 { x: p.x - h.x, y: p.y - h.y });
    v.push(Vec2 { x: p.x + h.x, y: p.y - h.y });
    v.push(Vec2 { x: p.x + h.x, y: p.y + h.y });
    v.push(Vec2 { x: p.x - h.x, y: p.y + h.y });
    proof {
        assert(pts_of(v@) =~= box_pts(pt(p), pt(h)));
    }
    v
}

/// World vertices of a placed polygon, bounded and matching `world_pts`.
fn world_polygon(vs: &Vec<Vec2>, t: &Transform) -> (r: Vec<Vec2>)
    requires
        forall|i: int| 0 <= i < vs@.len() ==> vec_in_range(vs@[i]),
        transform_wf(*t),
    ensures
        pts_of(r@) == world_pts(vs@, *t),
        r@.len() == vs@.len(),
        vecs_bounded(r@, 3 * LIMIT),
{
    let p = Polygon::from_vertices(vs, t);
    proof {
        assert(pts_of(p.vertices@) =~= world_pts(vs@, *t));
        assert forall|i: int| 0 <= i < p.vertices@.len() implies -(3 * LIMIT)
            <= #[trigger] p.vertices@[i].x <= 3 * LIMIT && -(3 * LIMIT) <= p.vertices@[i].y <= 3
            * LIMIT by {
            crate::shape::lemma_world_pt_bounded(vs@[i], *t);
            assert(pt(p.vertices@[i]) == world_pts(vs@, *t)[i]);
        }
    }
    p.vertices
}

/// Whether two placed shapes overlap: the library's single overlap
/// operation, exact against `shapes_overlap`.
pub fn test_overlap(a: &ColliderShape, ta: &Transform, b: &ColliderShape, tb: &Transform) -> (r: bool)
    requires
        shape_wf(*a),
        shape_wf(*b),
        transform_wf(*ta),
        transform_wf(*tb),
    ensures
        r == shapes_overlap(*a, *ta, *b, *tb),
{
    match (a, b) {
        (ColliderShape::Point, ColliderShape::Point) => {
            ta.position.x == tb.position.x && ta.position.y == tb.position.y
        },
        (ColliderShape::Point, ColliderShape::AABB(h)) => {
            aabb_point_exec(tb.position, *h, ta.position)
        },
        (ColliderShape::AABB(h), ColliderShape::Point) => {
            aabb_point_exec(ta.position, *h, tb.position)
        },
        (ColliderShape::AABB(ha), ColliderShape::AABB(hb)) => {
            aabb_aabb_exec(ta.position, *ha, tb.position, *hb)
        },
        (ColliderShape::Circle(ra), ColliderShape::Circle(rb)) => {
            circle_circle_exec(ta.position, *ra, tb.position, *rb)
        },
        (ColliderShape::Circle(r), ColliderShape::Point) => {
            circle_point_exec(ta.position, *r, tb.position)
        },
        (ColliderShape::Point, ColliderShape::Circle(r)) => {
            circle_point_exec(tb.position, *r, ta.position)
        },
        (ColliderShape::AABB(h), ColliderShape::Circle(r)) => {
            aabb_circle_exec(ta.position, *h, tb.position, *r)
        },
        (ColliderShape::Circle(r), ColliderShape::AABB(h)) => {
            aabb_circle_exec(tb.position, *h, ta.position, *r)
        },
        (ColliderShape::Polygon(va), ColliderShape::Polygon(vb)) => {
            let wa = world_polygon(va, ta);
            let wb = world_polygon(vb, tb);
            poly_poly(&wa, &wb)
        },
        (ColliderShape::Polygon(v), ColliderShape::AABB(h)) => {
            let wa = world_polygon(v, ta);
            let wb = box_polygon(tb.position, *h);
            poly_poly(&wa, &wb)
        },
        (ColliderShape::AABB(h), ColliderShape::Polygon(v)) => {
            let wb = world_polygon(v, tb);
            let wa = box_polygon(ta.position, *h);
            poly_poly(&wb, &wa)
        },
        (ColliderShape::Polygon(v), ColliderShape::Circle(r)) => {
            let wa = world_polygon(v, ta);
            circle_poly(tb.position, *r, &wa)
        },
        (ColliderShape::Circle(r), ColliderShape::Polygon(v)) => {
            let wb = world_polygon(v, tb);
            circle_poly(ta.position, *r, &wb)
        },
        (ColliderShape::Polygon(v), ColliderShape::Point) => {
            let wa = world_polygon(v, ta);
            circle_poly(tb.position, 0, &wa)
        },
        (ColliderShape::Point, ColliderShape::Polygon(v)) => {
            let wb = world_polygon(v, tb);
            circle_poly(ta.position, 0, &wb)
        },
    }
}

/// Overlap is symmetric: swapping the two placed shapes never changes the
/// verdict.
pub proof fn lemma_overlap_symmetric(a: ColliderShape, ta: Transform, b: ColliderShape, tb: Transform)
    ensures
        shapes_overlap(a, ta, b, tb) == shapes_overlap(b, tb, a, ta),
{
    match (a, b) {
        (ColliderShape::AABB(ha), ColliderShape::AABB(hb)) => {},
        (ColliderShape::Circle(ra), ColliderShape::Circle(rb)) => {
            let dx = ta.position.x - tb.position.x as int;
            let dy = ta.position.y - tb.position.y as int;
            assert(dx * dx == (-dx) * (-dx) && dy * dy == (-dy) * (-dy)) by (nonlinear_arith);
        },
        _ => {},
    }
}

} // verus!
