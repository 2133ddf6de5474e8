//! Collider shapes and their world-space form.
//!
//! A `ColliderShape` holds local-space geometry; the owning body's
//! `Transform` places it in the world at query time. Polygons are convex,
//! wound counter-clockwise; axis-aligned boxes never rotate.

use vstd::prelude::*;
use crate::fx::{FP_ONE, LIMIT, lemma_tdiv_bound, mul64, tdiv};
use crate::transform::{Transform, transform_wf};
use crate::trig::{rot_cos, rot_sin, rotation_of};
use crate::vec2::{Vec2, pt, vec_in_range};

verus! {

/// The geometry a body can carry. Half-extents, radii and vertices are in
/// local space, Q48.16 fixed point.
#[derive(Clone, Debug)]
pub enum ColliderShape {
    /// A single point at the body's position.
    Point,
    /// An axis-aligned box, by half-extents; it ignores the body's rotation.
    AABB(Vec2),
    /// A circle, by radius.
    Circle(i64),
    /// A convex polygon: at least three counter-clockwise vertices.
    Polygon(Vec<Vec2>),
}

impl Default for ColliderShape {
    fn default() -> (r: ColliderShape)
        ensures
            r is Point,
    {
        ColliderShape::Point
    }
}

/// Cross product of the two edge vectors leaving `b`: positive when the
/// corner `a -> b -> c` turns left (counter-clockwise).
pub open spec fn corner_cross(a: Vec2, b: Vec2, c: Vec2) -> int {
    (b.x - a.x) * (c.y - b.y) - (b.y - a.y) * (c.x - b.x)
}

/// The index after `i` in a cyclic list of length `n`.
pub open spec fn wrap(i: int, n: int) -> int {
    if i + 1 < n {
        i + 1
    } else {
        0
    }
}

/// Every corner of the cyclic vertex list turns strictly left: the polygon
/// is convex, counter-clockwise, and free of repeated or collinear corners
/// (hence simple).
pub open spec fn convex_ccw(vs: Seq<Vec2>) -> bool {
    forall|i: int|
        0 <= i < vs.len() ==> #[trigger] corner_cross(
            vs[i],
            vs[wrap(i, vs.len() as int)],
            vs[wrap(wrap(i, vs.len() as int), vs.len() as int)],
        ) > 0
}

/// A shape the library accepts: bounded, and for polygons at least three
/// convex counter-clockwise vertices.
pub open spec fn shape_wf(s: ColliderShape) -> bool {
    match s {
        ColliderShape::Point => true,
        ColliderShape::AABB(h) => 0 <= h.x <= LIMIT && 0 <= h.y <= LIMIT,
        ColliderShape::Circle(r) => 0 <= r <= LIMIT,
        ColliderShape::Polygon(vs) => {
            &&& vs@.len() >= 3
            &&& forall|i: int| 0 <= i < vs@.len() ==> vec_in_range(vs@[i])
            &&& convex_ccw(vs@)
        },
    }
}

impl ColliderShape {
    /// Executable check of `shape_wf`: rejects unbounded geometry and
    /// degenerate polygons at registration time.
    pub fn check(&self) -> (r: bool)
        ensures
            r == shape_wf(*self),
    {
        match self {
            ColliderShape::Point => true,
            ColliderShape::AABB(h) => 0 <= h.x && h.x <= LIMIT && 0 <= h.y && h.y <= LIMIT,
            ColliderShape::Circle(radius) => 0 <= *radius && *radius <= LIMIT,
            ColliderShape::Polygon(vs) => check_polygon(vs),
        }
    }
}

fn check_polygon(vs: &Vec<Vec2>) -> (r: bool)
    ensures
        r == (vs@.len() >= 3 && (forall|i: int| 0 <= i < vs@.len() ==> vec_in_range(vs@[i]))
            && convex_ccw(vs@)),
{
    let n = vs.len();
    if n < 3 {
        return false;
    }
    let mut i: usize = 0;
    while i < n
        invariant
            n == vs@.len(),
            0 <= i <= n,
            forall|k: int| 0 <= k < i ==> vec_in_range(vs@[k]),
        decreases n - i,
    {
        let v = vs[i];
        if !(-LIMIT <= v.x && v.x <= LIMIT && -LIMIT <= v.y && v.y <= LIMIT) {
            return false;
        }
        i = i + 1;
    }
    let mut j: usize = 0;
    while j < n
        invariant
            3 <= n == vs@.len(),
            0 <= j <= n,
            forall|k: int| 0 <= k < n ==> vec_in_range(vs@[k]),
            forall|k: int|
                0 <= k < j ==> #[trigger] corner_cross(
                    vs@[k],
                    vs@[wrap(k, n as int)],
                    vs@[wrap(wrap(k, n as int), n as int)],
                ) > 0,
        decreases n - j,
    {
        let j1 = if j + 1 < n { j + 1 } else { 0 };
        let j2 = if j1 + 1 < n { j1 + 1 } else { 0 };
        let a = vs[j];
        let b = vs[j1];
        let c = vs[j2];
        let ex: i64 = b.x - a.x;
        let ey: i64 = b.y - a.y;
        let gx: i64 = c.x - b.x;
        let gy: i64 = c.y - b.y;
        proof {
            assert(-(4 * LIMIT * LIMIT) <= ex * gy <= 4 * LIMIT * LIMIT
                && -(4 * LIMIT * LIMIT) <= ey * gx <= 4 * LIMIT * LIMIT) by (nonlinear_arith)
                requires
                    -(2 * LIMIT) <= ex <= 2 * LIMIT && -(2 * LIMIT) <= ey <= 2 * LIMIT,
                    -(2 * LIMIT) <= gx <= 2 * LIMIT && -(2 * LIMIT) <= gy <= 2 * LIMIT;
        }
        let cross: i128 = mul64(ex, gy) - mul64(ey, gx);
        assert(cross == corner_cross(a, b, c));
        if cross <= 0 {
            proof {
                assert(corner_cross(
                    vs@[j as int],
                    vs@[wrap(j as int, n as int)],
                    vs@[wrap(wrap(j as int, n as int), n as int)],
                ) <= 0);
            }
            return false;
        }
        j = j + 1;
    }
    true
}

/// The world-space location of a local vertex under a transform: rotated by
/// the library's fixed-point cosine/sine of the transform's angle, then
/// translated.
pub open spec fn world_pt(v: Vec2, t: Transform) -> (int, int) {
    let c = rot_cos(t.rotation as int);
    let s = rot_sin(t.rotation as int);
    (
        tdiv(v.x * c - v.y * s, FP_ONE as int) + t.position.x,
        tdiv(v.x * s + v.y * c, FP_ONE as int) + t.position.y,
    )
}

/// All vertices of a local polygon placed into the world.
pub open spec fn world_pts(vs: Seq<Vec2>, t: Transform) -> Seq<(int, int)> {
    vs.map(|i: int, v: Vec2| world_pt(v, t))
}

/// A mathematical point within `b` of the origin on both axes.
pub open spec fn pt_bounded(p: (int, int), b: int) -> bool {
    -b <= p.0 <= b && -b <= p.1 <= b
}

/// World vertices stay within three times the coordinate limit.
pub proof fn lemma_world_pt_bounded(v: Vec2, t: Transform)
    requires
        vec_in_range(v),
        transform_wf(t),
    ensures
        pt_bounded(world_pt(v, t), 3 * LIMIT),
{
    let c = rot_cos(t.rotation as int);
    let s = rot_sin(t.rotation as int);
    assert(-(2 * LIMIT * FP_ONE) <= v.x * c - v.y * s <= 2 * LIMIT * FP_ONE
        && -(2 * LIMIT * FP_ONE) <= v.x * s + v.y * c <= 2 * LIMIT * FP_ONE) by (nonlinear_arith)
        requires
            -LIMIT <= v.x <= LIMIT && -LIMIT <= v.y <= LIMIT,
            -FP_ONE <= c <= FP_ONE && -FP_ONE <= s <= FP_ONE;
    assert(forall|a: int| -(2 * LIMIT * FP_ONE) <= a <= 2 * LIMIT * FP_ONE
        ==> -(2 * LIMIT) <= #[trigger] tdiv(a, FP_ONE as int) <= 2 * LIMIT) by {
        assert forall|a: int| -(2 * LIMIT * FP_ONE) <= a <= 2 * LIMIT * FP_ONE
            implies -(2 * LIMIT) <= #[trigger] tdiv(a, FP_ONE as int) <= 2 * LIMIT by {
            lemma_tdiv_bound(a, 2 * LIMIT as int, FP_ONE as int);
        }
    }
}

/// A world-space convex polygon: the pairing of local vertices with a
/// transform, ready for the separating-axis test.
#[derive(Clone, Debug)]
pub struct Polygon {
    pub vertices: Vec<Vec2>,
}

impl Polygon {
    /// Place local vertices into the world under a transform.
    pub fn from_vertices(vertices: &Vec<Vec2>, transform: &Transform) -> (r: Polygon)
        requires
            forall|i: int| 0 <= i < vertices@.len() ==> vec_in_range(vertices@[i]),
            transform_wf(*transform),
        ensures
            r.vertices@.len() == vertices@.len(),
            forall|i: int|
                0 <= i < vertices@.len() ==> pt(#[trigger] r.vertices@[i]) == world_pts(
                    vertices@,
                    *transform,
                )[i],
    {
        Polygon { vertices: rotate_translate(vertices, transform) }
    }

    /// A `2w` by `2h` rectangle centered on the transform, rotated with it.
    pub fn square(w: i64, h: i64, transform: &Transform) -> (r: Polygon)
        requires
            0 <= w <= LIMIT,
            0 <= h <= LIMIT,
            transform_wf(*transform),
        ensures
            r.vertices@.len() == 4,
            forall|i: int|
                0 <= i < 4 ==> pt(#[trigger] r.vertices@[i]) == world_pts(
                    square_pts(w, h),
                    *transform,
                )[i],
    {
        let mut corners: Vec<Vec2> = Vec::new();
        corners.push(Vec2 { x: -w, y: -h });
        corners.push(Vec2 { x: w, y: -h });
        corners.push(Vec2 { x: w, y: h });
        corners.push(Vec2 { x: -w, y: h });
        proof {
            assert(corners@ =~= square_pts(w, h));
        }
        Polygon { vertices: rotate_translate(&corners, transform) }
    }
}

/// The local corners of a `2w` by `2h` rectangle, counter-clockwise.
pub open spec fn square_pts(w: i64, h: i64) -> Seq<Vec2> {
    seq![
        Vec2 { x: -w as i64, y: -h as i64 },
        Vec2 { x: w, y: -h as i64 },
        Vec2 { x: w, y: h },
        Vec2 { x: -w as i64, y: h },
    ]
}

fn rotate_translate(vertices: &Vec<Vec2>, transform: &Transform) -> (r: Vec<Vec2>)
    requires
        forall|i: int| 0 <= i < vertices@.len() ==> vec_in_range(vertices@[i]),
        transform_wf(*transform),
    ensures
        r@.len() == vertices@.len(),
        forall|i: int|
            0 <= i < vertices@.len() ==> pt(#[trigger] r@[i]) == world_pts(vertices@, *transform)[i],
{
    let (c, s) = rotation_of(transform.rotation);
    let px = transform.position.x;
    let py = transform.position.y;
    let n = vertices.len();
    let mut out: Vec<Vec2> = Vec::new();
    let mut i: usize = 0;
    while i < n
        invariant
            n == vertices@.len(),
            0 <= i <= n,
            out@.len() == i,
            forall|k: int| 0 <= k < vertices@.len() ==> vec_in_range(vertices@[k]),
            transform_wf(*transform),
            c as int == rot_cos(transform.rotation as int),
            s as int == rot_sin(transform.rotation as int),
            -FP_ONE <= c <= FP_ONE && -FP_ONE <= s <= FP_ONE,
            px == transform.position.x && py == transform.position.y,
            forall|k: int|
                0 <= k < i ==> pt(#[trigger] out@[k]) == world_pts(vertices@, *transform)[k],
        decreases n - i,
    {
        let v = vertices[i];
        proof {
            assert(-(2 * LIMIT * FP_ONE) <= v.x * c - v.y * s <= 2 * LIMIT * FP_ONE
                && -(2 * LIMIT * FP_ONE) <= v.x * s + v.y * c <= 2 * LIMIT * FP_ONE)
                by (nonlinear_arith)
                requires
                    -LIMIT <= v.x <= LIMIT && -LIMIT <= v.y <= LIMIT,
                    -FP_ONE <= c <= FP_ONE && -FP_ONE <= s <= FP_ONE;
        }
        let xr: i128 = mul64(v.x, c) - mul64(v.y, s);
        let yr: i128 = mul64(v.x, s) + mul64(v.y, c);
        let xq: i128 = xr / (FP_ONE as i128);
        let yq: i128 = yr / (FP_ONE as i128);
        proof {
            lemma_tdiv_bound(xr as int, 2 * LIMIT as int, FP_ONE as int);
            lemma_tdiv_bound(yr as int, 2 * LIMIT as int, FP_ONE as int);
        }
        let w = Vec2 { x: xq as i64 + px, y: yq as i64 + py };
        proof {
            assert(pt(w) == world_pt(v, *transform));
            assert(world_pts(vertices@, *transform)[i as int] == world_pt(v, *transform));
        }
        out.push(w);
        i = i + 1;
    }
    out
}

} // verus!
