//! Overlap tests between placed shapes, on concrete fixed-point values.

use rigid2d::fx::FP_ONE;
use rigid2d::overlap::test_overlap;
use rigid2d::shape::{ColliderShape, Polygon};
use rigid2d::transform::Transform;
use rigid2d::vec2::Vec2;

fn fx(units: i64) -> i64 {
    units * FP_ONE
}

fn at(x: i64, y: i64) -> Transform {
    Transform { position: Vec2 { x, y }, rotation: 0 }
}

fn square_vertices(half: i64) -> Vec<Vec2> {
    vec![
        Vec2 { x: -half, y: -half },
        Vec2 { x: half, y: -half },
        Vec2 { x: half, y: half },
        Vec2 { x: -half, y: half },
    ]
}

#[test]
fn box_box_boundary_touch_counts() {
    let a = ColliderShape::AABB(Vec2 { x: fx(10), y: fx(10) });
    let b = ColliderShape::AABB(Vec2 { x: fx(10), y: fx(10) });
    assert!(test_overlap(&a, &at(0, 0), &b, &at(fx(15), 0)));
    assert!(test_overlap(&a, &at(0, 0), &b, &at(fx(20), 0)));
    assert!(!test_overlap(&a, &at(0, 0), &b, &at(fx(25), 0)));
}

#[test]
fn circle_circle_strict() {
    let a = ColliderShape::Circle(fx(10));
    let b = ColliderShape::Circle(fx(10));
    assert!(test_overlap(&a, &at(0, 0), &b, &at(fx(19), 0)));
    assert!(!test_overlap(&a, &at(0, 0), &b, &at(fx(20), 0)));
}

#[test]
fn circle_point_strict() {
    let c = ColliderShape::Circle(fx(5));
    let p = ColliderShape::Point;
    assert!(test_overlap(&c, &at(0, 0), &p, &at(fx(4), 0)));
    assert!(!test_overlap(&c, &at(0, 0), &p, &at(fx(5), 0)));
}

#[test]
fn polygon_sat_squares() {
    let a = ColliderShape::Polygon(square_vertices(fx(10)));
    let b = ColliderShape::Polygon(square_vertices(fx(10)));
    // Edge-touching squares overlap.
    assert!(test_overlap(&a, &at(0, 0), &b, &at(fx(20), 0)));
    // Separated by a hundredth of a unit, they do not.
    let just_past = fx(20) + FP_ONE / 100 + 1;
    assert!(!test_overlap(&a, &at(0, 0), &b, &at(just_past, 0)));
}

#[test]
fn box_point_boundary_inclusive() {
    let a = ColliderShape::AABB(Vec2 { x: fx(10), y: fx(10) });
    let p = ColliderShape::Point;
    assert!(test_overlap(&a, &at(0, 0), &p, &at(fx(10), 0)));
    assert!(!test_overlap(&a, &at(0, 0), &p, &at(fx(10) + 1, 0)));
}

#[test]
fn point_point_same_position() {
    let p = ColliderShape::Point;
    let q = ColliderShape::Point;
    assert!(test_overlap(&p, &at(fx(3), fx(4)), &q, &at(fx(3), fx(4))));
    assert!(!test_overlap(&p, &at(fx(3), fx(4)), &q, &at(fx(3), fx(4) + 1)));
}

#[test]
fn box_circle_closest_point_strict() {
    let a = ColliderShape::AABB(Vec2 { x: fx(10), y: fx(10) });
    let c = ColliderShape::Circle(fx(5));
    assert!(test_overlap(&a, &at(0, 0), &c, &at(fx(14), 0)));
    assert!(!test_overlap(&a, &at(0, 0), &c, &at(fx(15), 0)));
    // Circle center inside the box.
    assert!(test_overlap(&a, &at(0, 0), &c, &at(fx(1), fx(1))));
}

#[test]
fn polygon_circle_touch_counts() {
    let a = ColliderShape::Polygon(square_vertices(fx(10)));
    let c = ColliderShape::Circle(fx(5));
    assert!(test_overlap(&a, &at(0, 0), &c, &at(fx(14), 0)));
    // Exact touch at x = 10 + 5: the separating-axis test counts a touch.
    assert!(test_overlap(&a, &at(0, 0), &c, &at(fx(15), 0)));
    assert!(!test_overlap(&a, &at(0, 0), &c, &at(fx(15) + 66, 0)));
}

#[test]
fn polygon_box_touch_counts() {
    let a = ColliderShape::Polygon(square_vertices(fx(10)));
    let b = ColliderShape::AABB(Vec2 { x: fx(10), y: fx(10) });
    assert!(test_overlap(&a, &at(0, 0), &b, &at(fx(20), 0)));
    assert!(!test_overlap(&a, &at(0, 0), &b, &at(fx(20) + 1, 0)));
}

#[test]
fn polygon_point_boundary_inclusive() {
    let a = ColliderShape::Polygon(square_vertices(fx(10)));
    let p = ColliderShape::Point;
    assert!(test_overlap(&a, &at(0, 0), &p, &at(fx(9), fx(9))));
    assert!(test_overlap(&a, &at(0, 0), &p, &at(fx(10), 0)));
    assert!(!test_overlap(&a, &at(0, 0), &p, &at(fx(10) + 1, 0)));
}

#[test]
fn polygon_rotation_moves_corners_out() {
    // A square of half-size 10 rotated by a quarter-turn-of-a-turn (pi/4)
    // reaches about 14.14 units along the axes; unrotated it reaches 10.
    let a = ColliderShape::Polygon(square_vertices(fx(10)));
    let eighth_turn = Transform { position: Vec2 { x: 0, y: 0 }, rotation: 51472 };
    let p = ColliderShape::Point;
    // Inside the rotated square, outside the unrotated one.
    assert!(test_overlap(&a, &eighth_turn, &p, &at(0, fx(13))));
    assert!(!test_overlap(&a, &at(0, 0), &p, &at(0, fx(13))));
    // Outside the rotated square (its corner reaches only ~14.14 up).
    assert!(!test_overlap(&a, &eighth_turn, &p, &at(0, fx(14) + FP_ONE / 2)));
}

#[test]
fn overlap_symmetry_on_mixed_pairs() {
    let shapes: Vec<ColliderShape> = vec![
        ColliderShape::Point,
        ColliderShape::AABB(Vec2 { x: fx(10), y: fx(6) }),
        ColliderShape::Circle(fx(7)),
        ColliderShape::Polygon(square_vertices(fx(8))),
    ];
    let placements = [at(0, 0), at(fx(9), fx(2)), at(fx(16), 0), at(fx(40), fx(40))];
    for (a, ta) in shapes.iter().zip(placements.iter()) {
        for (b, tb) in shapes.iter().zip(placements.iter()) {
            assert_eq!(test_overlap(a, ta, b, tb), test_overlap(b, tb, a, ta));
        }
    }
}

#[test]
fn polygon_world_placement() {
    let t = Transform { position: Vec2 { x: fx(10), y: fx(5) }, rotation: 0 };
    let poly = Polygon::square(fx(2), fx(3), &t);
    assert_eq!(poly.vertices.len(), 4);
    assert_eq!(poly.vertices[0], Vec2 { x: fx(8), y: fx(2) });
    assert_eq!(poly.vertices[1], Vec2 { x: fx(12), y: fx(2) });
    assert_eq!(poly.vertices[2], Vec2 { x: fx(12), y: fx(8) });
    assert_eq!(poly.vertices[3], Vec2 { x: fx(8), y: fx(8) });

    let vs = square_vertices(fx(2));
    let placed = Polygon::from_vertices(&vs, &t);
    assert_eq!(placed.vertices[2], Vec2 { x: fx(12), y: fx(7) });
}

#[test]
fn shape_check_rejects_degenerate_polygons() {
    // Too few vertices.
    let two = ColliderShape::Polygon(vec![Vec2 { x: 0, y: 0 }, Vec2 { x: fx(1), y: 0 }]);
    assert!(!two.check());
    // Clockwise winding.
    let mut cw = square_vertices(fx(10));
    cw.reverse();
    assert!(!ColliderShape::Polygon(cw).check());
    // Collinear corners.
    let flat = ColliderShape::Polygon(vec![
        Vec2 { x: 0, y: 0 },
        Vec2 { x: fx(1), y: 0 },
        Vec2 { x: fx(2), y: 0 },
    ]);
    assert!(!flat.check());
    // A proper counter-clockwise triangle passes.
    let tri = ColliderShape::Polygon(vec![
        Vec2 { x: 0, y: 0 },
        Vec2 { x: fx(4), y: 0 },
        Vec2 { x: 0, y: fx(4) },
    ]);
    assert!(tri.check());
}
