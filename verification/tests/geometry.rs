use ghostly_core::collision::{check_circle_box_intersection, CollBox, CollCircle};
use ghostly_core::fx::{
    fx_clamp, fx_decay_toward, fx_move_toward, fx_mul, isqrt64, vec_len, vec_normalize, Vec2Fx,
};

fn bx(x: i64, y: i64, hx: i64, hy: i64) -> CollBox {
    CollBox { pos: Vec2Fx { x, y }, half_dim: Vec2Fx { x: hx, y: hy } }
}

#[test]
fn box_intersection_is_symmetric() {
    let cases = [
        (bx(0, 0, 4000, 6000), bx(10000, 0, 4000, 6000)),
        (bx(0, 0, 4000, 6000), bx(7000, 1000, 4000, 6000)),
        (bx(-3000, 2000, 1000, 1000), bx(0, 0, 2500, 2500)),
        (bx(0, 0, 0, 0), bx(0, 0, 1000, 1000)),
    ];
    for (a, b) in cases {
        assert_eq!(a.check_intersection(&b), b.check_intersection(&a));
    }
}

#[test]
fn touching_edges_do_not_count() {
    let a = bx(0, 0, 4000, 4000);
    let b = bx(8000, 0, 4000, 4000);
    assert!(!a.check_intersection(&b));
    let c = bx(7999, 0, 4000, 4000);
    assert!(a.check_intersection(&c));
}

#[test]
fn align_x_separates_and_keeps_y_overlap() {
    let mut a = bx(1000, 500, 4000, 6000);
    let b = bx(4000, 0, 4000, 6000);
    assert!(a.check_intersection(&b));
    a.align_edge_x(&b);
    // no x overlap after the alignment, pushed to the negative side
    assert_eq!(a.pos.x, 4000 - 8000);
    assert!(!a.check_intersection(&b));
    // the y axis was untouched
    assert_eq!(a.pos.y, 500);
    assert!((a.pos.y - b.pos.y).abs() < a.half_dim.y + b.half_dim.y);
}

#[test]
fn align_x_tie_resolves_toward_negative() {
    let mut a = bx(5000, 0, 2000, 2000);
    let b = bx(5000, 0, 3000, 3000);
    a.align_edge_x(&b);
    assert_eq!(a.pos.x, 5000 - 5000);
}

#[test]
fn circle_box_nearest_point() {
    let c = CollCircle { pos: Vec2Fx { x: 10000, y: 0 }, radius: 3000 };
    let b = bx(0, 0, 8000, 8000);
    assert!(check_circle_box_intersection(&c, &b));
    let far = CollCircle { pos: Vec2Fx { x: 12000, y: 0 }, radius: 3000 };
    assert!(!check_circle_box_intersection(&far, &b));
}

#[test]
fn integer_square_root() {
    assert_eq!(isqrt64(0), 0);
    assert_eq!(isqrt64(1), 1);
    assert_eq!(isqrt64(35), 5);
    assert_eq!(isqrt64(36), 6);
    assert_eq!(isqrt64(1_000_000), 1000);
}

#[test]
fn vector_length_and_normalize() {
    assert_eq!(vec_len(3000, 4000), 5000);
    let n = vec_normalize(1000, 1000);
    assert_eq!(n.x, 707);
    assert_eq!(n.y, 707);
    let n2 = vec_normalize(0, 0);
    assert_eq!(n2, Vec2Fx { x: 0, y: 0 });
    let n3 = vec_normalize(-5000, 0);
    assert_eq!(n3, Vec2Fx { x: -1000, y: 0 });
}

#[test]
fn scalar_helpers() {
    assert_eq!(fx_mul(67200, 1000), 67200);
    assert_eq!(fx_mul(1000, -250), -250);
    assert_eq!(fx_move_toward(0, 10000, 3000), 3000);
    assert_eq!(fx_move_toward(9000, 10000, 3000), 10000);
    assert_eq!(fx_move_toward(0, -10000, 3000), -3000);
    assert_eq!(fx_clamp(5, 0, 3), 3);
    // a whole unit of decay lands on the target
    assert_eq!(fx_decay_toward(2000, 6000, 1000), 6000);
    // half a unit covers half the gap
    assert_eq!(fx_decay_toward(2000, 6000, 500), 4000);
}
