use breakout::geometry::{collide, Edge, Rect};

fn rect(x: i64, y: i64, hx: i64, hy: i64) -> Rect {
    Rect { x, y, hx, hy }
}

#[test]
fn no_overlap_is_none() {
    let a = rect(0, 0, 10, 10);
    let b = rect(100, 0, 10, 10);
    assert_eq!(collide(&a, &b), None);
}

#[test]
fn touching_edges_is_none() {
    // Overlap is strict: rectangles that merely touch do not collide.
    let a = rect(0, 0, 10, 10);
    let b = rect(20, 0, 10, 10);
    assert_eq!(collide(&a, &b), None);
}

#[test]
fn hit_left_edge() {
    let a = rect(0, 0, 10, 10);
    let b = rect(15, 0, 10, 10);
    assert_eq!(collide(&a, &b), Some(Edge::Left));
}

#[test]
fn hit_right_edge() {
    let a = rect(0, 0, 10, 10);
    let b = rect(-15, 0, 10, 10);
    assert_eq!(collide(&a, &b), Some(Edge::Right));
}

#[test]
fn hit_top_edge() {
    let a = rect(0, 15, 10, 10);
    let b = rect(0, 0, 10, 10);
    assert_eq!(collide(&a, &b), Some(Edge::Top));
}

#[test]
fn hit_bottom_edge() {
    let a = rect(0, -15, 10, 10);
    let b = rect(0, 0, 10, 10);
    assert_eq!(collide(&a, &b), Some(Edge::Bottom));
}

#[test]
fn full_containment_is_inside() {
    let a = rect(0, 0, 2, 2);
    let b = rect(0, 0, 10, 10);
    assert_eq!(collide(&a, &b), Some(Edge::Inside));
}

#[test]
fn least_penetration_wins() {
    // x penetration 15, y penetration 6: the shallower y axis is chosen, and
    // the first rectangle sits below the second, so its bottom edge is hit.
    let a = rect(0, 0, 10, 10);
    let b = rect(5, 14, 10, 10);
    assert_eq!(collide(&a, &b), Some(Edge::Bottom));
}

#[test]
fn equal_penetration_prefers_x_axis() {
    // Corner overlap with equal depths on both axes goes to the x axis.
    let a = rect(0, 0, 10, 10);
    let b = rect(14, 14, 10, 10);
    assert_eq!(collide(&a, &b), Some(Edge::Left));
}

#[test]
fn one_axis_contained_uses_the_other() {
    // The first rectangle is inside the second along x, so the struck edge
    // comes from the y axis however deep the y penetration is.
    let a = rect(100, -100, 1800, 1800);
    let b = rect(0, -2400, 4800, 1800);
    assert_eq!(collide(&a, &b), Some(Edge::Top));
}
