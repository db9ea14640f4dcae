//! Axis-aligned rectangles and the ball-versus-collider overlap test.
//!
//! A collision is classified by the edge of the second rectangle that the
//! first one struck, chosen on the axis of least penetration; a first
//! rectangle that penetrates neither a vertical nor a horizontal edge is
//! `Inside`, and no reflection applies to it.

use vstd::prelude::*;

verus! {

/// Largest magnitude allowed for a coordinate or a half-extent. It keeps
/// every edge coordinate within two times the bound and every penetration
/// depth within four times the bound, so all of them fit in an `i64`.
pub const COORD_MAX: i64 = 0x1000_0000_0000_0000;

/// Mathematical view of a rectangle: centre and half-extents as unbounded
/// integers.
pub ghost struct RectView {
    pub x: int,
    pub y: int,
    pub hx: int,
    pub hy: int,
}

impl RectView {
    pub open spec fn left(self) -> int {
        self.x - self.hx
    }

    pub open spec fn right(self) -> int {
        self.x + self.hx
    }

    pub open spec fn bottom(self) -> int {
        self.y - self.hy
    }

    pub open spec fn top(self) -> int {
        self.y + self.hy
    }

    /// Half-extents are non-negative and everything is bounded, so that the
    /// executable overlap test cannot overflow.
    pub open spec fn wf(self) -> bool {
        &&& -COORD_MAX <= self.x <= COORD_MAX
        &&& -COORD_MAX <= self.y <= COORD_MAX
        &&& 0 <= self.hx <= COORD_MAX
        &&& 0 <= self.hy <= COORD_MAX
    }
}

/// An axis-aligned rectangle: centre `(x, y)` and half-extents `(hx, hy)`.
#[derive(Clone, Copy, Debug, PartialEq, Eq, Structural)]
pub struct Rect {
    pub x: i64,
    pub y: i64,
    pub hx: i64,
    pub hy: i64,
}

impl View for Rect {
    type V = RectView;

    open spec fn view(&self) -> RectView {
        RectView { x: self.x as int, y: self.y as int, hx: self.hx as int, hy: self.hy as int }
    }
}

/// The edge of the collider that the ball struck. `Inside` stands for full
/// containment, where no single edge was struck and no reflection applies.
#[derive(Clone, Copy, Debug, PartialEq, Eq, Structural)]
pub enum Edge {
    Left,
    Right,
    Top,
    Bottom,
    Inside,
}

/// Strict overlap of the interiors of two rectangles.
pub open spec fn overlaps(a: RectView, b: RectView) -> bool {
    &&& a.left() < b.right()
    &&& a.right() > b.left()
    &&& a.bottom() < b.top()
    &&& a.top() > b.bottom()
}

/// `a` penetrates the left edge of `b`: it sticks out past that edge and
/// reaches past no other vertical edge.
pub open spec fn hits_left(a: RectView, b: RectView) -> bool {
    a.left() < b.left() && a.right() > b.left() && a.right() < b.right()
}

/// `a` penetrates the right edge of `b`.
pub open spec fn hits_right(a: RectView, b: RectView) -> bool {
    a.left() > b.left() && a.left() < b.right() && a.right() > b.right()
}

/// `a` penetrates the bottom edge of `b`.
pub open spec fn hits_bottom(a: RectView, b: RectView) -> bool {
    a.bottom() < b.bottom() && a.top() > b.bottom() && a.top() < b.top()
}

/// `a` penetrates the top edge of `b`.
pub open spec fn hits_top(a: RectView, b: RectView) -> bool {
    a.bottom() > b.bottom() && a.bottom() < b.top() && a.top() > b.top()
}

/// `a` penetrates exactly one vertical edge of `b`.
pub open spec fn x_edge(a: RectView, b: RectView) -> bool {
    hits_left(a, b) || hits_right(a, b)
}

/// `a` penetrates exactly one horizontal edge of `b`.
pub open spec fn y_edge(a: RectView, b: RectView) -> bool {
    hits_bottom(a, b) || hits_top(a, b)
}

/// Penetration depth along the x axis; meaningful only when `x_edge` holds.
pub open spec fn x_pen(a: RectView, b: RectView) -> int {
    if hits_left(a, b) {
        a.right() - b.left()
    } else {
        b.right() - a.left()
    }
}

/// Penetration depth along the y axis; meaningful only when `y_edge` holds.
pub open spec fn y_pen(a: RectView, b: RectView) -> int {
    if hits_bottom(a, b) {
        a.top() - b.bottom()
    } else {
        b.top() - a.bottom()
    }
}

/// The struck edge of `b`, on the axis of least penetration. An axis on
/// which `a` penetrates no single edge counts as infinitely deep; ties go to
/// the x axis.
pub open spec fn classify(a: RectView, b: RectView) -> Edge {
    if y_edge(a, b) && (!x_edge(a, b) || y_pen(a, b) < x_pen(a, b)) {
        if hits_bottom(a, b) {
            Edge::Bottom
        } else {
            Edge::Top
        }
    } else if x_edge(a, b) {
        if hits_left(a, b) {
            Edge::Left
        } else {
            Edge::Right
        }
    } else {
        Edge::Inside
    }
}

/// Full contract of the overlap test: the struck edge on overlap, nothing on
/// zero overlap.
pub open spec fn collide_spec(a: RectView, b: RectView) -> Option<Edge> {
    if overlaps(a, b) {
        Some(classify(a, b))
    } else {
        None
    }
}

/// Overlap test and resolved-edge classification for two axis-aligned
/// rectangles. Pure; absence of overlap is a no-collision result, not an
/// error.
pub fn collide(a: &Rect, b: &Rect) -> (r: Option<Edge>)
    requires
        a@.wf(),
        b@.wf(),
    ensures
        r == collide_spec(a@, b@),
{
    let a_min_x: i64 = a.x - a.hx;
    let a_max_x: i64 = a.x + a.hx;
    let a_min_y: i64 = a.y - a.hy;
    let a_max_y: i64 = a.y + a.hy;
    let b_min_x: i64 = b.x - b.hx;
    let b_max_x: i64 = b.x + b.hx;
    let b_min_y: i64 = b.y - b.hy;
    let b_max_y: i64 = b.y + b.hy;

    if a_min_x < b_max_x && a_max_x > b_min_x && a_min_y < b_max_y && a_max_y > b_min_y {
        let x_has: bool;
        let x_is_left: bool;
        let x_depth: i64;
        if a_min_x < b_min_x && a_max_x > b_min_x && a_max_x < b_max_x {
            x_has = true;
            x_is_left = true;
            x_depth = a_max_x - b_min_x;
        } else if a_min_x > b_min_x && a_min_x < b_max_x && a_max_x > b_max_x {
            x_has = true;
            x_is_left = false;
            x_depth = b_max_x - a_min_x;
        } else {
            x_has = false;
            x_is_left = false;
            x_depth = 0;
        }

        let y_has: bool;
        let y_is_bottom: bool;
        let y_depth: i64;
        if a_min_y < b_min_y && a_max_y > b_min_y && a_max_y < b_max_y {
            y_has = true;
            y_is_bottom = true;
            y_depth = a_max_y - b_min_y;
        } else if a_min_y > b_min_y && a_min_y < b_max_y && a_max_y > b_max_y {
            y_has = true;
            y_is_bottom = false;
            y_depth = b_max_y - a_min_y;
        } else {
            y_has = false;
            y_is_bottom = false;
            y_depth = 0;
        }

        if y_has && (!x_has || y_depth < x_depth) {
            if y_is_bottom {
                Some(Edge::Bottom)
            } else {
                Some(Edge::Top)
            }
        } else if x_has {
            if x_is_left {
                Some(Edge::Left)
            } else {
                Some(Edge::Right)
            }
        } else {
            Some(Edge::Inside)
        }
    } else {
        None
    }
}

/// For all rectangle pairs with nonzero overlap, the classification names an
/// edge on the axis of minimum penetration: a vertical edge only when no
/// horizontal edge is struck more shallowly, a horizontal edge only when it
/// is struck strictly more shallowly than any struck vertical edge, and
/// `Inside` exactly when no edge is struck at all. Zero overlap gives a
/// no-collision result.
pub proof fn lemma_min_penetration(a: RectView, b: RectView)
    ensures
        !overlaps(a, b) ==> collide_spec(a, b) is None,
        overlaps(a, b) ==> collide_spec(a, b) == Some(classify(a, b)),
        (classify(a, b) == Edge::Left || classify(a, b) == Edge::Right) ==> {
            &&& x_edge(a, b)
            &&& y_edge(a, b) ==> x_pen(a, b) <= y_pen(a, b)
        },
        (classify(a, b) == Edge::Top || classify(a, b) == Edge::Bottom) ==> {
            &&& y_edge(a, b)
            &&& x_edge(a, b) ==> y_pen(a, b) < x_pen(a, b)
        },
        classify(a, b) == Edge::Inside ==> !x_edge(a, b) && !y_edge(a, b),
        classify(a, b) == Edge::Left ==> hits_left(a, b),
        classify(a, b) == Edge::Right ==> hits_right(a, b),
        classify(a, b) == Edge::Bottom ==> hits_bottom(a, b),
        classify(a, b) == Edge::Top ==> hits_top(a, b),
{
}

} // verus!
