//! The collision and scoring pass: the ball is tested against every collider
//! in store order, bricks it touches are despawned and scored, and its
//! velocity is reflected on the struck edges.
//!
//! Within one pass the ball's position is fixed, but its velocity is a single
//! mutable value updated sequentially: a reflection from an earlier collider
//! is visible to the guard of a later one, so a ball overlapping two
//! colliders at once can flip a component twice in the same tick.

use crate::entity::{EntityView, GameEvent, Kind, Velocity};
use crate::geometry::{collide_spec, overlaps, Edge, RectView, COORD_MAX};
use vstd::prelude::*;

verus! {

/// Reflection of a velocity on a struck edge. A component is flipped only
/// when it points into the obstacle — against the edge's outward normal —
/// which prevents a second reflection while the ball still overlaps the
/// collider on a later tick.
pub open spec fn reflect_spec(vx: int, vy: int, edge: Edge) -> (int, int) {
    match edge {
        Edge::Left => if vx > 0 { (-vx, vy) } else { (vx, vy) },
        Edge::Right => if vx < 0 { (-vx, vy) } else { (vx, vy) },
        Edge::Top => if vy < 0 { (vx, -vy) } else { (vx, vy) },
        Edge::Bottom => if vy > 0 { (vx, -vy) } else { (vx, vy) },
        Edge::Inside => (vx, vy),
    }
}

/// Reflect the ball's velocity on the struck edge.
pub fn reflect(v: Velocity, edge: Edge) -> (r: Velocity)
    requires
        -COORD_MAX <= v.x <= COORD_MAX,
        -COORD_MAX <= v.y <= COORD_MAX,
    ensures
        (r.x as int, r.y as int) == reflect_spec(v.x as int, v.y as int, edge),
{
    match edge {
        Edge::Left => if v.x > 0 {
            Velocity { x: -v.x, y: v.y }
        } else {
            v
        },
        Edge::Right => if v.x < 0 {
            Velocity { x: -v.x, y: v.y }
        } else {
            v
        },
        Edge::Top => if v.y < 0 {
            Velocity { x: v.x, y: -v.y }
        } else {
            v
        },
        Edge::Bottom => if v.y > 0 {
            Velocity { x: v.x, y: -v.y }
        } else {
            v
        },
        Edge::Inside => v,
    }
}

/// What the ball at `ball` strikes on entity `e`: nothing when the entity is
/// despawned, otherwise the overlap test's result.
pub open spec fn hit_of(ball: RectView, e: EntityView) -> Option<Edge> {
    if e.alive {
        collide_spec(ball, e.rect)
    } else {
        None
    }
}

/// A live brick that the ball overlaps: it is despawned and scored this pass.
pub open spec fn brick_hit(ball: RectView, e: EntityView) -> bool {
    e.alive && e.kind == Kind::Brick && overlaps(ball, e.rect)
}

/// An entity after the pass: a hit brick is despawned, everything else is
/// untouched.
pub open spec fn step_entity(ball: RectView, e: EntityView) -> EntityView {
    if brick_hit(ball, e) {
        EntityView { alive: false, ..e }
    } else {
        e
    }
}

/// The events one entity contributes: a collision event for any hit, and an
/// explosion event more when the hit entity is a brick.
pub open spec fn step_events(ball: RectView, e: EntityView) -> Seq<GameEvent> {
    match hit_of(ball, e) {
        Some(_) => if e.kind == Kind::Brick {
            seq![GameEvent::Collision, GameEvent::Explosion]
        } else {
            seq![GameEvent::Collision]
        },
        None => Seq::empty(),
    }
}

/// The ball's velocity after its test against one entity.
pub open spec fn step_vel(ball: RectView, e: EntityView, vx: int, vy: int) -> (int, int) {
    match hit_of(ball, e) {
        Some(edge) => reflect_spec(vx, vy, edge),
        None => (vx, vy),
    }
}

/// The collider store after one pass of the ball at `ball`.
pub open spec fn pass_entities(ball: RectView, cs: Seq<EntityView>) -> Seq<EntityView> {
    cs.map_values(|e: EntityView| step_entity(ball, e))
}

/// The events of one pass, in store order.
pub open spec fn pass_events(ball: RectView, cs: Seq<EntityView>) -> Seq<GameEvent>
    decreases cs.len(),
{
    if cs.len() == 0 {
        Seq::empty()
    } else {
        pass_events(ball, cs.drop_last()) + step_events(ball, cs.last())
    }
}

/// The ball's velocity after one pass, the reflections applied in store
/// order.
pub open spec fn pass_vel(ball: RectView, cs: Seq<EntityView>, vx: int, vy: int) -> (int, int)
    decreases cs.len(),
{
    if cs.len() == 0 {
        (vx, vy)
    } else {
        let p = pass_vel(ball, cs.drop_last(), vx, vy);
        step_vel(ball, cs.last(), p.0, p.1)
    }
}

/// How many bricks one pass despawns; the scoreboard rises by exactly this.
pub open spec fn bricks_hit(ball: RectView, cs: Seq<EntityView>) -> int
    decreases cs.len(),
{
    if cs.len() == 0 {
        0
    } else {
        bricks_hit(ball, cs.drop_last()) + if brick_hit(ball, cs.last()) {
            1int
        } else {
            0int
        }
    }
}

/// How many live bricks a store holds.
pub open spec fn live_bricks(cs: Seq<EntityView>) -> int
    decreases cs.len(),
{
    if cs.len() == 0 {
        0
    } else {
        live_bricks(cs.drop_last()) + if cs.last().alive && cs.last().kind == Kind::Brick {
            1int
        } else {
            0int
        }
    }
}

pub proof fn lemma_live_bricks_le_len(cs: Seq<EntityView>)
    ensures
        0 <= live_bricks(cs) <= cs.len(),
    decreases cs.len(),
{
    if cs.len() > 0 {
        lemma_live_bricks_le_len(cs.drop_last());
    }
}

pub proof fn lemma_live_bricks_update(cs: Seq<EntityView>, i: int, e: EntityView)
    requires
        0 <= i < cs.len(),
    ensures
        live_bricks(cs.update(i, e)) == live_bricks(cs) - (if cs[i].alive && cs[i].kind
            == Kind::Brick {
            1int
        } else {
            0int
        }) + (if e.alive && e.kind == Kind::Brick {
            1int
        } else {
            0int
        }),
    decreases cs.len(),
{
    if i == cs.len() - 1 {
        assert(cs.update(i, e).drop_last() =~= cs.drop_last());
        assert(cs.update(i, e).last() == e);
    } else {
        lemma_live_bricks_update(cs.drop_last(), i, e);
        assert(cs.update(i, e).drop_last() =~= cs.drop_last().update(i, e));
        assert(cs.update(i, e).last() == cs.last());
    }
}

pub proof fn lemma_live_bricks_at(cs: Seq<EntityView>, i: int)
    requires
        0 <= i < cs.len(),
        cs[i].alive,
        cs[i].kind == Kind::Brick,
    ensures
        live_bricks(cs) >= 1,
    decreases cs.len(),
{
    if i == cs.len() - 1 {
        lemma_live_bricks_le_len(cs.drop_last());
    } else {
        lemma_live_bricks_at(cs.drop_last(), i);
    }
}

/// A pass turns hit bricks into dead ones and nothing else: it despawns
/// exactly the bricks it scores, so the score it adds equals the live bricks
/// it removes.
pub proof fn lemma_pass_accounting(ball: RectView, cs: Seq<EntityView>)
    ensures
        0 <= bricks_hit(ball, cs),
        bricks_hit(ball, cs) + live_bricks(pass_entities(ball, cs)) == live_bricks(cs),
    decreases cs.len(),
{
    if cs.len() > 0 {
        lemma_pass_accounting(ball, cs.drop_last());
        assert(pass_entities(ball, cs.drop_last()) =~= pass_entities(ball, cs).drop_last());
    } else {
        assert(pass_entities(ball, cs) =~= cs);
    }
}

/// Each reflection keeps a velocity component's magnitude: after a pass each
/// component is the one before the pass, or its negation.
pub proof fn lemma_pass_vel_magnitude(ball: RectView, cs: Seq<EntityView>, vx: int, vy: int)
    ensures
        pass_vel(ball, cs, vx, vy).0 == vx || pass_vel(ball, cs, vx, vy).0 == -vx,
        pass_vel(ball, cs, vx, vy).1 == vy || pass_vel(ball, cs, vx, vy).1 == -vy,
    decreases cs.len(),
{
    if cs.len() > 0 {
        lemma_pass_vel_magnitude(ball, cs.drop_last(), vx, vy);
    }
}

/// A live brick that the ball overlaps is despawned by the pass, and it
/// raises the count of scored bricks — the scoreboard's increase — by
/// exactly one against the same store with that brick already despawned.
pub proof fn lemma_brick_despawned(ball: RectView, cs: Seq<EntityView>, i: int)
    requires
        0 <= i < cs.len(),
        brick_hit(ball, cs[i]),
    ensures
        !pass_entities(ball, cs)[i].alive,
        bricks_hit(ball, cs) == 1 + bricks_hit(
            ball,
            cs.update(i, EntityView { alive: false, ..cs[i] }),
        ),
    decreases cs.len(),
{
    let dead = EntityView { alive: false, ..cs[i] };
    if i == cs.len() - 1 {
        assert(cs.update(i, dead).drop_last() =~= cs.drop_last());
    } else {
        lemma_brick_despawned(ball, cs.drop_last(), i);
        assert(cs.update(i, dead).drop_last() =~= cs.drop_last().update(i, dead));
        assert(cs.update(i, dead).last() == cs.last());
    }
}

/// Despawned entities are permanent: a pass leaves a dead entity wholly
/// unchanged, at this and at every later ball position, so a destroyed brick
/// is absent from every subsequent tick.
pub proof fn lemma_despawn_permanent(ball: RectView, cs: Seq<EntityView>, i: int)
    requires
        0 <= i < cs.len(),
        !cs[i].alive,
    ensures
        pass_entities(ball, cs)[i] == cs[i],
        !pass_entities(ball, cs)[i].alive,
{
}

/// The reflection rule in full: a velocity component is sign-flipped if and
/// only if its sign before the collision opposes the outward normal of the
/// struck edge; in particular a bottom-edge hit with the vertical velocity
/// already negative leaves it unchanged, and the other component is never
/// touched.
pub proof fn lemma_reflection_guard(vx: int, vy: int, edge: Edge)
    ensures
        edge == Edge::Left && vx > 0 ==> reflect_spec(vx, vy, edge) == (-vx, vy),
        edge == Edge::Left && vx <= 0 ==> reflect_spec(vx, vy, edge) == (vx, vy),
        edge == Edge::Right && vx < 0 ==> reflect_spec(vx, vy, edge) == (-vx, vy),
        edge == Edge::Right && vx >= 0 ==> reflect_spec(vx, vy, edge) == (vx, vy),
        edge == Edge::Top && vy < 0 ==> reflect_spec(vx, vy, edge) == (vx, -vy),
        edge == Edge::Top && vy >= 0 ==> reflect_spec(vx, vy, edge) == (vx, vy),
        edge == Edge::Bottom && vy > 0 ==> reflect_spec(vx, vy, edge) == (vx, -vy),
        edge == Edge::Bottom && vy <= 0 ==> reflect_spec(vx, vy, edge) == (vx, vy),
        edge == Edge::Inside ==> reflect_spec(vx, vy, edge) == (vx, vy),
        reflect_spec(vx, vy, edge).1 == vy || edge == Edge::Top || edge == Edge::Bottom,
        reflect_spec(vx, vy, edge).0 == vx || edge == Edge::Left || edge == Edge::Right,
{
}

} // verus!
