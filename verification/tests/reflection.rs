use breakout::collision::reflect;
use breakout::entity::{GameEvent, Velocity};
use breakout::geometry::Edge;
use breakout::world::sound_signals;

fn vel(x: i64, y: i64) -> Velocity {
    Velocity { x, y }
}

#[test]
fn left_edge_flips_positive_x() {
    assert_eq!(reflect(vel(5, -3), Edge::Left), vel(-5, -3));
}

#[test]
fn left_edge_keeps_negative_x() {
    assert_eq!(reflect(vel(-5, -3), Edge::Left), vel(-5, -3));
}

#[test]
fn right_edge_flips_negative_x() {
    assert_eq!(reflect(vel(-5, 3), Edge::Right), vel(5, 3));
}

#[test]
fn right_edge_keeps_positive_x() {
    assert_eq!(reflect(vel(5, 3), Edge::Right), vel(5, 3));
}

#[test]
fn top_edge_flips_negative_y() {
    assert_eq!(reflect(vel(2, -7), Edge::Top), vel(2, 7));
}

#[test]
fn top_edge_keeps_positive_y() {
    assert_eq!(reflect(vel(2, 7), Edge::Top), vel(2, 7));
}

#[test]
fn bottom_edge_flips_positive_y() {
    assert_eq!(reflect(vel(2, 7), Edge::Bottom), vel(2, -7));
}

#[test]
fn bottom_edge_keeps_negative_y() {
    // The guard against double reflection: a bottom-edge hit with the
    // vertical velocity already negative leaves the velocity unchanged.
    assert_eq!(reflect(vel(2, -7), Edge::Bottom), vel(2, -7));
}

#[test]
fn inside_reflects_nothing() {
    assert_eq!(reflect(vel(4, -9), Edge::Inside), vel(4, -9));
}

#[test]
fn zero_component_is_never_flipped() {
    assert_eq!(reflect(vel(0, 0), Edge::Left), vel(0, 0));
    assert_eq!(reflect(vel(0, 0), Edge::Bottom), vel(0, 0));
}

#[test]
fn sounds_for_empty_queue() {
    let events: Vec<GameEvent> = vec![];
    assert_eq!(sound_signals(&events), (false, false));
}

#[test]
fn sounds_for_wall_hit() {
    let events: Vec<GameEvent> = vec![GameEvent::Collision];
    assert_eq!(sound_signals(&events), (true, false));
}

#[test]
fn sounds_for_brick_hit() {
    let events: Vec<GameEvent> = vec![GameEvent::Collision, GameEvent::Explosion];
    assert_eq!(sound_signals(&events), (true, true));
}
