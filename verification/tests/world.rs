use breakout::entity::{Config, GameEvent, GameState, InputState, Kind, Overlay, Velocity};
use breakout::geometry::Rect;
use breakout::world::World;

// Coordinates below are in subunits of 1/60 world unit, so a velocity in
// world units per second advances a position by its own value each tick.
const SCALE: i64 = 60;

fn idle() -> InputState {
    InputState { left_pressed: false, right_pressed: false, confirm_released: false }
}

fn confirm() -> InputState {
    InputState { left_pressed: false, right_pressed: false, confirm_released: true }
}

fn hold_left() -> InputState {
    InputState { left_pressed: true, right_pressed: false, confirm_released: false }
}

fn hold_right() -> InputState {
    InputState { left_pressed: false, right_pressed: true, confirm_released: false }
}

/// The classic arena: four walls, a 5 x 10 brick grid, ball and paddle.
fn classic_config() -> Config {
    Config {
        walls: vec![
            Rect { x: -400 * SCALE, y: 0, hx: 5 * SCALE, hy: 325 * SCALE },
            Rect { x: 465 * SCALE, y: 0, hx: 5 * SCALE, hy: 325 * SCALE },
            Rect { x: 1950, y: 325 * SCALE, hx: 26250, hy: 5 * SCALE },
            Rect { x: 1950, y: -325 * SCALE, hx: 26250, hy: 5 * SCALE },
        ],
        grid_rows: 5,
        grid_cols: 10,
        cell_hx: 40 * SCALE,
        cell_hy: 15 * SCALE,
        cell_space: 5 * SCALE,
        grid_left: -350 * SCALE,
        grid_top: 300 * SCALE,
        ball_x: 0,
        ball_y: -50 * SCALE,
        ball_hx: 15 * SCALE,
        ball_hy: 15 * SCALE,
        ball_vx: 283,
        ball_vy: -283,
        paddle_x: 0,
        paddle_y: -305 * SCALE,
        paddle_hx: 60 * SCALE,
        paddle_hy: 10 * SCALE,
        paddle_speed: 10 * SCALE,
        paddle_min_x: -19650,
        paddle_max_x: 23550,
        ticks_per_second: 60,
    }
}

/// An arena with no walls and no bricks; the paddle sits far below.
fn bare_config() -> Config {
    Config {
        walls: vec![],
        grid_rows: 0,
        grid_cols: 0,
        cell_hx: 0,
        cell_hy: 0,
        cell_space: 0,
        grid_left: 0,
        grid_top: 0,
        ball_x: 0,
        ball_y: 0,
        ball_hx: 1800,
        ball_hy: 1800,
        ball_vx: 100,
        ball_vy: -100,
        paddle_x: 0,
        paddle_y: -50_000,
        paddle_hx: 3600,
        paddle_hy: 600,
        paddle_speed: 600,
        paddle_min_x: -19650,
        paddle_max_x: 23550,
        ticks_per_second: 60,
    }
}

#[test]
fn setup_spawns_the_scene() {
    let config = classic_config();
    let w = World::new(config);
    assert_eq!(w.colliders.len(), 4 + 50 + 1);
    assert_eq!(w.colliders[0].kind, Kind::Wall);
    assert_eq!(w.colliders[0].rect, Rect { x: -24000, y: 0, hx: 300, hy: 19500 });
    // First brick of the grid sits at the grid's top-left corner.
    assert_eq!(w.colliders[4].kind, Kind::Brick);
    assert_eq!(w.colliders[4].rect, Rect { x: -21000, y: 18000, hx: 2400, hy: 900 });
    // Row 1, column 3: one row down, three cells right.
    assert_eq!(w.colliders[4 + 13].rect, Rect { x: -5700, y: 15900, hx: 2400, hy: 900 });
    assert!(w.colliders.iter().all(|e| e.alive));
    let paddle = w.colliders[w.paddle];
    assert_eq!(w.paddle, 54);
    assert_eq!(paddle.kind, Kind::Paddle);
    assert_eq!(paddle.rect, Rect { x: 0, y: -18300, hx: 3600, hy: 600 });
    assert_eq!(w.ball, Rect { x: 0, y: -3000, hx: 900, hy: 900 });
    assert_eq!(w.ball_vel, Velocity { x: 283, y: -283 });
    assert_eq!(w.score, 0);
    assert_eq!(w.state, GameState::Paused);
    assert_eq!(w.overlay, Some(Overlay::Start));
    assert!(w.events.is_empty());
}

#[test]
fn paused_ticks_freeze_the_simulation() {
    let mut w = World::new(classic_config());
    for _ in 0..100 {
        w.tick(idle());
    }
    assert_eq!(w.state, GameState::Paused);
    assert_eq!(w.overlay, Some(Overlay::Start));
    assert_eq!(w.ball, Rect { x: 0, y: -3000, hx: 900, hy: 900 });
    assert_eq!(w.ball_vel, Velocity { x: 283, y: -283 });
    assert_eq!(w.score, 0);
    assert!(w.events.is_empty());
}

#[test]
fn paused_ticks_ignore_movement_keys() {
    let mut w = World::new(classic_config());
    for _ in 0..10 {
        w.tick(hold_left());
    }
    assert_eq!(w.colliders[w.paddle].rect.x, 0);
}

#[test]
fn confirm_release_toggles_state_and_overlay() {
    let mut w = World::new(classic_config());
    assert_eq!(w.state, GameState::Paused);
    assert_eq!(w.overlay, Some(Overlay::Start));

    w.tick(confirm());
    assert_eq!(w.state, GameState::Running);
    assert_eq!(w.overlay, None);
    // The tick that starts the game already runs the physics step.
    assert_eq!(w.ball, Rect { x: 283, y: -3283, hx: 900, hy: 900 });

    w.tick(confirm());
    assert_eq!(w.state, GameState::Paused);
    assert_eq!(w.overlay, Some(Overlay::Pause));
    let frozen = w.ball;

    for _ in 0..50 {
        w.tick(idle());
    }
    assert_eq!(w.state, GameState::Paused);
    assert_eq!(w.overlay, Some(Overlay::Pause));
    assert_eq!(w.ball, frozen);
    assert_eq!(w.ball_vel, Velocity { x: 283, y: -283 });
}

#[test]
fn brick_hit_moves_scores_and_despawns() {
    // Ball at the origin, 30 x 30 half-extents, moving (100, -100) world
    // units per second; one brick at (0, -40) with half-extents (80, 30).
    // One 1/60 s tick moves the ball to (1.67, -1.67) in world units, the
    // ball strikes the brick on the axis of least penetration, the vertical
    // velocity flips to +100, the brick despawns and the score becomes 1.
    let mut config = bare_config();
    config.grid_rows = 1;
    config.grid_cols = 1;
    config.cell_hx = 80 * SCALE;
    config.cell_hy = 30 * SCALE;
    config.grid_left = 0;
    config.grid_top = -40 * SCALE;
    let mut w = World::new(config);

    w.tick(confirm());

    assert_eq!(w.ball.x, 100);
    assert_eq!(w.ball.y, -100);
    assert_eq!(w.ball_vel, Velocity { x: 100, y: 100 });
    assert!(!w.colliders[0].alive);
    assert_eq!(w.score, 1);
    let events = w.drain_events();
    assert_eq!(events, vec![GameEvent::Collision, GameEvent::Explosion]);
}

#[test]
fn despawned_brick_stays_absent() {
    let mut config = bare_config();
    config.grid_rows = 1;
    config.grid_cols = 1;
    config.cell_hx = 80 * SCALE;
    config.cell_hy = 30 * SCALE;
    config.grid_left = 0;
    config.grid_top = -40 * SCALE;
    let mut w = World::new(config);

    w.tick(confirm());
    assert_eq!(w.score, 1);
    assert!(!w.colliders[0].alive);

    // The ball keeps crossing the dead brick's rectangle: no further events,
    // no further score, the brick never comes back.
    w.drain_events();
    for _ in 0..3 {
        w.tick(idle());
    }
    assert_eq!(w.score, 1);
    assert!(!w.colliders[0].alive);
    assert!(w.drain_events().is_empty());
}

#[test]
fn wall_hit_reflects_without_scoring() {
    let mut config = bare_config();
    config.walls = vec![Rect { x: -2000, y: 0, hx: 300, hy: 19500 }];
    config.ball_hx = 900;
    config.ball_hy = 900;
    config.ball_vx = -900;
    config.ball_vy = 0;
    let mut w = World::new(config);

    w.tick(confirm());

    assert_eq!(w.ball.x, -900);
    assert_eq!(w.ball_vel, Velocity { x: 900, y: 0 });
    assert!(w.colliders[0].alive);
    assert_eq!(w.score, 0);
    assert_eq!(w.drain_events(), vec![GameEvent::Collision]);
}

#[test]
fn simultaneous_hits_update_one_velocity_in_order() {
    // Two bricks in one column, the ball between them moving up. The first
    // brick in store order is hit on its bottom edge and flips the vertical
    // velocity to negative; the second is then hit on its top edge and flips
    // it back: two reflections in one tick, both scored.
    let mut config = bare_config();
    config.grid_rows = 2;
    config.grid_cols = 1;
    config.cell_hx = 1800;
    config.cell_hy = 1800;
    config.cell_space = 0;
    config.grid_left = 0;
    config.grid_top = 2400;
    config.ball_x = 0;
    config.ball_y = 500;
    config.ball_vx = 0;
    config.ball_vy = 100;
    let mut w = World::new(config);

    w.tick(confirm());

    assert_eq!(w.ball.y, 600);
    assert_eq!(w.ball_vel, Velocity { x: 0, y: 100 });
    assert!(!w.colliders[0].alive);
    assert!(!w.colliders[1].alive);
    assert_eq!(w.score, 2);
    assert_eq!(
        w.drain_events(),
        vec![
            GameEvent::Collision,
            GameEvent::Explosion,
            GameEvent::Collision,
            GameEvent::Explosion,
        ]
    );
}

#[test]
fn paddle_clamps_at_left_bound() {
    // Paddle at the left bound, move-left held for 100 ticks at speed
    // 10 world units per tick: the position stays exactly at the bound.
    let mut config = bare_config();
    config.paddle_x = config.paddle_min_x;
    let mut w = World::new(config);

    w.tick(confirm());
    for _ in 0..100 {
        w.tick(hold_left());
        assert_eq!(w.colliders[w.paddle].rect.x, -19650);
    }
    assert_eq!(w.colliders[w.paddle].rect.x, -19650);
}

#[test]
fn paddle_clamps_at_right_bound() {
    let mut config = bare_config();
    config.paddle_x = config.paddle_max_x;
    let mut w = World::new(config);

    w.tick(confirm());
    for _ in 0..5 {
        w.tick(hold_right());
    }
    assert_eq!(w.colliders[w.paddle].rect.x, 23550);
}

#[test]
fn paddle_moves_by_speed_per_tick() {
    let mut w = World::new(bare_config());
    w.tick(confirm());
    w.tick(hold_right());
    assert_eq!(w.colliders[w.paddle].rect.x, 600);
    w.tick(hold_left());
    assert_eq!(w.colliders[w.paddle].rect.x, 0);
}

#[test]
fn right_key_overrides_left_when_both_held() {
    let mut w = World::new(bare_config());
    w.tick(confirm());
    w.tick(InputState { left_pressed: true, right_pressed: true, confirm_released: false });
    assert_eq!(w.colliders[w.paddle].rect.x, 600);
}

#[test]
fn drained_queue_is_empty() {
    let mut config = bare_config();
    config.walls = vec![Rect { x: -2000, y: 0, hx: 300, hy: 19500 }];
    config.ball_vx = -900;
    config.ball_vy = 0;
    let mut w = World::new(config);
    w.tick(confirm());

    let first = w.drain_events();
    assert_eq!(first.len(), 1);
    assert!(w.events.is_empty());
    let second = w.drain_events();
    assert!(second.is_empty());
}
