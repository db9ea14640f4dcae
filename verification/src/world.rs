//! The game world: a collider store, one ball, the scoreboard and the game
//! state, with the per-tick systems that drive them.
//!
//! The world holds exactly one ball and records the paddle's index, so the
//! exactly-one-ball and exactly-one-paddle assumptions hold by construction
//! and can never fail at run time.

use crate::collision::{
    bricks_hit, lemma_live_bricks_at, lemma_live_bricks_le_len, lemma_live_bricks_update,
    lemma_pass_accounting, live_bricks, pass_entities, pass_events, pass_vel, reflect,
    step_entity, step_events,
};
use crate::entity::{
    cs_view, Config, Entity, EntityView, GameEvent, GameState, InputState, Kind, Overlay, Velocity,
};
use crate::geometry::{collide, Rect, RectView, COORD_MAX};
use crate::paddle::paddle_step_spec;
use vstd::prelude::*;

verus! {

/// The state after one run of the state machine: a confirm-key release
/// toggles between running and paused; anything else leaves the state alone.
pub open spec fn state_step(s: GameState, confirm_released: bool) -> GameState {
    if confirm_released {
        match s {
            GameState::Running => GameState::Paused,
            GameState::Paused => GameState::Running,
        }
    } else {
        s
    }
}

/// The overlay after one run of the state machine: the transition into the
/// paused state spawns the pause overlay once, the transition out removes
/// whichever overlay is up; without a transition the overlay stays.
pub open spec fn overlay_step(s: GameState, o: Option<Overlay>, confirm_released: bool) -> Option<
    Overlay,
> {
    if confirm_released {
        match s {
            GameState::Running => Some(Overlay::Pause),
            GameState::Paused => None,
        }
    } else {
        o
    }
}

/// A brick index for a cell before row `row`, column `col` in spawn order
/// lies between the walls and the store position of that spawn point.
proof fn lemma_brick_index_range(config: Config, rr: int, cc: int, row: int, col: int)
    requires
        0 <= rr,
        0 <= cc < config.grid_cols,
        0 <= col <= config.grid_cols,
        rr < row || (rr == row && cc < col),
    ensures
        config.walls@.len() <= config.brick_index(rr, cc),
        config.brick_index(rr, cc) < config.walls@.len() + row * config.grid_cols + col,
{
    let cols = config.grid_cols as int;
    assert(0 <= rr * cols + cc && rr * cols + cc < row * cols + col) by (nonlinear_arith)
        requires
            0 <= rr,
            0 <= cc < cols,
            0 <= col <= cols,
            rr < row || (rr == row && cc < col),
    ;
}

/// Mathematical view of a world: everything one tick reads and writes, as
/// unbounded integers and sequences.
pub ghost struct WorldView {
    pub colliders: Seq<EntityView>,
    pub paddle: int,
    pub ball: RectView,
    pub vx: int,
    pub vy: int,
    pub score: int,
    pub state: GameState,
    pub overlay: Option<Overlay>,
    pub events: Seq<GameEvent>,
    pub paddle_speed: int,
    pub paddle_min_x: int,
    pub paddle_max_x: int,
}

/// The ball's rectangle after a tick's physics step.
pub open spec fn tick_ball(w: WorldView) -> RectView {
    RectView { x: w.ball.x + w.vx, y: w.ball.y + w.vy, hx: w.ball.hx, hy: w.ball.hy }
}

/// The paddle entity after a tick's controller step.
pub open spec fn paddle_stepped(w: WorldView, input: InputState) -> EntityView {
    let pe = w.colliders[w.paddle];
    EntityView {
        id: pe.id,
        kind: pe.kind,
        rect: RectView {
            x: paddle_step_spec(
                pe.rect.x,
                input.left_pressed,
                input.right_pressed,
                w.paddle_speed,
                w.paddle_min_x,
                w.paddle_max_x,
            ),
            y: pe.rect.y,
            hx: pe.rect.hx,
            hy: pe.rect.hy,
        },
        alive: pe.alive,
    }
}

/// The collider store as a tick's collision pass sees it: the paddle already
/// moved by the controller step.
pub open spec fn tick_colliders_mid(w: WorldView, input: InputState) -> Seq<EntityView> {
    w.colliders.update(w.paddle, paddle_stepped(w, input))
}

/// One whole fixed tick as a mathematical function: the state machine, then
/// — only when the tick ends up running — the physics step, the paddle
/// controller and the collision and scoring pass, in that order.
pub open spec fn tick_spec(w: WorldView, input: InputState) -> WorldView {
    let state2 = state_step(w.state, input.confirm_released);
    let overlay2 = overlay_step(w.state, w.overlay, input.confirm_released);
    if state2 == GameState::Running {
        let b = tick_ball(w);
        let cs1 = tick_colliders_mid(w, input);
        let v2 = pass_vel(b, cs1, w.vx, w.vy);
        WorldView {
            colliders: pass_entities(b, cs1),
            ball: b,
            vx: v2.0,
            vy: v2.1,
            score: w.score + bricks_hit(b, cs1),
            events: w.events + pass_events(b, cs1),
            state: state2,
            overlay: overlay2,
            ..w
        }
    } else {
        WorldView { state: state2, overlay: overlay2, ..w }
    }
}

/// The world after a whole sequence of ticks, each with its input.
pub open spec fn run_spec(w: WorldView, inputs: Seq<InputState>) -> WorldView
    decreases inputs.len(),
{
    if inputs.len() == 0 {
        w
    } else {
        tick_spec(run_spec(w, inputs.drop_last()), inputs.last())
    }
}

/// While the game is paused and no confirm-key release arrives, any number
/// of ticks leaves the world — in particular the ball's position and
/// velocity, the colliders, the score and the events — exactly unchanged.
pub proof fn lemma_paused_run_is_identity(w: WorldView, inputs: Seq<InputState>)
    requires
        w.state == GameState::Paused,
        forall|i: int| 0 <= i < inputs.len() ==> !(#[trigger] inputs[i]).confirm_released,
    ensures
        run_spec(w, inputs) == w,
    decreases inputs.len(),
{
    if inputs.len() > 0 {
        lemma_paused_run_is_identity(w, inputs.drop_last());
    }
}

/// What the multi-tick laws ask of a world: the paddle index marks a live
/// paddle whose centre lies within the arena bounds, and the bounds are
/// ordered. Every well-formed `World` satisfies it.
pub open spec fn paddle_ok(w: WorldView) -> bool {
    &&& 0 <= w.paddle < w.colliders.len()
    &&& w.colliders[w.paddle].kind == Kind::Paddle
    &&& w.colliders[w.paddle].alive
    &&& w.paddle_min_x <= w.paddle_max_x
    &&& w.paddle_min_x <= w.colliders[w.paddle].rect.x <= w.paddle_max_x
}

/// One tick keeps the paddle a live paddle within the arena bounds, and it
/// changes neither the store's length, the paddle's index nor the bounds.
pub proof fn lemma_tick_keeps_paddle_ok(w: WorldView, input: InputState)
    requires
        paddle_ok(w),
    ensures
        paddle_ok(tick_spec(w, input)),
        tick_spec(w, input).colliders.len() == w.colliders.len(),
        tick_spec(w, input).paddle == w.paddle,
        tick_spec(w, input).paddle_min_x == w.paddle_min_x,
        tick_spec(w, input).paddle_max_x == w.paddle_max_x,
{
    if state_step(w.state, input.confirm_released) == GameState::Running {
        let b = tick_ball(w);
        let cs1 = tick_colliders_mid(w, input);
        assert(cs1[w.paddle] == paddle_stepped(w, input));
        assert(tick_spec(w, input).colliders[w.paddle] == step_entity(b, cs1[w.paddle]));
    }
}

/// Paddle bound, over whole runs: after any sequence of ticks from a world
/// whose paddle starts within the arena bounds, the paddle's centre is still
/// within those bounds.
pub proof fn lemma_run_keeps_paddle_bounded(w: WorldView, inputs: Seq<InputState>)
    requires
        paddle_ok(w),
    ensures
        paddle_ok(run_spec(w, inputs)),
        run_spec(w, inputs).colliders.len() == w.colliders.len(),
        run_spec(w, inputs).paddle == w.paddle,
        run_spec(w, inputs).paddle_min_x == w.paddle_min_x,
        run_spec(w, inputs).paddle_max_x == w.paddle_max_x,
        w.paddle_min_x <= run_spec(w, inputs).colliders[w.paddle].rect.x <= w.paddle_max_x,
    decreases inputs.len(),
{
    if inputs.len() > 0 {
        lemma_run_keeps_paddle_bounded(w, inputs.drop_last());
        lemma_tick_keeps_paddle_ok(run_spec(w, inputs.drop_last()), inputs.last());
    }
}

/// Every well-formed world satisfies the multi-tick laws' premise.
pub proof fn lemma_wf_gives_paddle_ok(w: World)
    requires
        w.wf(),
    ensures
        paddle_ok(w@),
{
}

/// The scoreboard is monotone: it never decreases over any sequence of
/// ticks.
pub proof fn lemma_run_scoreboard_monotone(w: WorldView, inputs: Seq<InputState>)
    ensures
        run_spec(w, inputs).score >= w.score,
    decreases inputs.len(),
{
    if inputs.len() > 0 {
        lemma_run_scoreboard_monotone(w, inputs.drop_last());
        let wp = run_spec(w, inputs.drop_last());
        if state_step(wp.state, inputs.last().confirm_released) == GameState::Running {
            lemma_pass_accounting(tick_ball(wp), tick_colliders_mid(wp, inputs.last()));
        }
    }
}

/// A destroyed brick never reappears: over any sequence of ticks, a
/// despawned entity is carried through each one wholly unchanged.
pub proof fn lemma_run_never_respawns(w: WorldView, inputs: Seq<InputState>, j: int)
    requires
        paddle_ok(w),
        0 <= j < w.colliders.len(),
        !w.colliders[j].alive,
    ensures
        run_spec(w, inputs).colliders[j] == w.colliders[j],
    decreases inputs.len(),
{
    if inputs.len() > 0 {
        lemma_run_never_respawns(w, inputs.drop_last(), j);
        lemma_run_keeps_paddle_bounded(w, inputs.drop_last());
        let wp = run_spec(w, inputs.drop_last());
        if state_step(wp.state, inputs.last().confirm_released) == GameState::Running {
            let b = tick_ball(wp);
            let cs1 = tick_colliders_mid(wp, inputs.last());
            assert(j != wp.paddle);
            assert(cs1[j] == wp.colliders[j]);
            assert(tick_spec(wp, inputs.last()).colliders[j] == step_entity(b, cs1[j]));
        }
    }
}

/// The whole simulation context: constructed once at startup and mutated in
/// place by the tick systems; there are no ambient globals.
pub struct World {
    pub config: Config,
    /// Walls, bricks and the paddle, in spawn order. The ball is not here.
    pub colliders: Vec<Entity>,
    /// Index of the paddle in the collider store.
    pub paddle: usize,
    /// The single ball.
    pub ball: Rect,
    pub ball_vel: Velocity,
    /// Bricks destroyed so far; never decremented.
    pub score: u64,
    pub state: GameState,
    pub overlay: Option<Overlay>,
    /// This tick's output events, drained once per tick by the audio step.
    pub events: Vec<GameEvent>,
}

impl View for World {
    type V = WorldView;

    open spec fn view(&self) -> WorldView {
        WorldView {
            colliders: cs_view(self.colliders@),
            paddle: self.paddle as int,
            ball: self.ball@,
            vx: self.ball_vel.x as int,
            vy: self.ball_vel.y as int,
            score: self.score as int,
            state: self.state,
            overlay: self.overlay,
            events: self.events@,
            paddle_speed: self.config.paddle_speed as int,
            paddle_min_x: self.config.paddle_min_x as int,
            paddle_max_x: self.config.paddle_max_x as int,
        }
    }
}

impl World {
    pub open spec fn paddle_entity(self) -> EntityView {
        self.colliders@[self.paddle as int]@
    }

    /// The world's invariant: the configuration is sane, every rectangle and
    /// the velocity are bounded, the paddle index marks a live paddle whose
    /// centre lies within the arena bounds, and the score cannot overflow
    /// even if every live brick were destroyed.
    pub open spec fn wf(self) -> bool {
        &&& self.config.wf()
        &&& self.ball@.wf()
        &&& -COORD_MAX <= self.ball_vel.x <= COORD_MAX
        &&& -COORD_MAX <= self.ball_vel.y <= COORD_MAX
        &&& (self.paddle as int) < self.colliders@.len()
        &&& forall|j: int|
            0 <= j < self.colliders@.len() ==> (#[trigger] self.colliders@[j])@.rect.wf()
        &&& self.paddle_entity().kind == Kind::Paddle
        &&& self.paddle_entity().alive
        &&& self.config.paddle_min_x <= self.paddle_entity().rect.x <= self.config.paddle_max_x
        &&& self.score + live_bricks(cs_view(self.colliders@)) <= u64::MAX
    }

    /// The ball's next position stays within the coordinate bound, so the
    /// physics step cannot overflow. While the arena's walls enclose the
    /// ball this is a tiny fraction of the machine range.
    pub open spec fn ball_motion_fits(self) -> bool {
        &&& -COORD_MAX <= self.ball.x + self.ball_vel.x <= COORD_MAX
        &&& -COORD_MAX <= self.ball.y + self.ball_vel.y <= COORD_MAX
    }

    /// The ball's rectangle after this tick's physics step.
    pub open spec fn moved_ball(self) -> RectView {
        RectView {
            x: self.ball.x + self.ball_vel.x,
            y: self.ball.y + self.ball_vel.y,
            hx: self.ball.hx as int,
            hy: self.ball.hy as int,
        }
    }

    /// The paddle entity after this tick's controller step.
    pub open spec fn paddle_after(self, input: InputState) -> EntityView {
        let e = self.paddle_entity();
        EntityView {
            id: e.id,
            kind: e.kind,
            rect: RectView {
                x: paddle_step_spec(
                    e.rect.x,
                    input.left_pressed,
                    input.right_pressed,
                    self.config.paddle_speed as int,
                    self.config.paddle_min_x as int,
                    self.config.paddle_max_x as int,
                ),
                y: e.rect.y,
                hx: e.rect.hx,
                hy: e.rect.hy,
            },
            alive: e.alive,
        }
    }

    /// The collider store as the collision step sees it: the paddle already
    /// moved by this tick's controller step.
    pub open spec fn mid_colliders(self, input: InputState) -> Seq<EntityView> {
        cs_view(self.colliders@).update(self.paddle as int, self.paddle_after(input))
    }

    /// Scene setup: spawn the arena walls, the brick grid row by row, and
    /// the paddle, in that order, then the ball. The game starts paused
    /// behind the start overlay, with the score at zero and no events.
    pub fn new(config: Config) -> (w: World)
        requires
            config.wf(),
        ensures
            w.wf(),
            w.config == config,
            w.colliders@.len() == config.n_colliders(),
            forall|i: int|
                0 <= i < config.walls@.len() ==> (#[trigger] w.colliders@[i])@ == (EntityView {
                    id: i,
                    kind: Kind::Wall,
                    rect: config.walls@[i]@,
                    alive: true,
                }),
            forall|r: int, c: int|
                0 <= r < config.grid_rows && 0 <= c < config.grid_cols ==> w.colliders@[
                    #[trigger] config.brick_index(r, c)
                ]@ == (EntityView {
                    id: config.brick_index(r, c),
                    kind: Kind::Brick,
                    rect: config.brick_rect(r, c),
                    alive: true,
                }),
            w.paddle as int == config.n_colliders() - 1,
            w.paddle_entity() == (EntityView {
                id: config.n_colliders() - 1,
                kind: Kind::Paddle,
                rect: config.paddle_rect(),
                alive: true,
            }),
            w.ball@ == config.ball_rect(),
            w.ball_vel.x == config.ball_vx,
            w.ball_vel.y == config.ball_vy,
            w.score == 0,
            w.state == GameState::Paused,
            w.overlay == Some(Overlay::Start),
            w.events@ == Seq::<GameEvent>::empty(),
    {
        let mut colliders: Vec<Entity> = Vec::new();

        let mut wi: usize = 0;
        while wi < config.walls.len()
            invariant
                config.wf(),
                wi <= config.walls@.len(),
                colliders@.len() == wi,
                forall|i: int|
                    0 <= i < wi ==> (#[trigger] colliders@[i])@ == (EntityView {
                        id: i,
                        kind: Kind::Wall,
                        rect: config.walls@[i]@,
                        alive: true,
                    }),
                forall|j: int| 0 <= j < wi ==> (#[trigger] colliders@[j])@.rect.wf(),
            decreases config.walls@.len() - wi,
        {
            let e = Entity {
                id: colliders.len() as u64,
                kind: Kind::Wall,
                rect: config.walls[wi],
                alive: true,
            };
            colliders.push(e);
            wi = wi + 1;
        }

        let ghost n_walls: int = config.walls@.len() as int;
        let step_x: i64 = 2 * config.cell_hx + config.cell_space;
        let step_y: i64 = 2 * config.cell_hy + config.cell_space;
        let mut row: usize = 0;
        while row < config.grid_rows
            invariant
                config.wf(),
                step_x == config.cell_step_x(),
                step_y == config.cell_step_y(),
                n_walls == config.walls@.len(),
                row <= config.grid_rows,
                colliders@.len() == n_walls + row * config.grid_cols,
                forall|i: int|
                    0 <= i < n_walls ==> (#[trigger] colliders@[i])@ == (EntityView {
                        id: i,
                        kind: Kind::Wall,
                        rect: config.walls@[i]@,
                        alive: true,
                    }),
                forall|rr: int, cc: int|
                    0 <= rr < row && 0 <= cc < config.grid_cols ==> colliders@[
                        #[trigger] config.brick_index(rr, cc)
                    ]@ == (EntityView {
                        id: config.brick_index(rr, cc),
                        kind: Kind::Brick,
                        rect: config.brick_rect(rr, cc),
                        alive: true,
                    }),
                forall|j: int| 0 <= j < colliders@.len() ==> (#[trigger] colliders@[j])@.rect.wf(),
            decreases config.grid_rows - row,
        {
            let mut col: usize = 0;
            while col < config.grid_cols
                invariant
                    config.wf(),
                    step_x == config.cell_step_x(),
                    step_y == config.cell_step_y(),
                    n_walls == config.walls@.len(),
                    row < config.grid_rows,
                    col <= config.grid_cols,
                    colliders@.len() == n_walls + row * config.grid_cols + col,
                    forall|i: int|
                        0 <= i < n_walls ==> (#[trigger] colliders@[i])@ == (EntityView {
                            id: i,
                            kind: Kind::Wall,
                            rect: config.walls@[i]@,
                            alive: true,
                        }),
                    forall|rr: int, cc: int|
                        0 <= rr < config.grid_rows && 0 <= cc < config.grid_cols && (rr < row || (
                        rr == row && cc < col)) ==> colliders@[
                            #[trigger] config.brick_index(rr, cc)
                        ]@ == (EntityView {
                            id: config.brick_index(rr, cc),
                            kind: Kind::Brick,
                            rect: config.brick_rect(rr, cc),
                            alive: true,
                        }),
                    forall|j: int|
                        0 <= j < colliders@.len() ==> (#[trigger] colliders@[j])@.rect.wf(),
                decreases config.grid_cols - col,
            {
                proof {
                    assert(config.brick_rect(row as int, col as int).wf());
                }
                let bx: i64 = config.grid_left + (col as i64) * step_x;
                let by: i64 = config.grid_top - (row as i64) * step_y;
                let e = Entity {
                    id: colliders.len() as u64,
                    kind: Kind::Brick,
                    rect: Rect { x: bx, y: by, hx: config.cell_hx, hy: config.cell_hy },
                    alive: true,
                };
                let ghost pre = colliders@;
                colliders.push(e);
                proof {
                    assert forall|rr: int, cc: int|
                        0 <= rr < config.grid_rows && 0 <= cc < config.grid_cols && (rr < row || (
                        rr == row && cc <= col)) implies colliders@[
                        #[trigger] config.brick_index(rr, cc)
                    ]@ == (EntityView {
                        id: config.brick_index(rr, cc),
                        kind: Kind::Brick,
                        rect: config.brick_rect(rr, cc),
                        alive: true,
                    }) by {
                        if rr == row && cc == col {
                            assert(config.brick_index(rr, cc) == pre.len());
                        } else {
                            lemma_brick_index_range(config, rr, cc, row as int, col as int);
                            assert(colliders@[config.brick_index(rr, cc)] == pre[config.brick_index(
                                rr,
                                cc,
                            )]);
                        }
                    }
                }
                col = col + 1;
            }
            row = row + 1;
            proof {
                assert(n_walls + (row - 1) * config.grid_cols + config.grid_cols == n_walls + row
                    * config.grid_cols) by (nonlinear_arith);
            }
        }

        let paddle_index: usize = colliders.len();
        let paddle_ent = Entity {
            id: paddle_index as u64,
            kind: Kind::Paddle,
            rect: Rect {
                x: config.paddle_x,
                y: config.paddle_y,
                hx: config.paddle_hx,
                hy: config.paddle_hy,
            },
            alive: true,
        };
        let ghost pre_paddle = colliders@;
        colliders.push(paddle_ent);
        proof {
            assert forall|r: int, c: int| 0 <= r < config.grid_rows && 0 <= c < config.grid_cols
                implies colliders@[#[trigger] config.brick_index(r, c)]@ == (EntityView {
                id: config.brick_index(r, c),
                kind: Kind::Brick,
                rect: config.brick_rect(r, c),
                alive: true,
            }) by {
                lemma_brick_index_range(config, r, c, config.grid_rows as int, 0);
                assert(colliders@[config.brick_index(r, c)] == pre_paddle[config.brick_index(
                    r,
                    c,
                )]);
            }
            assert forall|j: int| 0 <= j < colliders@.len() implies (#[trigger] colliders@[j])@.rect.wf() by {
                if j < pre_paddle.len() {
                    assert(colliders@[j] == pre_paddle[j]);
                } else {
                    assert(colliders@[j] == paddle_ent);
                }
            }
            assert(config.n_bricks() <= 100_000_000) by (nonlinear_arith)
                requires
                    0 <= config.grid_rows <= 10_000,
                    0 <= config.grid_cols <= 10_000,
            ;
        }

        let ball = Rect { x: config.ball_x, y: config.ball_y, hx: config.ball_hx, hy: config.ball_hy };
        let ball_vel = Velocity { x: config.ball_vx, y: config.ball_vy };
        let w = World {
            config,
            colliders,
            paddle: paddle_index,
            ball,
            ball_vel,
            score: 0,
            state: GameState::Paused,
            overlay: Some(Overlay::Start),
            events: Vec::new(),
        };
        proof {
            lemma_live_bricks_le_len(cs_view(w.colliders@));
            assert(w.events@ =~= Seq::<GameEvent>::empty());
        }
        w
    }

    /// The game-state machine. Transitions happen only on an explicit
    /// confirm-key release; the overlay is spawned once on the transition
    /// into the paused state and removed on the transition out of it.
    pub fn check_for_state(&mut self, input: InputState)
        requires
            old(self).wf(),
        ensures
            final(self).wf(),
            final(self).state == state_step(old(self).state, input.confirm_released),
            final(self).overlay == overlay_step(
                old(self).state,
                old(self).overlay,
                input.confirm_released,
            ),
            final(self).config == old(self).config,
            final(self).colliders == old(self).colliders,
            final(self).paddle == old(self).paddle,
            final(self).ball == old(self).ball,
            final(self).ball_vel == old(self).ball_vel,
            final(self).score == old(self).score,
            final(self).events == old(self).events,
    {
        if input.confirm_released {
            match self.state {
                GameState::Running => {
                    self.state = GameState::Paused;
                    self.overlay = Some(Overlay::Pause);
                },
                GameState::Paused => {
                    self.state = GameState::Running;
                    self.overlay = None;
                },
            }
        }
    }

    /// The physics step: while running, advance the ball — the only entity
    /// with a velocity — by its velocity, once per fixed tick. It runs
    /// before the collision step, so collisions are evaluated against the
    /// post-move position. While paused it does nothing at all.
    pub fn apply_velocity(&mut self)
        requires
            old(self).wf(),
            old(self).state == GameState::Running ==> old(self).ball_motion_fits(),
        ensures
            final(self).wf(),
            old(self).state == GameState::Paused ==> *final(self) == *old(self),
            old(self).state == GameState::Running ==> final(self).ball@ == old(self).moved_ball(),
            final(self).config == old(self).config,
            final(self).colliders == old(self).colliders,
            final(self).paddle == old(self).paddle,
            final(self).ball_vel == old(self).ball_vel,
            final(self).score == old(self).score,
            final(self).state == old(self).state,
            final(self).overlay == old(self).overlay,
            final(self).events == old(self).events,
    {
        if self.state == GameState::Running {
            self.ball.x = self.ball.x + self.ball_vel.x;
            self.ball.y = self.ball.y + self.ball_vel.y;
        }
    }

    /// The paddle controller: while running, move the paddle horizontally by
    /// the held keys' net direction times the paddle speed, clamped to the
    /// arena bounds. An out-of-range command is silently clamped. While
    /// paused, input is ignored.
    pub fn move_paddle(&mut self, input: InputState)
        requires
            old(self).wf(),
        ensures
            final(self).wf(),
            old(self).state == GameState::Paused ==> *final(self) == *old(self),
            old(self).state == GameState::Running ==> {
                &&& final(self).colliders@.len() == old(self).colliders@.len()
                &&& forall|j: int|
                    0 <= j < old(self).colliders@.len() && j != old(self).paddle as int
                        ==> final(self).colliders@[j] == old(self).colliders@[j]
                &&& final(self).paddle_entity() == old(self).paddle_after(input)
                &&& cs_view(final(self).colliders@) == old(self).mid_colliders(input)
            },
            final(self).config == old(self).config,
            final(self).paddle == old(self).paddle,
            final(self).ball == old(self).ball,
            final(self).ball_vel == old(self).ball_vel,
            final(self).score == old(self).score,
            final(self).state == old(self).state,
            final(self).overlay == old(self).overlay,
            final(self).events == old(self).events,
    {
        if self.state == GameState::Running {
            let pi = self.paddle;
            let e = self.colliders[pi];
            let displacement: i64 = if input.right_pressed {
                self.config.paddle_speed
            } else if input.left_pressed {
                -self.config.paddle_speed
            } else {
                0
            };
            let moved: i64 = e.rect.x + displacement;
            let clamped: i64 = if moved < self.config.paddle_min_x {
                self.config.paddle_min_x
            } else if moved > self.config.paddle_max_x {
                self.config.paddle_max_x
            } else {
                moved
            };
            let ne = Entity {
                id: e.id,
                kind: e.kind,
                rect: Rect { x: clamped, y: e.rect.y, hx: e.rect.hx, hy: e.rect.hy },
                alive: e.alive,
            };
            self.colliders.set(pi, ne);
            proof {
                lemma_live_bricks_update(cs_view(old(self).colliders@), pi as int, ne@);
                assert(cs_view(self.colliders@) =~= old(self).mid_colliders(input));
            }
        }
    }

    /// The collision and scoring step: while running, test the ball against
    /// every collider in store order. Each hit emits a collision event; a
    /// hit brick emits an explosion event more, raises the score by one and
    /// is despawned permanently; the ball's velocity is reflected on the
    /// struck edge. All hits of one tick are processed sequentially against
    /// one mutable velocity, so an earlier reflection is visible to a later
    /// guard. While paused it does nothing at all.
    pub fn check_for_collisions(&mut self)
        requires
            old(self).wf(),
        ensures
            final(self).wf(),
            old(self).state == GameState::Paused ==> *final(self) == *old(self),
            final(self).config == old(self).config,
            final(self).paddle == old(self).paddle,
            final(self).ball == old(self).ball,
            final(self).state == old(self).state,
            final(self).overlay == old(self).overlay,
            final(self).colliders@.len() == old(self).colliders@.len(),
            old(self).state == GameState::Running ==> ({
                let b = old(self).ball@;
                let cs0 = cs_view(old(self).colliders@);
                &&& cs_view(final(self).colliders@) == pass_entities(b, cs0)
                &&& (final(self).ball_vel.x as int, final(self).ball_vel.y as int) == pass_vel(
                    b,
                    cs0,
                    old(self).ball_vel.x as int,
                    old(self).ball_vel.y as int,
                )
                &&& final(self).score == old(self).score + bricks_hit(b, cs0)
                &&& final(self).events@ == old(self).events@ + pass_events(b, cs0)
            }),
    {
        if self.state == GameState::Running {
            let ball = self.ball;
            let ghost b = ball@;
            let ghost cs0 = cs_view(self.colliders@);
            let ghost v0x = self.ball_vel.x as int;
            let ghost v0y = self.ball_vel.y as int;
            let ghost s0 = self.score;
            let ghost e0 = self.events@;
            let n: usize = self.colliders.len();
            let mut k: usize = 0;
            while k < n
                invariant
                    self.config == old(self).config,
                    self.paddle == old(self).paddle,
                    self.ball == old(self).ball,
                    self.state == old(self).state,
                    self.overlay == old(self).overlay,
                    self.config.wf(),
                    ball == self.ball,
                    b == ball@,
                    b.wf(),
                    cs0 == cs_view(old(self).colliders@),
                    cs0.len() == n,
                    v0x == old(self).ball_vel.x as int,
                    v0y == old(self).ball_vel.y as int,
                    s0 == old(self).score,
                    e0 == old(self).events@,
                    k <= n,
                    self.colliders@.len() == n,
                    forall|j: int|
                        0 <= j < k ==> #[trigger] self.colliders@[j]@ == step_entity(b, cs0[j]),
                    forall|j: int| k <= j < n ==> #[trigger] self.colliders@[j]@ == cs0[j],
                    forall|j: int|
                        0 <= j < n ==> (#[trigger] self.colliders@[j])@.rect.wf(),
                    (self.ball_vel.x as int, self.ball_vel.y as int) == pass_vel(
                        b,
                        cs0.take(k as int),
                        v0x,
                        v0y,
                    ),
                    -COORD_MAX <= self.ball_vel.x <= COORD_MAX,
                    -COORD_MAX <= self.ball_vel.y <= COORD_MAX,
                    self.score == s0 + bricks_hit(b, cs0.take(k as int)),
                    self.events@ == e0 + pass_events(b, cs0.take(k as int)),
                    self.score + live_bricks(cs_view(self.colliders@)) <= u64::MAX,
                    (self.paddle as int) < n,
                    cs0[self.paddle as int].kind == Kind::Paddle,
                    cs0[self.paddle as int].alive,
                    self.config.paddle_min_x <= cs0[self.paddle as int].rect.x
                        <= self.config.paddle_max_x,
                decreases n - k,
            {
                let ent = self.colliders[k];
                proof {
                    assert(ent@ == cs0[k as int]);
                }
                let ghost pre_vx = self.ball_vel.x as int;
                let ghost pre_vy = self.ball_vel.y as int;
                if ent.alive {
                    let hit = collide(&ball, &ent.rect);
                    match hit {
                        Option::Some(edge) => {
                            self.events.push(GameEvent::Collision);
                            if ent.kind == Kind::Brick {
                                self.events.push(GameEvent::Explosion);
                                proof {
                                    lemma_live_bricks_at(cs_view(self.colliders@), k as int);
                                }
                                self.score = self.score + 1;
                                let ghost pre_cs = cs_view(self.colliders@);
                                let dead = Entity {
                                    id: ent.id,
                                    kind: ent.kind,
                                    rect: ent.rect,
                                    alive: false,
                                };
                                self.colliders.set(k, dead);
                                proof {
                                    assert(cs_view(self.colliders@) =~= pre_cs.update(
                                        k as int,
                                        dead@,
                                    ));
                                    lemma_live_bricks_update(pre_cs, k as int, dead@);
                                }
                            }
                            let v = reflect(self.ball_vel, edge);
                            self.ball_vel = v;
                        },
                        Option::None => {},
                    }
                }
                proof {
                    let t1 = cs0.take(k as int + 1);
                    assert(t1.drop_last() =~= cs0.take(k as int));
                    assert(t1.last() == cs0[k as int]);
                    assert(pass_events(b, t1) == pass_events(b, cs0.take(k as int)) + step_events(
                        b,
                        cs0[k as int],
                    ));
                    assert(self.events@ =~= e0 + pass_events(b, t1));
                }
                k = k + 1;
            }
            proof {
                assert(cs0.take(n as int) =~= cs0);
                assert(cs_view(self.colliders@) =~= pass_entities(b, cs0));
                assert(self.colliders@[self.paddle as int]@ == cs0[self.paddle as int]);
            }
        }
    }

    /// One fixed tick: the state machine first, then — only while the game
    /// is then running — the physics step, the paddle controller and the
    /// collision and scoring step, in that order, so that collisions are
    /// evaluated against the post-move ball and paddle positions. A tick
    /// that ends paused leaves the ball, the colliders, the score and the
    /// events exactly as they were, however many such ticks run.
    pub fn tick(&mut self, input: InputState)
        requires
            old(self).wf(),
            state_step(old(self).state, input.confirm_released) == GameState::Running ==> old(
                self,
            ).ball_motion_fits(),
        ensures
            final(self).wf(),
            final(self).state == state_step(old(self).state, input.confirm_released),
            final(self).overlay == overlay_step(
                old(self).state,
                old(self).overlay,
                input.confirm_released,
            ),
            final(self).config == old(self).config,
            final(self).paddle == old(self).paddle,
            final(self).colliders@.len() == old(self).colliders@.len(),
            state_step(old(self).state, input.confirm_released) == GameState::Paused ==> {
                &&& final(self).colliders == old(self).colliders
                &&& final(self).ball == old(self).ball
                &&& final(self).ball_vel == old(self).ball_vel
                &&& final(self).score == old(self).score
                &&& final(self).events == old(self).events
            },
            state_step(old(self).state, input.confirm_released) == GameState::Running ==> ({
                let b = old(self).moved_ball();
                let cs1 = old(self).mid_colliders(input);
                &&& final(self).ball@ == b
                &&& cs_view(final(self).colliders@) == pass_entities(b, cs1)
                &&& (final(self).ball_vel.x as int, final(self).ball_vel.y as int) == pass_vel(
                    b,
                    cs1,
                    old(self).ball_vel.x as int,
                    old(self).ball_vel.y as int,
                )
                &&& final(self).score == old(self).score + bricks_hit(b, cs1)
                &&& final(self).events@ == old(self).events@ + pass_events(b, cs1)
            }),
            // The whole tick, as one mathematical step.
            final(self)@ == tick_spec(old(self)@, input),
            // The scoreboard never decreases.
            final(self).score >= old(self).score,
            // A despawned entity never reappears: it is carried through every
            // tick wholly unchanged.
            forall|j: int|
                0 <= j < old(self).colliders@.len() && !(#[trigger] old(self).colliders@[j])@.alive
                    ==> final(self).colliders@[j]@ == old(self).colliders@[j]@,
    {
        self.check_for_state(input);
        let ghost s1 = *self;
        self.apply_velocity();
        let ghost s2 = *self;
        self.move_paddle(input);
        let ghost s3 = *self;
        self.check_for_collisions();
        proof {
            if s1.state == GameState::Running {
                assert(s1.moved_ball() == old(self).moved_ball());
                assert(s2.paddle_after(input) == s1.paddle_after(input));
                assert(s2.mid_colliders(input) =~= old(self).mid_colliders(input));
                assert(cs_view(s3.colliders@) == old(self).mid_colliders(input));
                assert(s3.ball@ == old(self).moved_ball());
                lemma_pass_accounting(old(self).moved_ball(), old(self).mid_colliders(input));
                assert(tick_ball(old(self)@) == old(self).moved_ball());
                assert(tick_colliders_mid(old(self)@, input) == old(self).mid_colliders(input))
                    by {
                    assert(old(self)@.colliders[old(self)@.paddle] == old(self).paddle_entity());
                    assert(paddle_stepped(old(self)@, input) == old(self).paddle_after(input));
                }
                assert(self@ == tick_spec(old(self)@, input));
            } else {
                assert(self@ == tick_spec(old(self)@, input));
            }
            assert forall|j: int|
                0 <= j < old(self).colliders@.len() && !(#[trigger] old(self).colliders@[j])@.alive
                    implies self.colliders@[j]@ == old(self).colliders@[j]@ by {
                if s1.state == GameState::Running {
                    let b = old(self).moved_ball();
                    let cs1 = old(self).mid_colliders(input);
                    assert(j != old(self).paddle as int);
                    assert(cs1[j] == old(self).colliders@[j]@);
                    assert(cs_view(self.colliders@)[j] == pass_entities(b, cs1)[j]);
                }
            }
        }
    }

    /// Hand over and clear the per-tick event queue: the audio collaborator
    /// drains it exactly once per tick, and a second drain yields nothing.
    pub fn drain_events(&mut self) -> (evs: Vec<GameEvent>)
        requires
            old(self).wf(),
        ensures
            final(self).wf(),
            evs@ == old(self).events@,
            final(self).events@ == Seq::<GameEvent>::empty(),
            final(self).config == old(self).config,
            final(self).colliders == old(self).colliders,
            final(self).paddle == old(self).paddle,
            final(self).ball == old(self).ball,
            final(self).ball_vel == old(self).ball_vel,
            final(self).score == old(self).score,
            final(self).state == old(self).state,
            final(self).overlay == old(self).overlay,
    {
        let mut out: Vec<GameEvent> = Vec::new();
        let mut i: usize = 0;
        while i < self.events.len()
            invariant
                *self == *old(self),
                i <= self.events@.len(),
                out@ == self.events@.take(i as int),
            decreases self.events@.len() - i,
        {
            out.push(self.events[i]);
            proof {
                assert(out@ =~= self.events@.take(i + 1));
            }
            i = i + 1;
        }
        proof {
            assert(out@ =~= self.events@);
        }
        self.events = Vec::new();
        proof {
            assert(self.events@ =~= Seq::<GameEvent>::empty());
        }
        out
    }
}

/// Whether this tick's events call for the collision sound and for the
/// explosion sound: each sound plays once per tick when any event of its
/// kind occurred, however many occurred.
pub fn sound_signals(events: &Vec<GameEvent>) -> (r: (bool, bool))
    ensures
        r.0 == events@.contains(GameEvent::Collision),
        r.1 == events@.contains(GameEvent::Explosion),
{
    let mut has_collision = false;
    let mut has_explosion = false;
    let mut i: usize = 0;
    while i < events.len()
        invariant
            i <= events@.len(),
            has_collision == exists|j: int| 0 <= j < i && events@[j] == GameEvent::Collision,
            has_explosion == exists|j: int| 0 <= j < i && events@[j] == GameEvent::Explosion,
        decreases events@.len() - i,
    {
        match events[i] {
            GameEvent::Collision => {
                has_collision = true;
            },
            GameEvent::Explosion => {
                has_explosion = true;
            },
        }
        i = i + 1;
    }
    (has_collision, has_explosion)
}

} // verus!
