//! Entities, input signals, events and the simulation's configuration.

use crate::geometry::{Rect, RectView, COORD_MAX};
use vstd::prelude::*;

verus! {

/// What an entity in the collider store is: a wall of the arena, a
/// destructible score-bearing brick, or the player's paddle. The ball is not
/// a collider; it is tested against every collider.
#[derive(Clone, Copy, Debug, PartialEq, Eq, Structural)]
pub enum Kind {
    Wall,
    Brick,
    Paddle,
}

/// One collider of the arena. A brick is destroyed by setting `alive` to
/// false; a despawned entity never takes part in a collision test again.
#[derive(Clone, Copy, Debug, PartialEq, Eq, Structural)]
pub struct Entity {
    pub id: u64,
    pub kind: Kind,
    pub rect: Rect,
    pub alive: bool,
}

/// Mathematical view of an entity.
pub ghost struct EntityView {
    pub id: int,
    pub kind: Kind,
    pub rect: RectView,
    pub alive: bool,
}

impl View for Entity {
    type V = EntityView;

    open spec fn view(&self) -> EntityView {
        EntityView { id: self.id as int, kind: self.kind, rect: self.rect@, alive: self.alive }
    }
}

/// The views of a collider store's entries, in store order.
pub open spec fn cs_view(cs: Seq<Entity>) -> Seq<EntityView> {
    cs.map_values(|e: Entity| e@)
}

/// The ball's velocity, in world units per second.
#[derive(Clone, Copy, Debug, PartialEq, Eq, Structural)]
pub struct Velocity {
    pub x: i64,
    pub y: i64,
}

/// The two states of the game. While `Paused`, neither the physics step, the
/// paddle controller nor the collision step runs.
#[derive(Clone, Copy, Debug, PartialEq, Eq, Structural)]
pub enum GameState {
    Running,
    Paused,
}

/// The full-screen prompt shown while the game is not running: the start
/// prompt before the first run, the pause prompt afterwards.
#[derive(Clone, Copy, Debug, PartialEq, Eq, Structural)]
pub enum Overlay {
    Start,
    Pause,
}

/// A transient per-tick signal for the audio collaborator: one `Collision`
/// per colliding pair, and one `Explosion` more per brick destroyed.
#[derive(Clone, Copy, Debug, PartialEq, Eq, Structural)]
pub enum GameEvent {
    Collision,
    Explosion,
}

/// The input signals consumed by one tick: two held directional keys and the
/// edge-triggered release of the confirm key.
#[derive(Clone, Copy, Debug, PartialEq, Eq, Structural)]
pub struct InputState {
    pub left_pressed: bool,
    pub right_pressed: bool,
    pub confirm_released: bool,
}

/// The initial configuration of a game: arena walls, brick grid, ball and
/// paddle. All fields are plain integers in the library's coordinate
/// convention; see the crate documentation for the subunit scale.
pub struct Config {
    /// The arena's wall colliders.
    pub walls: Vec<Rect>,
    /// Brick grid dimensions.
    pub grid_rows: usize,
    pub grid_cols: usize,
    /// Half-extents of one brick and the gap between neighbouring bricks.
    pub cell_hx: i64,
    pub cell_hy: i64,
    pub cell_space: i64,
    /// Centre of the top-left brick; rows grow downwards, columns rightwards.
    pub grid_left: i64,
    pub grid_top: i64,
    /// The ball's starting centre, half-extents and velocity.
    pub ball_x: i64,
    pub ball_y: i64,
    pub ball_hx: i64,
    pub ball_hy: i64,
    pub ball_vx: i64,
    pub ball_vy: i64,
    /// The paddle's starting centre and half-extents.
    pub paddle_x: i64,
    pub paddle_y: i64,
    pub paddle_hx: i64,
    pub paddle_hy: i64,
    /// Horizontal displacement of the paddle per tick of held input.
    pub paddle_speed: i64,
    /// The paddle's centre is clamped to `[paddle_min_x, paddle_max_x]`,
    /// derived from the wall inner faces minus half the paddle width.
    pub paddle_min_x: i64,
    pub paddle_max_x: i64,
    /// Fixed ticks per second; it fixes the subunit scale of all coordinates.
    pub ticks_per_second: i64,
}

impl Config {
    /// Horizontal centre-to-centre distance of neighbouring bricks.
    pub open spec fn cell_step_x(self) -> int {
        2 * self.cell_hx + self.cell_space
    }

    /// Vertical centre-to-centre distance of neighbouring bricks.
    pub open spec fn cell_step_y(self) -> int {
        2 * self.cell_hy + self.cell_space
    }

    /// The rectangle of the brick in the given grid cell.
    pub open spec fn brick_rect(self, row: int, col: int) -> RectView {
        RectView {
            x: self.grid_left + col * self.cell_step_x(),
            y: self.grid_top - row * self.cell_step_y(),
            hx: self.cell_hx as int,
            hy: self.cell_hy as int,
        }
    }

    pub open spec fn ball_rect(self) -> RectView {
        RectView {
            x: self.ball_x as int,
            y: self.ball_y as int,
            hx: self.ball_hx as int,
            hy: self.ball_hy as int,
        }
    }

    pub open spec fn paddle_rect(self) -> RectView {
        RectView {
            x: self.paddle_x as int,
            y: self.paddle_y as int,
            hx: self.paddle_hx as int,
            hy: self.paddle_hy as int,
        }
    }

    pub open spec fn n_bricks(self) -> int {
        self.grid_rows * self.grid_cols
    }

    /// Colliders spawned at start: the walls, the brick grid, the paddle.
    pub open spec fn n_colliders(self) -> int {
        self.walls@.len() + self.n_bricks() + 1
    }

    /// Index of a grid cell's brick in the collider store: walls first, then
    /// the bricks row by row, the paddle last.
    pub open spec fn brick_index(self, row: int, col: int) -> int {
        self.walls@.len() + row * self.grid_cols + col
    }

    /// Bounds that keep every spawned rectangle well formed, every paddle
    /// move and every score increment within its machine type.
    pub open spec fn wf(self) -> bool {
        &&& forall|i: int|
            0 <= i < self.walls@.len() ==> (#[trigger] self.walls@[i])@.wf()
        &&& self.walls@.len() <= 100_000
        &&& self.grid_rows <= 10_000
        &&& self.grid_cols <= 10_000
        &&& 0 <= self.cell_hx <= COORD_MAX
        &&& 0 <= self.cell_hy <= COORD_MAX
        &&& 0 <= self.cell_space <= COORD_MAX
        &&& -COORD_MAX <= self.grid_left <= COORD_MAX
        &&& -COORD_MAX <= self.grid_top <= COORD_MAX
        &&& forall|r: int, c: int|
            0 <= r < self.grid_rows && 0 <= c < self.grid_cols ==> (#[trigger] self.brick_rect(
                r,
                c,
            )).wf()
        &&& self.ball_rect().wf()
        &&& -COORD_MAX <= self.ball_vx <= COORD_MAX
        &&& -COORD_MAX <= self.ball_vy <= COORD_MAX
        &&& self.paddle_rect().wf()
        &&& -COORD_MAX <= self.paddle_min_x
        &&& self.paddle_min_x <= self.paddle_max_x
        &&& self.paddle_max_x <= COORD_MAX
        &&& 0 <= self.paddle_speed <= COORD_MAX
        &&& self.paddle_min_x <= self.paddle_x <= self.paddle_max_x
        &&& 1 <= self.ticks_per_second
    }
}

} // verus!
