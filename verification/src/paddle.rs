//! The paddle controller: held directional input becomes a clamped
//! horizontal displacement.

use vstd::prelude::*;

verus! {

/// Net direction of the two held directional keys. The controller assigns
/// left first and right second, so right overrides left when both are held;
/// neither key gives zero.
pub open spec fn paddle_dir(left: bool, right: bool) -> int {
    if right {
        1
    } else if left {
        -1
    } else {
        0
    }
}

pub open spec fn clamp_spec(x: int, lo: int, hi: int) -> int {
    if x < lo {
        lo
    } else if x > hi {
        hi
    } else {
        x
    }
}

/// One controller tick: the paddle centre moves by the net direction times
/// the paddle speed and is clamped to the arena's bounds. An out-of-range
/// command is silently clamped, never an error.
pub open spec fn paddle_step_spec(x: int, left: bool, right: bool, speed: int, lo: int, hi: int) -> int {
    clamp_spec(x + paddle_dir(left, right) * speed, lo, hi)
}

/// The paddle centre after a whole sequence of controller ticks, each given
/// as the pair of held keys (left, right).
pub open spec fn paddle_run_spec(
    x: int,
    inputs: Seq<(bool, bool)>,
    speed: int,
    lo: int,
    hi: int,
) -> int
    decreases inputs.len(),
{
    if inputs.len() == 0 {
        x
    } else {
        paddle_step_spec(
            paddle_run_spec(x, inputs.drop_last(), speed, lo, hi),
            inputs.last().0,
            inputs.last().1,
            speed,
            lo,
            hi,
        )
    }
}

/// The paddle centre stays within `[lo, hi]` after any sequence of
/// controller ticks that starts within those bounds.
pub proof fn lemma_paddle_stays_bounded(
    x: int,
    inputs: Seq<(bool, bool)>,
    speed: int,
    lo: int,
    hi: int,
)
    requires
        lo <= hi,
        lo <= x <= hi,
    ensures
        lo <= paddle_run_spec(x, inputs, speed, lo, hi) <= hi,
    decreases inputs.len(),
{
    if inputs.len() > 0 {
        lemma_paddle_stays_bounded(x, inputs.drop_last(), speed, lo, hi);
    }
}

} // verus!
