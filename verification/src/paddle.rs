//! The paddles and their controller: held keys move a paddle up or down by
//! a fixed step, a guard forbids the step that would take it across the
//! boundary of the field, and any attempt to move serves a resting ball.

use vstd::prelude::*;
use crate::ball::{serve, served, Ball, BallState, SERVE_VELOCITY};
use crate::field::{half, half_extent};

verus! {

/// The distance that a paddle moves in one frame.
pub const PADDLE_SPEED: i32 = 10;

/// The height of a paddle, from its bottom edge to its top edge.
pub const PADDLE_HEIGHT: i32 = 100;

/// The way a paddle is asked to go.
#[derive(Clone, Copy, Debug, PartialEq, Eq, Structural)]
pub enum PaddleDirection {
    UP,
    DOWN,
}

/// A paddle: the position of its centre, and the player who steers it.
#[derive(Clone, Copy, Debug, PartialEq, Eq, Structural)]
pub struct Paddle {
    pub x: i32,
    pub y: i32,
    pub player_id: i8,
}

/// The mathematical value of a [`Paddle`].
pub struct PaddleState {
    pub x: int,
    pub y: int,
    pub player_id: int,
}

impl PaddleState {
    /// The height of the paddle's top edge.
    pub open spec fn top(self) -> int {
        self.y + PADDLE_HEIGHT / 2
    }

    /// The height of the paddle's bottom edge.
    pub open spec fn bottom(self) -> int {
        self.y - PADDLE_HEIGHT / 2
    }

    /// How far the paddle's leading edge is from the boundary that it meets
    /// when going in `direction`; negative once the edge is beyond it.
    pub open spec fn gap(self, height: nat, direction: PaddleDirection) -> int {
        match direction {
            PaddleDirection::UP => half(height) - self.top(),
            PaddleDirection::DOWN => self.bottom() + half(height),
        }
    }
}

impl View for Paddle {
    type V = PaddleState;

    open spec fn view(&self) -> PaddleState {
        PaddleState { x: self.x as int, y: self.y as int, player_id: self.player_id as int }
    }
}

/// The values of a list of paddles, in order.
pub open spec fn paddle_states(paddles: Seq<Paddle>) -> Seq<PaddleState> {
    Seq::new(paddles.len(), |i: int| paddles[i]@)
}

/// The boundary guard: a paddle may move in `direction` where the step
/// leaves its leading edge inside the field, or on the boundary. A step that
/// would carry the edge across is not taken.
pub open spec fn may_move(p: PaddleState, height: nat, direction: PaddleDirection) -> bool {
    p.gap(height, direction) >= PADDLE_SPEED
}

/// The paddle after one request to move: a step of [`PADDLE_SPEED`] where the
/// guard allows it, no change where it does not.
pub open spec fn moved_paddle(p: PaddleState, height: nat, direction: PaddleDirection) -> PaddleState {
    if may_move(p, height, direction) {
        match direction {
            PaddleDirection::UP => PaddleState { y: p.y + PADDLE_SPEED, ..p },
            PaddleDirection::DOWN => PaddleState { y: p.y - PADDLE_SPEED, ..p },
        }
    } else {
        p
    }
}

/// Moves the paddle by one step in `direction`, unless the guard forbids it.
pub fn move_paddle(paddle: &mut Paddle, height: u32, direction: PaddleDirection)
    ensures
        final(paddle)@ == moved_paddle(old(paddle)@, height as nat, direction),
{
    let half_height: i64 = half_extent(height) as i64;
    let y: i64 = paddle.y as i64;
    let half_paddle: i64 = (PADDLE_HEIGHT / 2) as i64;
    let step: i64 = PADDLE_SPEED as i64;
    match direction {
        PaddleDirection::UP => {
            if y + half_paddle + step <= half_height {
                paddle.y = paddle.y + PADDLE_SPEED;
            }
        },
        PaddleDirection::DOWN => {
            if y - half_paddle - step >= -half_height {
                paddle.y = paddle.y - PADDLE_SPEED;
            }
        },
    }
}

/// The keys that are held in a frame: `w` and `s` steer player 1 up and
/// down, `o` and `l` steer every other player.
#[derive(Clone, Copy, Debug, PartialEq, Eq, Structural)]
pub struct HeldKeys {
    pub w: bool,
    pub s: bool,
    pub o: bool,
    pub l: bool,
}

/// What the held keys ask of the paddle of `player_id`. The up key is looked
/// at first, so it wins where both are held.
pub open spec fn command(player_id: int, keys: HeldKeys) -> Option<PaddleDirection> {
    if player_id == 1 {
        if keys.w {
            Some(PaddleDirection::UP)
        } else if keys.s {
            Some(PaddleDirection::DOWN)
        } else {
            None
        }
    } else {
        if keys.o {
            Some(PaddleDirection::UP)
        } else if keys.l {
            Some(PaddleDirection::DOWN)
        } else {
            None
        }
    }
}

/// What the held keys ask of the paddle of `player_id`.
pub fn paddle_command(player_id: i8, keys: HeldKeys) -> (r: Option<PaddleDirection>)
    ensures
        r == command(player_id as int, keys),
{
    if player_id == 1 {
        if keys.w {
            Some(PaddleDirection::UP)
        } else if keys.s {
            Some(PaddleDirection::DOWN)
        } else {
            None
        }
    } else {
        if keys.o {
            Some(PaddleDirection::UP)
        } else if keys.l {
            Some(PaddleDirection::DOWN)
        } else {
            None
        }
    }
}

/// The paddle after the controller has looked at the held keys.
pub open spec fn steered(p: PaddleState, keys: HeldKeys, height: nat) -> PaddleState {
    match command(p.player_id, keys) {
        Some(direction) => moved_paddle(p, height, direction),
        None => p,
    }
}

/// Every paddle after the controller has looked at the held keys.
pub open spec fn steered_all(paddles: Seq<PaddleState>, keys: HeldKeys, height: nat) -> Seq<
    PaddleState,
> {
    Seq::new(paddles.len(), |i: int| steered(paddles[i], keys, height))
}

/// Whether the held keys ask anything of the first `n` paddles.
pub open spec fn commanded_among(paddles: Seq<PaddleState>, keys: HeldKeys, n: int) -> bool {
    exists|i: int| 0 <= i < n && (#[trigger] command(paddles[i].player_id, keys)) is Some
}

/// Whether the held keys ask anything of any paddle.
pub open spec fn commanded(paddles: Seq<PaddleState>, keys: HeldKeys) -> bool {
    commanded_among(paddles, keys, paddles.len() as int)
}

/// The ball after the controller's step: served if any paddle was asked to
/// move, whether or not the guard let it.
pub open spec fn armed(b: BallState, paddles: Seq<PaddleState>, keys: HeldKeys) -> BallState {
    if commanded(paddles, keys) {
        served(b)
    } else {
        b
    }
}

/// The paddle after `n` frames in a row in which it is asked to go in
/// `direction`, the field keeping its height.
pub open spec fn held_for(
    p: PaddleState,
    height: nat,
    direction: PaddleDirection,
    n: nat,
) -> PaddleState
    decreases n,
{
    if n == 0 {
        p
    } else {
        moved_paddle(held_for(p, height, direction, (n - 1) as nat), height, direction)
    }
}

/// A request to move changes nothing of a paddle but its height: neither
/// where it stands across the field nor whose it is.
pub proof fn lemma_move_keeps_identity(p: PaddleState, height: nat, direction: PaddleDirection)
    ensures
        moved_paddle(p, height, direction).x == p.x,
        moved_paddle(p, height, direction).player_id == p.player_id,
{
}

/// One request to move takes a paddle towards the boundary by a whole step
/// or not at all, and never across: a leading edge that is inside the field
/// or on its boundary is so afterwards.
pub proof fn lemma_step_keeps_inside(p: PaddleState, height: nat, direction: PaddleDirection)
    requires
        p.gap(height, direction) >= 0,
    ensures
        moved_paddle(p, height, direction).gap(height, direction) >= 0,
        moved_paddle(p, height, direction).gap(height, direction) == p.gap(height, direction)
            || moved_paddle(p, height, direction).gap(height, direction) == p.gap(
            height,
            direction,
        ) - PADDLE_SPEED,
        direction == PaddleDirection::UP ==> moved_paddle(p, height, direction).y >= p.y,
        direction == PaddleDirection::DOWN ==> moved_paddle(p, height, direction).y <= p.y,
{
}

/// The boundary guard: a paddle whose leading edge is inside the field or on
/// its boundary never crosses the boundary, however long its key is held.
pub proof fn lemma_guard_stops_at_boundary(
    p: PaddleState,
    height: nat,
    direction: PaddleDirection,
    n: nat,
)
    requires
        p.gap(height, direction) >= 0,
    ensures
        held_for(p, height, direction, n).gap(height, direction) >= 0,
    decreases n,
{
    if n > 0 {
        lemma_guard_stops_at_boundary(p, height, direction, (n - 1) as nat);
        lemma_step_keeps_inside(
            held_for(p, height, direction, (n - 1) as nat),
            height,
            direction,
        );
    }
}

/// A paddle whose leading edge is less than a step from the boundary, or
/// beyond it, does not move towards it.
pub proof fn lemma_guard_suppresses(p: PaddleState, height: nat, direction: PaddleDirection)
    requires
        p.gap(height, direction) < PADDLE_SPEED,
    ensures
        moved_paddle(p, height, direction) == p,
{
}

/// The paddle after `n` frames in a row of the controller with the same keys
/// held, the field keeping its height.
pub open spec fn steered_for(p: PaddleState, keys: HeldKeys, height: nat, n: nat) -> PaddleState
    decreases n,
{
    if n == 0 {
        p
    } else {
        steered(steered_for(p, keys, height, (n - 1) as nat), keys, height)
    }
}

/// While the keys ask a paddle to go in `direction`, the controller does to
/// it what [`held_for`] says; so a paddle whose leading edge is inside the
/// field or on its boundary never crosses the boundary, however many frames
/// the key is held.
pub proof fn lemma_held_key_keeps_inside(
    p: PaddleState,
    keys: HeldKeys,
    height: nat,
    direction: PaddleDirection,
    n: nat,
)
    requires
        command(p.player_id, keys) == Some(direction),
        p.gap(height, direction) >= 0,
    ensures
        steered_for(p, keys, height, n) == held_for(p, height, direction, n),
        steered_for(p, keys, height, n).gap(height, direction) >= 0,
    decreases n,
{
    lemma_guard_stops_at_boundary(p, height, direction, n);
    if n > 0 {
        lemma_held_key_keeps_inside(p, keys, height, direction, (n - 1) as nat);
        lemma_held_keeps_identity(p, height, direction, (n - 1) as nat);
    }
}

/// However long a key is held, the paddle stays where it stands across the
/// field and stays its player's.
pub proof fn lemma_held_keeps_identity(
    p: PaddleState,
    height: nat,
    direction: PaddleDirection,
    n: nat,
)
    ensures
        held_for(p, height, direction, n).x == p.x,
        held_for(p, height, direction, n).player_id == p.player_id,
    decreases n,
{
    if n > 0 {
        lemma_held_keeps_identity(p, height, direction, (n - 1) as nat);
    }
}

/// Serve-arming: where the ball is at rest and the keys ask anything of some
/// paddle, the ball has the serve velocity after the controller's step,
/// whether or not the guard let that paddle move. Nothing else of the ball
/// changes.
pub proof fn lemma_serve_arming(b: BallState, paddles: Seq<PaddleState>, keys: HeldKeys, i: int)
    requires
        b.velocity == 0,
        0 <= i < paddles.len(),
        command(paddles[i].player_id, keys) is Some,
    ensures
        armed(b, paddles, keys) == (BallState { velocity: SERVE_VELOCITY as nat, ..b }),
{
}

/// A ball in flight is not touched by the controller, and neither is any
/// ball while no key of any paddle is held.
pub proof fn lemma_no_serve(b: BallState, paddles: Seq<PaddleState>, keys: HeldKeys)
    requires
        b.velocity != 0 || !commanded(paddles, keys),
    ensures
        armed(b, paddles, keys) == b,
{
}

/// Whether the held keys ask anything of any paddle.
pub fn any_command(paddles: &Vec<Paddle>, keys: HeldKeys) -> (r: bool)
    ensures
        r == commanded(paddle_states(paddles@), keys),
{
    let n: usize = paddles.len();
    let mut i: usize = 0;
    while i < n
        invariant
            i <= n,
            n == paddles.len(),
            !commanded_among(paddle_states(paddles@), keys, i as int),
        decreases n - i,
    {
        if paddle_command(paddles[i].player_id, keys).is_some() {
            assert(command(paddle_states(paddles@)[i as int].player_id, keys) is Some);
            return true;
        }
        assert forall|j: int|
            0 <= j < i + 1 && (#[trigger] command(
                paddle_states(paddles@)[j].player_id,
                keys,
            )) is Some implies j < i by {}
        i = i + 1;
    }
    false
}

/// The paddle controller's step for one frame. Each paddle whose player
/// holds a key is asked to move one step, up before down; each such request
/// serves the ball if it is at rest.
pub fn paddle_movement(paddles: &mut Vec<Paddle>, keys: HeldKeys, height: u32, ball: &mut Ball)
    ensures
        final(paddles).len() == old(paddles).len(),
        paddle_states(final(paddles)@) == steered_all(
            paddle_states(old(paddles)@),
            keys,
            height as nat,
        ),
        final(ball)@ == armed(old(ball)@, paddle_states(old(paddles)@), keys),
{
    let n: usize = paddles.len();
    let mut i: usize = 0;
    while i < n
        invariant
            i <= n,
            paddles.len() == n,
            old(paddles).len() == n,
            forall|j: int|
                0 <= j < i ==> #[trigger] paddles[j]@ == steered(
                    old(paddles)[j]@,
                    keys,
                    height as nat,
                ),
            forall|j: int| i <= j < n ==> #[trigger] paddles[j] == old(paddles)[j],
            ball@ == (if commanded_among(paddle_states(old(paddles)@), keys, i as int) {
                served(old(ball)@)
            } else {
                old(ball)@
            }),
        decreases n - i,
    {
        let ghost before = paddle_states(old(paddles)@);
        match paddle_command(paddles[i].player_id, keys) {
            Some(direction) => {
                move_paddle(&mut paddles[i], height, direction);
                serve(ball);
                assert(command(before[i as int].player_id, keys) is Some);
            },
            None => {
                assert forall|j: int| 0 <= j < i + 1 && (#[trigger] command(
                    before[j].player_id,
                    keys,
                )) is Some implies j < i by {}
            },
        }
        i = i + 1;
    }
}

} // verus!
