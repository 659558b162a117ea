//! The ball and its motion: one step per frame, walls that score, and a
//! floor and ceiling that bounce.

use vstd::prelude::*;
use crate::field::{half, half_extent};
use crate::score::{can_credit, credit, creditable, credited, score_states, Score, ScoreState};

verus! {

/// The player who is credited when the ball leaves past the right wall.
pub const RIGHT_WALL_SCORER: i8 = 2;

/// The player who is credited when the ball leaves past the left wall.
pub const LEFT_WALL_SCORER: i8 = 1;

/// The velocity that a serve gives the ball, in units per frame.
pub const SERVE_VELOCITY: u32 = 10;

/// The ball: where it is, how fast it goes, and which way.
///
/// `velocity` is in units per frame; zero means that the ball waits for a
/// serve. Each direction is `1` or `-1` (see [`Ball::wf`]).
#[derive(Clone, Copy, Debug, PartialEq, Eq, Structural)]
pub struct Ball {
    pub x: i32,
    pub y: i32,
    pub velocity: u32,
    pub horizontal_direction: i8,
    pub vertical_direction: i8,
}

/// The mathematical value of a [`Ball`].
pub struct BallState {
    pub x: int,
    pub y: int,
    pub velocity: nat,
    pub horizontal_direction: int,
    pub vertical_direction: int,
}

/// Whether `d` is a direction: a unit sign, never zero, never scaled.
pub open spec fn is_direction(d: int) -> bool {
    d == 1 || d == -1
}

impl BallState {
    /// Both directions are unit signs.
    pub open spec fn wf(self) -> bool {
        is_direction(self.horizontal_direction) && is_direction(self.vertical_direction)
    }

    /// The ball lies in the field, boundaries included.
    pub open spec fn inside(self, height: nat, width: nat) -> bool {
        &&& -half(width) <= self.x <= half(width)
        &&& -half(height) <= self.y <= half(height)
    }
}

impl View for Ball {
    type V = BallState;

    open spec fn view(&self) -> BallState {
        BallState {
            x: self.x as int,
            y: self.y as int,
            velocity: self.velocity as nat,
            horizontal_direction: self.horizontal_direction as int,
            vertical_direction: self.vertical_direction as int,
        }
    }
}

impl Ball {
    /// Both directions are unit signs.
    pub open spec fn wf(&self) -> bool {
        self@.wf()
    }

    /// Whether both directions are unit signs.
    pub fn is_wf(&self) -> (r: bool)
        ensures
            r == self.wf(),
    {
        (self.horizontal_direction == 1 || self.horizontal_direction == -1) && (
        self.vertical_direction == 1 || self.vertical_direction == -1)
    }
}

/// The ball after a serve: a ball at rest is set going, a ball in flight is
/// left alone.
pub open spec fn served(b: BallState) -> BallState {
    if b.velocity == 0 {
        BallState { velocity: SERVE_VELOCITY as nat, ..b }
    } else {
        b
    }
}

/// The ball after one frame of free flight: each coordinate advances by the
/// velocity along its direction.
pub open spec fn integrated(b: BallState) -> BallState {
    BallState {
        x: b.x + b.horizontal_direction * b.velocity,
        y: b.y + b.vertical_direction * b.velocity,
        ..b
    }
}

/// The ball is beyond the right wall.
pub open spec fn past_right_wall(b: BallState, width: nat) -> bool {
    b.x > half(width)
}

/// The ball is beyond the left wall.
pub open spec fn past_left_wall(b: BallState, width: nat) -> bool {
    b.x < -half(width)
}

/// The ball after a point was scored: back at the centre and at rest, its
/// horizontal direction reversed. The ball is first put back on the wall that
/// it crossed, which the return to the centre then overwrites.
pub open spec fn reset(b: BallState) -> BallState {
    BallState { x: 0, y: 0, velocity: 0, horizontal_direction: -b.horizontal_direction, ..b }
}

/// The right-wall check: a ball beyond the right wall is reset.
pub open spec fn right_wall_checked(b: BallState, width: nat) -> BallState {
    if past_right_wall(b, width) {
        reset(b)
    } else {
        b
    }
}

/// The left-wall check: a ball beyond the left wall is reset.
pub open spec fn left_wall_checked(b: BallState, width: nat) -> BallState {
    if past_left_wall(b, width) {
        reset(b)
    } else {
        b
    }
}

/// The top and bottom check: a ball beyond the ceiling or the floor is put
/// back on it and its vertical direction reversed.
pub open spec fn bounced(b: BallState, height: nat) -> BallState {
    if b.y > half(height) {
        BallState { y: half(height), vertical_direction: -b.vertical_direction, ..b }
    } else if b.y < -half(height) {
        BallState { y: -half(height), vertical_direction: -b.vertical_direction, ..b }
    } else {
        b
    }
}

/// The ball after one frame: flight, then the right wall, the left wall, and
/// the top and bottom, each check applied to what the one before left.
pub open spec fn moved_ball(b: BallState, height: nat, width: nat) -> BallState {
    bounced(left_wall_checked(right_wall_checked(integrated(b), width), width), height)
}

/// The player who scores in the frame that starts with ball `b`, if any.
pub open spec fn scorer(b: BallState, width: nat) -> Option<int> {
    if past_right_wall(integrated(b), width) {
        Some(RIGHT_WALL_SCORER as int)
    } else if past_left_wall(integrated(b), width) {
        Some(LEFT_WALL_SCORER as int)
    } else {
        None
    }
}

/// The score counters after the frame that starts with ball `b`.
pub open spec fn moved_scores(b: BallState, width: nat, scores: Seq<ScoreState>) -> Seq<
    ScoreState,
> {
    match scorer(b, width) {
        Some(player_id) => credited(scores, player_id),
        None => scores,
    }
}

/// Whether the counters have room for the point, if any, of the frame that
/// starts with ball `b`.
pub open spec fn point_fits(b: BallState, width: nat, scores: Seq<Score>) -> bool {
    match scorer(b, width) {
        Some(player_id) => creditable(scores, player_id),
        None => true,
    }
}

/// A direction times a velocity is the velocity, signed.
pub proof fn lemma_directed_velocity(d: int, v: int)
    requires
        is_direction(d),
    ensures
        d * v == (if d == 1 {
            v
        } else {
            -v
        }),
{
    assert(1 * v == v && (-1) * v == -v) by (nonlinear_arith);
}

/// The directions of a well-formed ball are still unit signs after a frame,
/// and the ball is then in the field.
pub proof fn lemma_moved_ball_wf(b: BallState, height: nat, width: nat)
    requires
        b.wf(),
    ensures
        moved_ball(b, height, width).wf(),
        moved_ball(b, height, width).inside(height, width),
{
}

/// A frame keeps each direction of the ball or reverses it: a direction is
/// never zeroed and never scaled by the velocity, whatever the ball, the field
/// and the counters.
pub proof fn lemma_directions_kept_or_reversed(b: BallState, height: nat, width: nat)
    ensures
        moved_ball(b, height, width).horizontal_direction == b.horizontal_direction || moved_ball(
            b,
            height,
            width,
        ).horizontal_direction == -b.horizontal_direction,
        moved_ball(b, height, width).vertical_direction == b.vertical_direction || moved_ball(
            b,
            height,
            width,
        ).vertical_direction == -b.vertical_direction,
{
}

/// The top and bottom check is idempotent: applied twice with the same
/// height it leaves the ball as one application does, position and
/// direction alike.
pub proof fn lemma_bounce_idempotent(b: BallState, height: nat)
    ensures
        bounced(bounced(b, height), height) == bounced(b, height),
{
}

/// A ball whose flight ends beyond the right wall is, after the frame, at the
/// centre and at rest with its horizontal direction reversed; every counter
/// of player 2 is one higher and every other counter is unchanged.
pub proof fn lemma_right_wall_breach(
    b: BallState,
    height: nat,
    width: nat,
    scores: Seq<ScoreState>,
)
    requires
        past_right_wall(integrated(b), width),
    ensures
        moved_ball(b, height, width) == reset(b),
        reset(b).x == 0 && reset(b).y == 0 && reset(b).velocity == 0,
        reset(b).horizontal_direction == -b.horizontal_direction,
        reset(b).vertical_direction == b.vertical_direction,
        moved_scores(b, width, scores).len() == scores.len(),
        forall|i: int|
            0 <= i < scores.len() ==> {
                let after = #[trigger] moved_scores(b, width, scores)[i];
                &&& after.player_id == scores[i].player_id
                &&& scores[i].player_id == 2 ==> after.score == scores[i].score + 1
                &&& scores[i].player_id != 2 ==> after.score == scores[i].score
            },
{
}

/// A ball whose flight ends beyond the left wall is, after the frame, at the
/// centre and at rest with its horizontal direction reversed; every counter
/// of player 1 is one higher and every other counter is unchanged.
pub proof fn lemma_left_wall_breach(
    b: BallState,
    height: nat,
    width: nat,
    scores: Seq<ScoreState>,
)
    requires
        past_left_wall(integrated(b), width),
    ensures
        moved_ball(b, height, width) == reset(b),
        reset(b).x == 0 && reset(b).y == 0 && reset(b).velocity == 0,
        reset(b).horizontal_direction == -b.horizontal_direction,
        reset(b).vertical_direction == b.vertical_direction,
        moved_scores(b, width, scores).len() == scores.len(),
        forall|i: int|
            0 <= i < scores.len() ==> {
                let after = #[trigger] moved_scores(b, width, scores)[i];
                &&& after.player_id == scores[i].player_id
                &&& scores[i].player_id == 1 ==> after.score == scores[i].score + 1
                &&& scores[i].player_id != 1 ==> after.score == scores[i].score
            },
{
}

/// A ball whose flight ends between the side walls scores for nobody: it
/// keeps its velocity and horizontal direction, and no counter changes.
pub proof fn lemma_no_breach(b: BallState, height: nat, width: nat, scores: Seq<ScoreState>)
    requires
        !past_right_wall(integrated(b), width),
        !past_left_wall(integrated(b), width),
    ensures
        moved_ball(b, height, width) == bounced(integrated(b), height),
        moved_ball(b, height, width).x == integrated(b).x,
        moved_ball(b, height, width).velocity == b.velocity,
        moved_ball(b, height, width).horizontal_direction == b.horizontal_direction,
        moved_scores(b, width, scores) == scores,
{
}

/// A ball at rest stays where it is, if it is in the field.
pub proof fn lemma_resting_ball_stays(b: BallState, height: nat, width: nat)
    requires
        b.velocity == 0,
        b.inside(height, width),
    ensures
        moved_ball(b, height, width) == b,
{
    assert(b.horizontal_direction * 0 == 0 && b.vertical_direction * 0 == 0) by (nonlinear_arith);
}

/// Serves the ball: sets it going if it is at rest.
pub fn serve(ball: &mut Ball)
    ensures
        final(ball)@ == served(old(ball)@),
{
    if ball.velocity == 0 {
        ball.velocity = SERVE_VELOCITY;
    }
}

/// The player who scores in the frame that starts with `ball`, if any.
pub fn next_scorer(ball: &Ball, width: u32) -> (r: Option<i8>)
    ensures
        match r {
            Some(player_id) => scorer(ball@, width as nat) == Some(player_id as int),
            None => scorer(ball@, width as nat) is None,
        },
{
    let half_width: i64 = half_extent(width) as i64;
    let velocity: i64 = ball.velocity as i64;
    let direction: i64 = ball.horizontal_direction as i64;
    assert(-0x80_0000_0000 <= direction * velocity <= 0x80_0000_0000) by (nonlinear_arith)
        requires
            -0x80 <= direction <= 0x80,
            0 <= velocity <= 0x1_0000_0000,
    ;
    let x: i64 = ball.x as i64 + direction * velocity;
    if x > half_width {
        Some(RIGHT_WALL_SCORER)
    } else if x < -half_width {
        Some(LEFT_WALL_SCORER)
    } else {
        None
    }
}

/// Whether [`move_ball`] may be called: the ball is well formed and the
/// counters have room for the point, if any, of the coming frame.
pub fn ready_to_move(ball: &Ball, width: u32, scores: &Vec<Score>) -> (ready: bool)
    ensures
        ready == (ball.wf() && point_fits(ball@, width as nat, scores@)),
{
    if !ball.is_wf() {
        return false;
    }
    match next_scorer(ball, width) {
        Some(player_id) => can_credit(scores, player_id),
        None => true,
    }
}

/// Advances the ball by one frame in a field of the given size, and gives
/// the point to the scorer where the ball left past a side wall.
pub fn move_ball(ball: &mut Ball, height: u32, width: u32, scores: &mut Vec<Score>)
    requires
        old(ball).wf(),
        point_fits(old(ball)@, width as nat, old(scores)@),
    ensures
        final(ball)@ == moved_ball(old(ball)@, height as nat, width as nat),
        final(scores).len() == old(scores).len(),
        score_states(final(scores)@) == moved_scores(
            old(ball)@,
            width as nat,
            score_states(old(scores)@),
        ),
        final(ball).wf(),
        final(ball)@.inside(height as nat, width as nat),
{
    let half_width: i64 = half_extent(width) as i64;
    let half_height: i64 = half_extent(height) as i64;
    let velocity: i64 = ball.velocity as i64;
    proof {
        lemma_directed_velocity(ball.horizontal_direction as int, velocity as int);
        lemma_directed_velocity(ball.vertical_direction as int, velocity as int);
    }
    let mut x: i64 = ball.x as i64 + ball.horizontal_direction as i64 * velocity;
    let mut y: i64 = ball.y as i64 + ball.vertical_direction as i64 * velocity;

    if x > half_width {
        ball.horizontal_direction = -ball.horizontal_direction;
        credit(scores, RIGHT_WALL_SCORER);
        x = 0;
        y = 0;
        ball.velocity = 0;
    }
    if x < -half_width {
        ball.horizontal_direction = -ball.horizontal_direction;
        credit(scores, LEFT_WALL_SCORER);
        x = 0;
        y = 0;
        ball.velocity = 0;
    }
    if y > half_height {
        y = half_height;
        ball.vertical_direction = -ball.vertical_direction;
    }
    if y < -half_height {
        y = -half_height;
        ball.vertical_direction = -ball.vertical_direction;
    }
    ball.x = x as i32;
    ball.y = y as i32;
}

} // verus!
