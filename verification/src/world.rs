//! The whole game: one ball, the paddles and the score counters, and the
//! frame that advances them together.

use vstd::prelude::*;
use crate::ball::{
    move_ball, moved_ball, moved_scores, point_fits, ready_to_move, serve, Ball, BallState,
    SERVE_VELOCITY,
};
use crate::collision::{deflected, detect_collisions, started, CollisionEvent};
use crate::paddle::{
    any_command, armed, paddle_movement, paddle_states, steered_all, HeldKeys, Paddle,
    PaddleState,
};
use crate::score::{score_states, Score, ScoreState};

verus! {

/// Where the paddle of player 1 stands across the field.
pub const LEFT_PADDLE_X: i32 = -500;

/// Where the paddle of player 2 stands across the field.
pub const RIGHT_PADDLE_X: i32 = 500;

/// Everything that a game holds.
#[derive(Clone, Debug, PartialEq, Eq)]
pub struct World {
    pub ball: Ball,
    pub paddles: Vec<Paddle>,
    pub scores: Vec<Score>,
}

/// The mathematical value of a [`World`].
pub struct WorldState {
    pub ball: BallState,
    pub paddles: Seq<PaddleState>,
    pub scores: Seq<ScoreState>,
}

impl View for World {
    type V = WorldState;

    open spec fn view(&self) -> WorldState {
        WorldState {
            ball: self.ball@,
            paddles: paddle_states(self.paddles@),
            scores: score_states(self.scores@),
        }
    }
}

/// The game before the first frame: the ball at rest in the centre, heading
/// up and to the right; the paddles level with it on either side; no points.
pub open spec fn initial_world() -> WorldState {
    WorldState {
        ball: BallState {
            x: 0,
            y: 0,
            velocity: 0,
            horizontal_direction: 1,
            vertical_direction: 1,
        },
        paddles: seq![
            PaddleState { x: LEFT_PADDLE_X as int, y: 0, player_id: 1 },
            PaddleState { x: RIGHT_PADDLE_X as int, y: 0, player_id: 2 },
        ],
        scores: seq![
            ScoreState { score: 0, player_id: 1 },
            ScoreState { score: 0, player_id: 2 },
        ],
    }
}

/// Sets the game up.
pub fn setup() -> (world: World)
    ensures
        world@ == initial_world(),
        world.paddles.len() == 2,
        world.scores.len() == 2,
{
    let ball = Ball { x: 0, y: 0, velocity: 0, horizontal_direction: 1, vertical_direction: 1 };
    let mut scores: Vec<Score> = Vec::new();
    scores.push(Score { score: 0, player_id: 1 });
    scores.push(Score { score: 0, player_id: 2 });
    let mut paddles: Vec<Paddle> = Vec::new();
    paddles.push(Paddle { x: LEFT_PADDLE_X, y: 0, player_id: 1 });
    paddles.push(Paddle { x: RIGHT_PADDLE_X, y: 0, player_id: 2 });
    let world = World { ball, paddles, scores };
    assert(world@.paddles == initial_world().paddles);
    assert(world@.scores == initial_world().scores);
    world
}

/// The game after one frame. The paddle controller comes first, so that a
/// serve takes effect in the same frame; then the ball moves; then the
/// collision responder turns it round for the frame to come.
pub open spec fn stepped(
    w: WorldState,
    keys: HeldKeys,
    height: nat,
    width: nat,
    events: Seq<CollisionEvent>,
) -> WorldState {
    let served_ball = armed(w.ball, w.paddles, keys);
    WorldState {
        ball: deflected(moved_ball(served_ball, height, width), started(events)),
        paddles: steered_all(w.paddles, keys, height),
        scores: moved_scores(served_ball, width, w.scores),
    }
}

/// Whether [`tick`] may be called: the ball is well formed and the counters
/// have room for the point, if any, of the coming frame.
pub fn ready_to_tick(world: &World, keys: HeldKeys, width: u32) -> (ready: bool)
    ensures
        ready == (world.ball.wf() && point_fits(
            armed(world.ball@, paddle_states(world.paddles@), keys),
            width as nat,
            world.scores@,
        )),
{
    let mut ball: Ball = world.ball;
    if any_command(&world.paddles, keys) {
        serve(&mut ball);
    }
    ready_to_move(&ball, width, &world.scores)
}

/// Advances the game by one frame: the held keys, the size of the field and
/// the collision events are those of this frame.
pub fn tick(
    world: &mut World,
    keys: HeldKeys,
    height: u32,
    width: u32,
    events: &Vec<CollisionEvent>,
)
    requires
        old(world).ball.wf(),
        point_fits(
            armed(old(world).ball@, paddle_states(old(world).paddles@), keys),
            width as nat,
            old(world).scores@,
        ),
    ensures
        final(world)@ == stepped(old(world)@, keys, height as nat, width as nat, events@),
        final(world).ball.wf(),
        final(world).paddles.len() == old(world).paddles.len(),
        final(world).scores.len() == old(world).scores.len(),
{
    paddle_movement(&mut world.paddles, keys, height, &mut world.ball);
    move_ball(&mut world.ball, height, width, &mut world.scores);
    detect_collisions(events, &mut world.ball);
}

/// What one frame brings from outside the game.
pub struct Frame {
    pub keys: HeldKeys,
    pub height: nat,
    pub width: nat,
    pub events: Seq<CollisionEvent>,
}

/// The game after the frames of `frames`, one after the other.
pub open spec fn run(w: WorldState, frames: Seq<Frame>) -> WorldState
    decreases frames.len(),
{
    if frames.len() == 0 {
        w
    } else {
        let f = frames.last();
        stepped(run(w, frames.drop_last()), f.keys, f.height, f.width, f.events)
    }
}

/// What holds of a game throughout: the ball's directions are unit signs and
/// it is at rest or at serve velocity; there is one paddle and one counter for
/// each of the two players, each paddle on its own side; no counter is
/// negative.
pub open spec fn sound(w: WorldState) -> bool {
    &&& w.ball.wf()
    &&& (w.ball.velocity == 0 || w.ball.velocity == SERVE_VELOCITY)
    &&& w.paddles.len() == 2
    &&& w.paddles[0].player_id == 1 && w.paddles[0].x == LEFT_PADDLE_X
    &&& w.paddles[1].player_id == 2 && w.paddles[1].x == RIGHT_PADDLE_X
    &&& w.scores.len() == 2
    &&& w.scores[0].player_id == 1 && w.scores[0].score >= 0
    &&& w.scores[1].player_id == 2 && w.scores[1].score >= 0
}

/// A frame keeps the ball's directions unit signs, whatever it brings.
pub proof fn lemma_frame_keeps_directions(
    w: WorldState,
    keys: HeldKeys,
    height: nat,
    width: nat,
    events: Seq<CollisionEvent>,
)
    requires
        w.ball.wf(),
    ensures
        stepped(w, keys, height, width, events).ball.wf(),
{
}

/// A frame keeps a sound game sound.
pub proof fn lemma_frame_keeps_sound(
    w: WorldState,
    keys: HeldKeys,
    height: nat,
    width: nat,
    events: Seq<CollisionEvent>,
)
    requires
        sound(w),
    ensures
        sound(stepped(w, keys, height, width, events)),
{
}

/// Every state that a game can reach from its start is sound; in particular
/// each direction of the ball is `1` or `-1` in every reachable state.
pub proof fn lemma_reachable_sound(frames: Seq<Frame>)
    ensures
        sound(run(initial_world(), frames)),
        run(initial_world(), frames).ball.wf(),
    decreases frames.len(),
{
    if frames.len() > 0 {
        lemma_reachable_sound(frames.drop_last());
        let f = frames.last();
        lemma_frame_keeps_sound(
            run(initial_world(), frames.drop_last()),
            f.keys,
            f.height,
            f.width,
            f.events,
        );
    }
}

} // verus!
