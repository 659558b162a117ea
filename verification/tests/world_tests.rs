use pong::ball::Ball;
use pong::collision::CollisionEvent;
use pong::paddle::{HeldKeys, Paddle};
use pong::score::Score;
use pong::world::{ready_to_tick, setup, tick, World, LEFT_PADDLE_X, RIGHT_PADDLE_X};

fn no_keys() -> HeldKeys {
    HeldKeys { w: false, s: false, o: false, l: false }
}

#[test]
fn setup_gives_the_opening_position() {
    let world = setup();
    assert_eq!(
        world.ball,
        Ball { x: 0, y: 0, velocity: 0, horizontal_direction: 1, vertical_direction: 1 }
    );
    assert_eq!(
        world.paddles,
        vec![Paddle { x: -500, y: 0, player_id: 1 }, Paddle { x: 500, y: 0, player_id: 2 }]
    );
    assert_eq!(
        world.scores,
        vec![Score { score: 0, player_id: 1 }, Score { score: 0, player_id: 2 }]
    );
    assert_eq!(LEFT_PADDLE_X, -500);
    assert_eq!(RIGHT_PADDLE_X, 500);
}

#[test]
fn frame_without_input_changes_nothing() {
    let mut world = setup();
    tick(&mut world, no_keys(), 600, 800, &Vec::new());
    assert_eq!(world, setup());
}

#[test]
fn serve_takes_effect_in_the_same_frame() {
    let mut world = setup();
    let keys = HeldKeys { w: true, s: false, o: false, l: false };
    tick(&mut world, keys, 600, 800, &Vec::new());
    assert_eq!(
        world.ball,
        Ball { x: 10, y: 10, velocity: 10, horizontal_direction: 1, vertical_direction: 1 }
    );
    assert_eq!(world.paddles[0], Paddle { x: -500, y: 10, player_id: 1 });
    assert_eq!(world.paddles[1], Paddle { x: 500, y: 0, player_id: 2 });
}

#[test]
fn collision_turns_the_ball_after_it_has_moved() {
    let mut world = setup();
    world.ball.velocity = 10;
    tick(&mut world, no_keys(), 600, 800, &vec![CollisionEvent::Started]);
    assert_eq!(
        world.ball,
        Ball { x: 10, y: 10, velocity: 10, horizontal_direction: -1, vertical_direction: 1 }
    );
    tick(&mut world, no_keys(), 600, 800, &vec![CollisionEvent::Stopped]);
    assert_eq!(
        world.ball,
        Ball { x: 0, y: 20, velocity: 10, horizontal_direction: -1, vertical_direction: 1 }
    );
}

#[test]
fn point_and_new_serve() {
    let mut world = setup();
    world.ball = Ball { x: 400, y: 0, velocity: 10, horizontal_direction: 1, vertical_direction: 1 };
    tick(&mut world, no_keys(), 600, 800, &Vec::new());
    assert_eq!(
        world.ball,
        Ball { x: 0, y: 0, velocity: 0, horizontal_direction: -1, vertical_direction: 1 }
    );
    assert_eq!(world.scores[0].score, 0);
    assert_eq!(world.scores[1].score, 1);
    // The ball waits until a key is held.
    tick(&mut world, no_keys(), 600, 800, &Vec::new());
    assert_eq!(world.ball.x, 0);
    assert_eq!(world.ball.velocity, 0);
    let keys = HeldKeys { w: false, s: false, o: false, l: true };
    tick(&mut world, keys, 600, 800, &Vec::new());
    assert_eq!(
        world.ball,
        Ball { x: -10, y: 10, velocity: 10, horizontal_direction: -1, vertical_direction: 1 }
    );
}

#[test]
fn long_game_keeps_the_world_sound() {
    let mut world = setup();
    let mut frame: u32 = 0;
    while frame < 2000 && world.scores[0].score < 5 && world.scores[1].score < 5 {
        let keys = HeldKeys {
            w: frame % 3 == 0,
            s: frame % 5 == 0,
            o: frame % 7 == 0,
            l: frame % 2 == 0,
        };
        let events = if frame % 97 == 0 {
            vec![CollisionEvent::Started, CollisionEvent::Stopped]
        } else if frame % 13 == 0 {
            vec![CollisionEvent::Started, CollisionEvent::Started]
        } else {
            Vec::new()
        };
        assert!(ready_to_tick(&world, keys, 800));
        tick(&mut world, keys, 600, 800, &events);
        assert!(world.ball.is_wf());
        assert!(world.ball.velocity == 0 || world.ball.velocity == 10);
        assert!(-400 <= world.ball.x && world.ball.x <= 400);
        assert!(-300 <= world.ball.y && world.ball.y <= 300);
        assert_eq!(world.paddles.len(), 2);
        assert_eq!((world.paddles[0].x, world.paddles[0].player_id), (-500, 1));
        assert_eq!((world.paddles[1].x, world.paddles[1].player_id), (500, 2));
        assert!(-250 <= world.paddles[0].y && world.paddles[0].y <= 250);
        assert!(-250 <= world.paddles[1].y && world.paddles[1].y <= 250);
        assert_eq!(world.scores.len(), 2);
        assert_eq!((world.scores[0].player_id, world.scores[1].player_id), (1, 2));
        frame += 1;
    }
    assert!(world.scores[0].score + world.scores[1].score > 0);
}

#[test]
fn ready_to_tick_sees_the_serve_of_the_coming_frame() {
    let mut world = World {
        ball: Ball { x: 395, y: 0, velocity: 0, horizontal_direction: 1, vertical_direction: 1 },
        paddles: vec![Paddle { x: -500, y: 0, player_id: 1 }],
        scores: vec![Score { score: 127, player_id: 2 }],
    };
    // At rest the ball scores for nobody; once served it would.
    assert!(ready_to_tick(&world, no_keys(), 800));
    let keys = HeldKeys { w: true, s: false, o: false, l: false };
    assert!(!ready_to_tick(&world, keys, 800));
    world.scores[0].score = 126;
    assert!(ready_to_tick(&world, keys, 800));
    tick(&mut world, keys, 600, 800, &Vec::new());
    assert_eq!(world.scores[0].score, 127);
    world.ball.horizontal_direction = 0;
    assert!(!ready_to_tick(&world, no_keys(), 800));
}
