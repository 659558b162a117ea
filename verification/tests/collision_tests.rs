use pong::ball::Ball;
use pong::collision::{detect_collisions, CollisionEvent};

fn flying(horizontal: i8) -> Ball {
    Ball { x: 12, y: -7, velocity: 10, horizontal_direction: horizontal, vertical_direction: -1 }
}

#[test]
fn no_event_leaves_the_ball_alone() {
    let mut ball = flying(1);
    detect_collisions(&Vec::new(), &mut ball);
    assert_eq!(ball, flying(1));
}

#[test]
fn one_start_turns_the_ball_round() {
    let mut ball = flying(1);
    detect_collisions(&vec![CollisionEvent::Started], &mut ball);
    assert_eq!(ball, flying(-1));
    detect_collisions(&vec![CollisionEvent::Started], &mut ball);
    assert_eq!(ball, flying(1));
}

#[test]
fn stops_are_ignored() {
    let mut ball = flying(-1);
    detect_collisions(&vec![CollisionEvent::Stopped, CollisionEvent::Stopped], &mut ball);
    assert_eq!(ball, flying(-1));
}

#[test]
fn starts_in_one_frame_cancel_in_pairs() {
    for n in 0..9 {
        let events = vec![CollisionEvent::Started; n];
        let mut ball = flying(1);
        detect_collisions(&events, &mut ball);
        assert_eq!(ball, flying(if n % 2 == 0 { 1 } else { -1 }));
    }
}

#[test]
fn only_the_starts_among_mixed_events_count() {
    let events = vec![
        CollisionEvent::Started,
        CollisionEvent::Stopped,
        CollisionEvent::Started,
        CollisionEvent::Stopped,
        CollisionEvent::Started,
    ];
    let mut ball = flying(1);
    detect_collisions(&events, &mut ball);
    assert_eq!(ball, flying(-1));
}
