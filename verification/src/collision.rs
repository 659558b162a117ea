//! The collision responder: every contact that starts turns the ball round.

use vstd::prelude::*;
use crate::ball::{Ball, BallState};

verus! {

/// A notification from the collision detector. Which two bodies met is of no
/// account here.
#[derive(Clone, Copy, Debug, PartialEq, Eq, Structural)]
pub enum CollisionEvent {
    /// Two bodies have begun to touch.
    Started,
    /// Two bodies have ceased to touch.
    Stopped,
}

/// How many of the events say that a contact started.
pub open spec fn started(events: Seq<CollisionEvent>) -> nat
    decreases events.len(),
{
    if events.len() == 0 {
        0
    } else {
        started(events.drop_last()) + (if events.last() is Started {
            1nat
        } else {
            0nat
        })
    }
}

/// The ball after `contacts` contacts: turned round if their number is odd.
pub open spec fn deflected(b: BallState, contacts: nat) -> BallState {
    if contacts % 2 == 0 {
        b
    } else {
        BallState { horizontal_direction: -b.horizontal_direction, ..b }
    }
}

/// A direction reversed `n` times in a row.
pub open spec fn reversed(d: int, n: nat) -> int
    decreases n,
{
    if n == 0 {
        d
    } else {
        -reversed(d, (n - 1) as nat)
    }
}

/// Reversing a direction `n` times gives it back where `n` is even, and its
/// opposite where `n` is odd.
pub proof fn lemma_reversed_parity(d: int, n: nat)
    ensures
        reversed(d, n) == (if n % 2 == 0 {
            d
        } else {
            -d
        }),
    decreases n,
{
    if n > 0 {
        lemma_reversed_parity(d, (n - 1) as nat);
    }
}

/// Collision parity: the events of one frame reverse the ball's horizontal
/// direction once for each start among them. An even number of starts leaves
/// the ball as it was; an odd number leaves it turned round and otherwise as
/// it was.
pub proof fn lemma_collision_parity(b: BallState, events: Seq<CollisionEvent>)
    ensures
        deflected(b, started(events)).horizontal_direction == reversed(
            b.horizontal_direction,
            started(events),
        ),
        started(events) % 2 == 0 ==> deflected(b, started(events)) == b,
        started(events) % 2 == 1 ==> deflected(b, started(events)) == (BallState {
            horizontal_direction: -b.horizontal_direction,
            ..b
        }),
        deflected(b, started(events)).wf() == b.wf(),
{
    lemma_reversed_parity(b.horizontal_direction, started(events));
}

/// Every start counts and nothing else does: there are at most as many
/// starts as events, and exactly as many where every event is a start.
pub proof fn lemma_started_counts(events: Seq<CollisionEvent>)
    ensures
        started(events) <= events.len(),
        started(events) == events.len() <==> (forall|i: int|
            0 <= i < events.len() ==> events[i] is Started),
    decreases events.len(),
{
    if events.len() > 0 {
        lemma_started_counts(events.drop_last());
        if started(events) == events.len() {
            assert forall|i: int| 0 <= i < events.len() implies events[i] is Started by {
                if i < events.len() - 1 {
                    assert(events.drop_last()[i] == events[i]);
                }
            }
        }
        if forall|i: int| 0 <= i < events.len() ==> events[i] is Started {
            assert forall|i: int| 0 <= i < events.drop_last().len() implies events.drop_last()[i]
                is Started by {
                assert(events.drop_last()[i] == events[i]);
            }
        }
    }
}

/// One more event counts where it is a start, and only there.
proof fn lemma_started_push(events: Seq<CollisionEvent>, event: CollisionEvent)
    ensures
        started(events.push(event)) == started(events) + (if event is Started {
            1nat
        } else {
            0nat
        }),
{
    assert(events.push(event).drop_last() == events);
}

/// The collision responder's step for one frame: the ball's horizontal
/// direction is reversed once for every event that says a contact started.
pub fn detect_collisions(events: &Vec<CollisionEvent>, ball: &mut Ball)
    requires
        old(ball).wf(),
    ensures
        final(ball)@ == deflected(old(ball)@, started(events@)),
        final(ball).wf(),
{
    let n: usize = events.len();
    let mut i: usize = 0;
    while i < n
        invariant
            i <= n,
            n == events.len(),
            old(ball).wf(),
            ball@ == deflected(old(ball)@, started(events@.take(i as int))),
        decreases n - i,
    {
        proof {
            lemma_started_push(events@.take(i as int), events@[i as int]);
            assert(events@.take(i as int).push(events@[i as int]) == events@.take(i + 1));
        }
        match events[i] {
            CollisionEvent::Started => {
                ball.horizontal_direction = -ball.horizontal_direction;
            },
            CollisionEvent::Stopped => {},
        }
        i = i + 1;
    }
    assert(events@.take(n as int) == events@);
}

} // verus!
