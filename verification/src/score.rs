//! Score counters, one for each player, and the text that shows them.

use vstd::prelude::*;

verus! {

/// A player's score counter.
#[derive(Clone, Copy, Debug, PartialEq, Eq, Structural)]
pub struct Score {
    pub score: i8,
    pub player_id: i8,
}

/// The mathematical value of a [`Score`].
pub struct ScoreState {
    pub score: int,
    pub player_id: int,
}

impl View for Score {
    type V = ScoreState;

    open spec fn view(&self) -> ScoreState {
        ScoreState { score: self.score as int, player_id: self.player_id as int }
    }
}

/// The values of a list of score counters, in order.
pub open spec fn score_states(scores: Seq<Score>) -> Seq<ScoreState> {
    Seq::new(scores.len(), |i: int| scores[i]@)
}

/// The counters after one point went to `player_id`: every counter of that
/// player is one higher, every other counter is as it was.
pub open spec fn credited(scores: Seq<ScoreState>, player_id: int) -> Seq<ScoreState> {
    Seq::new(
        scores.len(),
        |i: int|
            if scores[i].player_id == player_id {
                ScoreState { score: scores[i].score + 1, player_id: scores[i].player_id }
            } else {
                scores[i]
            },
    )
}

/// Whether every counter of `player_id` can still be raised by one.
pub open spec fn creditable(scores: Seq<Score>, player_id: int) -> bool {
    forall|i: int|
        0 <= i < scores.len() && scores[i].player_id == player_id ==> #[trigger] scores[i].score
            < i8::MAX
}

/// Whether every counter of `player_id` can still be raised by one.
pub fn can_credit(scores: &Vec<Score>, player_id: i8) -> (r: bool)
    ensures
        r == creditable(scores@, player_id as int),
{
    let n: usize = scores.len();
    let mut i: usize = 0;
    while i < n
        invariant
            i <= n,
            n == scores.len(),
            forall|j: int|
                0 <= j < i && scores[j].player_id == player_id ==> #[trigger] scores[j].score
                    < i8::MAX,
        decreases n - i,
    {
        if scores[i].player_id == player_id && scores[i].score == i8::MAX {
            return false;
        }
        i = i + 1;
    }
    true
}

/// Gives one point to `player_id`. Every counter is visited; those of
/// `player_id` go up by one.
pub fn credit(scores: &mut Vec<Score>, player_id: i8)
    requires
        creditable(old(scores)@, player_id as int),
    ensures
        final(scores).len() == old(scores).len(),
        score_states(final(scores)@) == credited(score_states(old(scores)@), player_id as int),
{
    let n: usize = scores.len();
    let mut i: usize = 0;
    while i < n
        invariant
            i <= n,
            scores.len() == n,
            old(scores).len() == n,
            forall|j: int| 0 <= j < i ==> #[trigger] scores[j]@ == credited(score_states(old(scores)@), player_id as int)[j],
            forall|j: int| i <= j < n ==> #[trigger] scores[j] == old(scores)[j],
            creditable(old(scores)@, player_id as int),
        decreases n - i,
    {
        if scores[i].player_id == player_id {
            scores[i].score = scores[i].score + 1;
        }
        i = i + 1;
    }
}

/// The character that stands for the digit `d`.
pub open spec fn digit(d: nat) -> char {
    if d == 0 {
        '0'
    } else if d == 1 {
        '1'
    } else if d == 2 {
        '2'
    } else if d == 3 {
        '3'
    } else if d == 4 {
        '4'
    } else if d == 5 {
        '5'
    } else if d == 6 {
        '6'
    } else if d == 7 {
        '7'
    } else if d == 8 {
        '8'
    } else {
        '9'
    }
}

/// The decimal digits of `n`, the most significant first, with no leading
/// zero.
pub open spec fn digits(n: nat) -> Seq<char>
    decreases n,
{
    if n < 10 {
        seq![digit(n)]
    } else {
        digits(n / 10).push(digit(n % 10))
    }
}

/// `n` written in decimal, with a minus sign in front where it is negative.
pub open spec fn numeral(n: int) -> Seq<char> {
    if n < 0 {
        seq!['-'] + digits((-n) as nat)
    } else {
        digits(n as nat)
    }
}

/// The digit `d` as text.
fn digit_text(d: u8) -> (text: &'static str)
    requires
        d < 10,
    ensures
        text@ == seq![digit(d as nat)],
{
    proof {
        reveal_strlit("0");
        reveal_strlit("1");
        reveal_strlit("2");
        reveal_strlit("3");
        reveal_strlit("4");
        reveal_strlit("5");
        reveal_strlit("6");
        reveal_strlit("7");
        reveal_strlit("8");
        reveal_strlit("9");
    }
    let text: &'static str = match d {
        0 => "0",
        1 => "1",
        2 => "2",
        3 => "3",
        4 => "4",
        5 => "5",
        6 => "6",
        7 => "7",
        8 => "8",
        _ => "9",
    };
    assert(text@ =~= seq![digit(d as nat)]);
    text
}

/// The text that shows a counter: its value in decimal.
pub fn score_text(score: i8) -> (text: String)
    ensures
        text@ == numeral(score as int),
{
    let mut text = String::new();
    let magnitude: u8 = if score < 0 {
        proof {
            reveal_strlit("-");
        }
        text.append("-");
        (-(score as i16)) as u8
    } else {
        score as u8
    };
    let ghost sign = text@;
    if magnitude >= 100 {
        text.append(digit_text(magnitude / 100));
    }
    if magnitude >= 10 {
        text.append(digit_text((magnitude / 10) % 10));
    }
    text.append(digit_text(magnitude % 10));
    proof {
        let m = magnitude as nat;
        reveal_with_fuel(digits, 3);
        assert(text@ =~= sign + digits(m));
        assert(numeral(score as int) =~= sign + digits(m));
    }
    text
}

/// The texts that show the counters, in their order.
pub fn update_text(scores: &Vec<Score>) -> (texts: Vec<String>)
    ensures
        texts.len() == scores.len(),
        forall|i: int| 0 <= i < scores.len() ==> (#[trigger] texts[i])@ == numeral(scores[i].score as int),
{
    let mut texts: Vec<String> = Vec::new();
    let n: usize = scores.len();
    let mut i: usize = 0;
    while i < n
        invariant
            i <= n,
            n == scores.len(),
            texts.len() == i,
            forall|j: int| 0 <= j < i ==> (#[trigger] texts[j])@ == numeral(scores[j].score as int),
        decreases n - i,
    {
        texts.push(score_text(scores[i].score));
        i = i + 1;
    }
    texts
}

} // verus!
