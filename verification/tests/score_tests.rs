use pong::score::{can_credit, credit, score_text, update_text, Score};

#[test]
fn credit_raises_every_counter_of_the_player() {
    let mut scores = vec![
        Score { score: 1, player_id: 2 },
        Score { score: 5, player_id: 1 },
        Score { score: -3, player_id: 2 },
        Score { score: 9, player_id: 3 },
    ];
    credit(&mut scores, 2);
    assert_eq!(
        scores,
        vec![
            Score { score: 2, player_id: 2 },
            Score { score: 5, player_id: 1 },
            Score { score: -2, player_id: 2 },
            Score { score: 9, player_id: 3 },
        ]
    );
}

#[test]
fn credit_of_an_absent_player_changes_nothing() {
    let mut scores = vec![Score { score: 1, player_id: 1 }, Score { score: 2, player_id: 2 }];
    credit(&mut scores, 7);
    assert_eq!(scores, vec![Score { score: 1, player_id: 1 }, Score { score: 2, player_id: 2 }]);
    let mut none: Vec<Score> = Vec::new();
    credit(&mut none, 1);
    assert!(none.is_empty());
}

#[test]
fn credit_reaches_the_largest_value() {
    let mut scores = vec![Score { score: 126, player_id: 1 }];
    assert!(can_credit(&scores, 1));
    credit(&mut scores, 1);
    assert_eq!(scores[0].score, 127);
    assert!(!can_credit(&scores, 1));
    assert!(can_credit(&scores, 2));
}

#[test]
fn can_credit_looks_at_every_counter() {
    let scores = vec![
        Score { score: 0, player_id: 1 },
        Score { score: 127, player_id: 2 },
        Score { score: 127, player_id: 1 },
    ];
    assert!(!can_credit(&scores, 1));
    assert!(!can_credit(&scores, 2));
    assert!(can_credit(&scores, 3));
    assert!(can_credit(&Vec::new(), 1));
}

#[test]
fn score_text_is_the_decimal_numeral() {
    assert_eq!(score_text(0), "0");
    assert_eq!(score_text(7), "7");
    assert_eq!(score_text(10), "10");
    assert_eq!(score_text(42), "42");
    assert_eq!(score_text(100), "100");
    assert_eq!(score_text(105), "105");
    assert_eq!(score_text(127), "127");
    assert_eq!(score_text(-1), "-1");
    assert_eq!(score_text(-20), "-20");
    assert_eq!(score_text(-128), "-128");
}

#[test]
fn score_text_agrees_with_the_standard_rendering() {
    for score in i8::MIN..=i8::MAX {
        assert_eq!(score_text(score), format!("{}", score));
    }
}

#[test]
fn update_text_renders_each_counter_in_order() {
    let scores = vec![Score { score: 3, player_id: 1 }, Score { score: 11, player_id: 2 }];
    assert_eq!(update_text(&scores), vec![String::from("3"), String::from("11")]);
    assert!(update_text(&Vec::new()).is_empty());
}
