use hangman::rank::compute_scores;

#[test]
fn two_players_rank_one_and_two() {
    let entries = vec![
        (String::from("Bob"), 0u32),
        (String::from("Alice"), 1u32),
    ];
    let scores = compute_scores(entries);
    assert_eq!(scores.len(), 2);
    assert_eq!(scores[0].rank, 1);
    assert_eq!(scores[0].nickname, "Alice");
    assert_eq!(scores[0].score, 1);
    assert_eq!(scores[1].rank, 2);
    assert_eq!(scores[1].nickname, "Bob");
    assert_eq!(scores[1].score, 0);
}

#[test]
fn tied_scores_share_a_dense_rank() {
    let entries = vec![
        (String::from("a"), 3u32),
        (String::from("b"), 5u32),
        (String::from("c"), 3u32),
        (String::from("d"), 1u32),
    ];
    let scores = compute_scores(entries);
    let got: Vec<(u32, u32)> = scores.iter().map(|s| (s.rank, s.score)).collect();
    assert_eq!(got, vec![(1, 5), (2, 3), (2, 3), (3, 1)]);
}

#[test]
fn empty_scoreboard_is_empty() {
    let scores = compute_scores(Vec::new());
    assert_eq!(scores.len(), 0);
}

#[test]
fn all_tied_get_rank_one() {
    let entries = vec![
        (String::from("a"), 2u32),
        (String::from("b"), 2u32),
        (String::from("c"), 2u32),
    ];
    let scores = compute_scores(entries);
    for s in &scores {
        assert_eq!(s.rank, 1);
        assert_eq!(s.score, 2);
    }
}
