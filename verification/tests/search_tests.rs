use replayd::search::{is_scored, relevance_scores, score_of, Searcher};

#[test]
fn empty_query_scores_zero() {
    let mut s = Searcher::new();
    assert_eq!(s.score("", "anything"), Some(0));
}

#[test]
fn matching_and_non_matching_titles() {
    let mut s = Searcher::new();
    assert!(s.score("clutch", "Insane clutch round").unwrap() > 0);
    assert_eq!(s.score("zzz", "Insane clutch round"), None);
    assert!(s.score("CLUTCH", "insane clutch").unwrap() > 0);
}

#[test]
fn search_keeps_matching_clips_in_order() {
    let mut s = Searcher::new();
    let clips = vec![(1, "Ace round".to_string()), (2, "Funny bug".to_string()), (3, "Another ace".to_string())];
    let scores = relevance_scores(&mut s, "ace", &clips);
    let ids: Vec<u64> = scores.iter().map(|x| x.0).collect();
    assert_eq!(ids, vec![1, 3]);
    assert!(is_scored(&scores, 3));
    assert!(!is_scored(&scores, 2));
    assert!(score_of(&scores, 1) > 0);
    assert_eq!(score_of(&scores, 2), 0);
    assert!(relevance_scores(&mut s, "", &clips).is_empty());
}
