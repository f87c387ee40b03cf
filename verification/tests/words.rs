use alliterative_id::words::{filter_words, pick_word, resolve, CandidateWord, FetchOutcome, ResolutionError};

fn candidate(word: &str, tags: &[&str]) -> CandidateWord {
    CandidateWord {
        word: String::from(word),
        tags: tags.iter().map(|t| String::from(*t)).collect(),
    }
}

#[test]
fn filter_scenario() {
    let words = vec![
        candidate("brave", &["adjective"]),
        candidate("bear", &["noun"]),
        candidate("bat", &["noun"]),
    ];
    let adjectives = filter_words(&words, 'b', "adjective");
    let nouns = filter_words(&words, 'b', "noun");
    assert_eq!(adjectives, vec![String::from("brave")]);
    // "bat" is excluded: length 3 is below the lower bound.
    assert_eq!(nouns, vec![String::from("bear")]);
}

#[test]
fn filter_bounds_and_letter() {
    let words = vec![
        candidate("bold", &["adjective"]),     // length 4: eligible
        candidate("brawniest", &["adjective"]), // length 9: too long
        candidate("bay", &["adjective"]),      // length 3: too short
        candidate("balanced", &["adjective"]), // length 8: eligible
        candidate("calm", &["adjective"]),     // wrong starting letter
        candidate("bear", &["noun"]),          // wrong tag
    ];
    let adjectives = filter_words(&words, 'b', "adjective");
    assert_eq!(adjectives, vec![String::from("bold"), String::from("balanced")]);
}

#[test]
fn filter_keeps_order_and_duplicates() {
    let words = vec![
        candidate("bear", &["noun"]),
        candidate("bird", &["noun", "adjective"]),
        candidate("bear", &["noun"]),
    ];
    let nouns = filter_words(&words, 'b', "noun");
    assert_eq!(
        nouns,
        vec![String::from("bear"), String::from("bird"), String::from("bear")]
    );
}

#[test]
fn pick_word_from_pool() {
    let empty: Vec<String> = Vec::new();
    assert!(pick_word(&empty).is_none());
    let single = vec![String::from("brave")];
    assert_eq!(pick_word(&single), Some(String::from("brave")));
    let pool = vec![String::from("brave"), String::from("bold")];
    let picked = pick_word(&pool).unwrap();
    assert!(pool.contains(&picked));
}

#[test]
fn resolve_scenario() {
    let body = String::from(
        r#"[{"word":"brave","tags":["adjective"]},{"word":"bear","tags":["noun"]},{"word":"bat","tags":["noun"]}]"#,
    );
    let outcome = FetchOutcome::Response(body);
    let resolved = resolve('b', &outcome);
    assert_eq!(resolved, Ok((String::from("brave"), String::from("bear"))));
}

#[test]
fn resolve_empty_response() {
    let outcome = FetchOutcome::Response(String::from("[]"));
    assert_eq!(resolve('b', &outcome), Err(ResolutionError::NoEligibleWords));
}

#[test]
fn resolve_one_pool_empty() {
    let body = String::from(r#"[{"word":"brave","tags":["adjective"]}]"#);
    let outcome = FetchOutcome::Response(body);
    assert_eq!(resolve('b', &outcome), Err(ResolutionError::NoEligibleWords));
}

#[test]
fn resolve_malformed_body() {
    let outcome = FetchOutcome::Response(String::from("not json"));
    assert_eq!(resolve('b', &outcome), Err(ResolutionError::ParseError));
}

#[test]
fn resolve_transport_failure() {
    assert_eq!(
        resolve('b', &FetchOutcome::TransportFailure),
        Err(ResolutionError::NetworkError)
    );
}

#[test]
fn resolve_filters_by_letter() {
    // The resolver must filter by prefix itself: the service response is
    // not guaranteed to be pre-filtered.
    let body = String::from(
        r#"[{"word":"calm","tags":["adjective"]},{"word":"bear","tags":["noun"]},{"word":"brave","tags":["adjective"]}]"#,
    );
    let outcome = FetchOutcome::Response(body);
    assert_eq!(resolve('b', &outcome), Ok((String::from("brave"), String::from("bear"))));
}

#[test]
fn resolve_skips_malformed_records() {
    let body = String::from(
        r#"[{"word":5,"tags":["adjective"]},{"tags":["noun"]},{"word":"brave","tags":["adjective"]},{"word":"bear","tags":["noun"]},{"word":"bold"}]"#,
    );
    let outcome = FetchOutcome::Response(body);
    assert_eq!(resolve('b', &outcome), Ok((String::from("brave"), String::from("bear"))));
}

#[test]
fn label_spread() {
    // Statistical coverage: across a large batch of successful resolutions
    // over two adjectives and two nouns, every pair appears and none
    // dominates disproportionately.
    let body = String::from(
        r#"[{"word":"brave","tags":["adjective"]},{"word":"bold","tags":["adjective"]},{"word":"bear","tags":["noun"]},{"word":"bird","tags":["noun"]}]"#,
    );
    let outcome = FetchOutcome::Response(body);
    let mut counts = std::collections::HashMap::new();
    for _ in 0..10_000 {
        let (adjective, noun) = resolve('b', &outcome).unwrap();
        *counts.entry(format!("{} {}", adjective, noun)).or_insert(0usize) += 1;
    }
    assert_eq!(counts.len(), 4);
    for count in counts.values() {
        assert!(*count > 0);
        assert!(*count < 5_000, "one label dominates disproportionately");
    }
}
