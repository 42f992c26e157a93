use wash_messaging::messaging::subject::{parse_subscriptions, subject_matches, subscriptions_match};

#[test]
fn exact_and_literal_tokens() {
    assert!(subject_matches("tasks.leet", "tasks.leet"));
    assert!(!subject_matches("tasks.leet", "tasks.reverse"));
    // Token counts must match for a literal pattern.
    assert!(!subject_matches("tasks.leet", "tasks.leet.extra"));
    assert!(!subject_matches("tasks.leet.extra", "tasks.leet"));
}

#[test]
fn single_token_wildcard() {
    assert!(subject_matches("tasks.*", "tasks.leet"));
    assert!(subject_matches("tasks.*", "tasks.reverse"));
    // `*` matches exactly one token, not zero and not many.
    assert!(!subject_matches("tasks.*", "tasks"));
    assert!(!subject_matches("tasks.*", "tasks.leet.v2"));
}

#[test]
fn multi_token_wildcard() {
    assert!(subject_matches("tasks.>", "tasks.leet"));
    assert!(subject_matches("tasks.>", "tasks.leet.v2"));
    // `>` requires at least one trailing token.
    assert!(!subject_matches("tasks.>", "tasks"));
}

#[test]
fn a_rest_wildcard_counts_only_at_the_end() {
    assert!(!subject_matches("tasks.>.leet", "tasks.a.leet"));
    assert!(subject_matches(">", "anything.at.all"));
    assert!(subject_matches("*.leet", "tasks.leet"));
}

#[test]
fn empty_subscriptions_match_everything() {
    // A handler with no configured subscriptions receives every subject.
    assert!(subscriptions_match(&[], "anything.at.all"));
}

#[test]
fn non_empty_subscriptions_match_only_listed_subjects() {
    let subs = vec!["tasks.leet".to_string()];
    assert!(subscriptions_match(&subs, "tasks.leet"));
    assert!(!subscriptions_match(&subs, "tasks.reverse"));
}

#[test]
fn parses_single_subject() {
    assert_eq!(
        parse_subscriptions(Some("tasks.task-worker")),
        vec!["tasks.task-worker".to_string()]
    );
}

#[test]
fn parses_multiple_subjects() {
    assert_eq!(
        parse_subscriptions(Some("a,b,c")),
        vec!["a".to_string(), "b".to_string(), "c".to_string()]
    );
}

#[test]
fn trims_surrounding_whitespace_and_drops_empties() {
    assert_eq!(
        parse_subscriptions(Some(" tasks.leet , tasks.reverse ,, ")),
        vec!["tasks.leet".to_string(), "tasks.reverse".to_string()]
    );
    assert!(parse_subscriptions(None).is_empty());
}
