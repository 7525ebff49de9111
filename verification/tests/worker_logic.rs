use orchestrator::text::str_eq;
use orchestrator::worker::{completion_outcome, outcome_to_completion, short_type_name};

#[test]
fn completion_outcome_follows_the_empty_string_convention() {
    assert_eq!(
        completion_outcome("4".to_string(), "".to_string()),
        Some(Ok("4".to_string()))
    );
    assert_eq!(
        completion_outcome("".to_string(), "Sadge".to_string()),
        Some(Err("Sadge".to_string()))
    );
    // a non-empty result wins over a non-empty error
    assert_eq!(
        completion_outcome("4".to_string(), "Sadge".to_string()),
        Some(Ok("4".to_string()))
    );
    // two empty payloads carry no outcome: the poll goes on
    assert_eq!(completion_outcome("".to_string(), "".to_string()), None);
}

#[test]
fn outcome_to_completion_fills_exactly_one_field() {
    assert_eq!(
        outcome_to_completion(Ok("4".to_string())),
        ("4".to_string(), "".to_string())
    );
    assert_eq!(
        outcome_to_completion(Err("Sadge".to_string())),
        ("".to_string(), "Sadge".to_string())
    );
}

#[test]
fn short_type_name_takes_the_last_path_segment() {
    assert_eq!(short_type_name("crate::example::SumActivity"), "SumActivity");
    assert_eq!(short_type_name("SumActivity"), "SumActivity");
    assert_eq!(short_type_name("a::b"), "b");
    assert_eq!(short_type_name(""), "");
    assert_eq!(short_type_name("a::"), "");
}

#[test]
fn str_eq_compares_by_characters() {
    assert!(str_eq("", ""));
    assert!(str_eq("abc", "abc"));
    assert!(!str_eq("abc", "abd"));
    assert!(!str_eq("abc", "ab"));
    assert!(str_eq("same length", "same-length") == false);
}
