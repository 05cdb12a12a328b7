use shotover::any_order::{match_in_any_order, UnmatchedResponse};
use shotover::expected_response::{ConsumeMismatch, ExpectedResponse};

fn response(message: &str, key: Option<&str>, topic: &str, offset: Option<i64>) -> ExpectedResponse {
    ExpectedResponse {
        message: message.to_string(),
        key: key.map(|k| k.to_string()),
        topic_name: topic.to_string(),
        offset,
    }
}

#[test]
fn equal_responses_match() {
    let a = response("m", Some("k"), "t", Some(3));
    let b = response("m", Some("k"), "t", Some(3));
    assert!(a == b);
    assert!(a == a.clone());
}

#[test]
fn missing_offset_is_a_wildcard_on_either_side() {
    let expected = response("m", None, "t", None);
    let actual = response("m", None, "t", Some(7));
    assert!(expected == actual);
    assert!(actual == expected);
}

#[test]
fn differing_fields_do_not_match() {
    let base = response("m", Some("k"), "t", Some(1));
    assert!(base != response("other", Some("k"), "t", Some(1)));
    assert!(base != response("m", Some("j"), "t", Some(1)));
    assert!(base != response("m", None, "t", Some(1)));
    assert!(base != response("m", Some("k"), "u", Some(1)));
    assert!(base != response("m", Some("k"), "t", Some(2)));
}

#[test]
fn matching_is_not_transitive() {
    let a = response("m", None, "t", Some(1));
    let wildcard = response("m", None, "t", None);
    let c = response("m", None, "t", Some(2));
    assert!(a == wildcard);
    assert!(wildcard == c);
    assert!(a != c);
}

#[test]
fn check_consumed_accepts_a_matching_record() {
    let expected = response("hello", Some("k"), "topic", Some(0));
    let consumed = response("hello", Some("k"), "topic", Some(0));
    assert_eq!(expected.check_consumed(&consumed), Ok(()));
    let ignore_offset = response("hello", Some("k"), "topic", None);
    assert_eq!(ignore_offset.check_consumed(&consumed), Ok(()));
}

#[test]
fn check_consumed_names_the_first_differing_field() {
    let expected = response("hello", Some("k"), "topic", Some(0));
    assert_eq!(
        expected.check_consumed(&response("bye", None, "other", Some(5))),
        Err(ConsumeMismatch::Topic)
    );
    assert_eq!(
        expected.check_consumed(&response("bye", None, "topic", Some(5))),
        Err(ConsumeMismatch::Message)
    );
    assert_eq!(
        expected.check_consumed(&response("hello", None, "topic", Some(5))),
        Err(ConsumeMismatch::Key)
    );
    assert_eq!(
        expected.check_consumed(&response("hello", Some("k"), "topic", Some(5))),
        Err(ConsumeMismatch::Offset)
    );
    assert_eq!(
        expected.check_consumed(&response("hello", Some("k"), "topic", None)),
        Err(ConsumeMismatch::Offset)
    );
}

#[test]
fn any_order_matches_records_in_order() {
    let expected = vec![response("a", None, "t", Some(0)), response("b", None, "t", Some(1))];
    let actual = vec![response("a", None, "t", Some(0)), response("b", None, "t", Some(1))];
    assert_eq!(match_in_any_order(&expected, &actual), Ok(vec![0, 1]));
}

#[test]
fn any_order_matches_shuffled_records() {
    let expected = vec![
        response("a", None, "t", Some(0)),
        response("b", Some("x"), "t", Some(1)),
        response("c", None, "u", None),
    ];
    let actual = vec![
        response("c", None, "u", Some(9)),
        response("a", None, "t", Some(0)),
        response("b", Some("x"), "t", Some(1)),
    ];
    assert_eq!(match_in_any_order(&expected, &actual), Ok(vec![1, 2, 0]));
}

#[test]
fn any_order_uses_each_consumed_record_once() {
    let expected = vec![response("a", None, "t", None), response("a", None, "t", None)];
    let actual = vec![response("a", None, "t", Some(4)), response("a", None, "t", Some(5))];
    assert_eq!(match_in_any_order(&expected, &actual), Ok(vec![0, 1]));
    let too_few = vec![response("a", None, "t", Some(4)), response("b", None, "t", Some(5))];
    assert_eq!(
        match_in_any_order(&expected, &too_few),
        Err(UnmatchedResponse { expected_index: 1 })
    );
}

#[test]
fn any_order_reports_the_first_unmatched_record() {
    let expected = vec![
        response("a", None, "t", Some(0)),
        response("missing", None, "t", Some(1)),
        response("also missing", None, "t", Some(2)),
    ];
    let actual = vec![
        response("a", None, "t", Some(0)),
        response("b", None, "t", Some(1)),
        response("c", None, "t", Some(2)),
    ];
    assert_eq!(
        match_in_any_order(&expected, &actual),
        Err(UnmatchedResponse { expected_index: 1 })
    );
}

#[test]
fn any_order_with_nothing_expected() {
    let none: Vec<ExpectedResponse> = vec![];
    assert_eq!(match_in_any_order(&none, &none), Ok(vec![]));
}

#[test]
fn any_order_wildcard_can_take_a_record_a_later_one_needs() {
    // The wildcard takes the first record with offset 1, which the second expected
    // record needed; the record with offset 2 is left over.
    let expected = vec![response("a", None, "t", None), response("a", None, "t", Some(1))];
    let actual = vec![response("a", None, "t", Some(1)), response("a", None, "t", Some(2))];
    assert_eq!(
        match_in_any_order(&expected, &actual),
        Err(UnmatchedResponse { expected_index: 1 })
    );
}

#[test]
fn any_order_without_wildcards_accepts_exactly_permutations() {
    let expected = vec![
        response("a", None, "t", Some(0)),
        response("a", None, "t", Some(0)),
        response("b", None, "t", Some(1)),
    ];
    let permutation = vec![
        response("b", None, "t", Some(1)),
        response("a", None, "t", Some(0)),
        response("a", None, "t", Some(0)),
    ];
    assert_eq!(match_in_any_order(&expected, &permutation), Ok(vec![1, 2, 0]));
    let other_counts = vec![
        response("b", None, "t", Some(1)),
        response("b", None, "t", Some(1)),
        response("a", None, "t", Some(0)),
    ];
    assert_eq!(
        match_in_any_order(&expected, &other_counts),
        Err(UnmatchedResponse { expected_index: 1 })
    );
}
