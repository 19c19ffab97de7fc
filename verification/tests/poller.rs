use index_status::numeric::parse_i64_range;
use index_status::search::find_from;
use index_status::ClientPolicy;
use index_status::ErrorKind;
use index_status::IndexTask;
use index_status::Status;

fn bad_response(r: Result<Status, ErrorKind>) -> String {
    match r {
        Err(ErrorKind::BadResponse(m)) => m,
        other => panic!("expected BadResponse, got {:?}", other),
    }
}

// Command builder

#[test]
fn build_command_matches_template() {
    assert_eq!(
        IndexTask::build_command("ns".to_string(), "idx".to_string()),
        "sindex/ns/idx"
    );
}

#[test]
fn build_command_arbitrary_identifiers() {
    assert_eq!(
        IndexTask::build_command("prod_eu_7".to_string(), "users_by_age".to_string()),
        "sindex/prod_eu_7/users_by_age"
    );
}

// Reply grammar: success marker

#[test]
fn parse_full_load_is_complete() {
    assert_eq!(
        IndexTask::parse_response("load_pct=100;other"),
        Ok(Status::Complete)
    );
}

#[test]
fn parse_partial_load_is_in_progress() {
    assert_eq!(
        IndexTask::parse_response("load_pct=57;x"),
        Ok(Status::InProgress)
    );
}

#[test]
fn parse_marker_after_other_content() {
    assert_eq!(
        IndexTask::parse_response("ns=test:load_pct=100;done"),
        Ok(Status::Complete)
    );
}

#[test]
fn parse_leading_zeros_still_complete() {
    assert_eq!(
        IndexTask::parse_response("load_pct=0100;"),
        Ok(Status::Complete)
    );
}

#[test]
fn parse_negative_percentage_is_in_progress() {
    assert_eq!(
        IndexTask::parse_response("load_pct=-100;"),
        Ok(Status::InProgress)
    );
}

#[test]
fn parse_success_marker_outranks_fail_marker() {
    assert_eq!(
        IndexTask::parse_response("FAIL:201 load_pct=50;"),
        Ok(Status::InProgress)
    );
}

// Reply grammar: not-found markers

#[test]
fn parse_fail_201_is_not_found() {
    assert_eq!(IndexTask::parse_response("FAIL:201;"), Ok(Status::NotFound));
}

#[test]
fn parse_fail_203_is_not_found() {
    assert_eq!(IndexTask::parse_response("FAIL:203;"), Ok(Status::NotFound));
}

#[test]
fn parse_both_fail_markers_is_not_found() {
    assert_eq!(
        IndexTask::parse_response("FAIL:201 and FAIL:203"),
        Ok(Status::NotFound)
    );
}

// Reply grammar: malformed replies

#[test]
fn parse_no_marker_at_all_is_bad_response() {
    let msg = bad_response(IndexTask::parse_response("ERROR:unknown"));
    assert_eq!(msg, "Code 201 and 203 missing. Response: ERROR:unknown");
}

#[test]
fn parse_missing_delimiter_is_bad_response() {
    let msg = bad_response(IndexTask::parse_response("load_pct=42"));
    assert_eq!(msg, "delimiter missing in response. Response: load_pct=42");
}

#[test]
fn parse_empty_percentage_is_bad_response() {
    let msg = bad_response(IndexTask::parse_response("load_pct=;x"));
    assert_eq!(msg, "invalid load_pct value in response. Response: load_pct=;x");
}

#[test]
fn parse_non_numeric_percentage_is_bad_response() {
    let msg = bad_response(IndexTask::parse_response("load_pct=abc;"));
    assert_eq!(msg, "invalid load_pct value in response. Response: load_pct=abc;");
}

#[test]
fn parse_oversized_percentage_is_bad_response() {
    let msg = bad_response(IndexTask::parse_response("load_pct=99999999999999999999;"));
    assert_eq!(
        msg,
        "invalid load_pct value in response. Response: load_pct=99999999999999999999;"
    );
}

// Per-reply evaluation and the short-circuit test

#[test]
fn evaluate_missing_entry_is_not_found() {
    assert_eq!(IndexTask::evaluate_reply(None), Ok(Status::NotFound));
}

#[test]
fn evaluate_present_entry_uses_grammar() {
    let reply = "load_pct=3;".to_string();
    assert_eq!(
        IndexTask::evaluate_reply(Some(&reply)),
        Ok(Status::InProgress)
    );
}

#[test]
fn only_complete_is_not_decisive() {
    assert!(!IndexTask::is_decisive(&Ok(Status::Complete)));
    assert!(IndexTask::is_decisive(&Ok(Status::InProgress)));
    assert!(IndexTask::is_decisive(&Ok(Status::NotFound)));
    assert!(IndexTask::is_decisive(&Err(ErrorKind::BadResponse(
        "oops".to_string()
    ))));
}

// Aggregation

#[test]
fn aggregate_empty_cluster_is_connection_error() {
    match IndexTask::query_status_from_replies(&Vec::new()) {
        Err(ErrorKind::Connection(m)) => assert_eq!(m, "No connected node"),
        other => panic!("expected Connection error, got {:?}", other),
    }
}

#[test]
fn aggregate_unanimous_complete() {
    let replies = vec![
        Some("load_pct=100;".to_string()),
        Some("load_pct=100;".to_string()),
        Some("load_pct=100;".to_string()),
    ];
    assert_eq!(
        IndexTask::query_status_from_replies(&replies),
        Ok(Status::Complete)
    );
}

#[test]
fn aggregate_early_disagreement_stops_at_second_node() {
    // The third reply is garbage: if the aggregation looked past the
    // decisive second reply it would fail with BadResponse instead.
    let replies = vec![
        Some("load_pct=100;".to_string()),
        Some("load_pct=40;".to_string()),
        Some("not a reply at all".to_string()),
    ];
    assert_eq!(
        IndexTask::query_status_from_replies(&replies),
        Ok(Status::InProgress)
    );
}

#[test]
fn aggregate_missing_key_is_not_found() {
    let replies = vec![
        Some("load_pct=100;".to_string()),
        None,
        Some("load_pct=100;".to_string()),
    ];
    assert_eq!(
        IndexTask::query_status_from_replies(&replies),
        Ok(Status::NotFound)
    );
}

#[test]
fn aggregate_propagates_parse_failure() {
    let replies = vec![
        Some("load_pct=100;".to_string()),
        Some("garbage".to_string()),
    ];
    let msg = bad_response(IndexTask::query_status_from_replies(&replies));
    assert_eq!(msg, "Code 201 and 203 missing. Response: garbage");
}

#[test]
fn aggregate_single_in_progress_node() {
    let replies = vec![Some("load_pct=0;".to_string())];
    assert_eq!(
        IndexTask::query_status_from_replies(&replies),
        Ok(Status::InProgress)
    );
}

// Search and numeric helpers

#[test]
fn find_from_first_occurrence() {
    assert_eq!(find_from("abcabc", "bc", 0), Some(1));
    assert_eq!(find_from("abcabc", "bc", 2), Some(4));
    assert_eq!(find_from("abcabc", "bd", 0), None);
    assert_eq!(find_from("abc", "", 2), Some(2));
}

#[test]
fn parse_i64_range_reads_the_slice() {
    assert_eq!(parse_i64_range("load_pct=100;", 9, 12), Some(100));
    assert_eq!(parse_i64_range("x-42;", 1, 4), Some(-42));
    assert_eq!(parse_i64_range("x+7y", 1, 3), Some(7));
    assert_eq!(parse_i64_range("abc", 0, 3), None);
    assert_eq!(parse_i64_range("", 0, 0), None);
    assert_eq!(parse_i64_range("9223372036854775807", 0, 19), Some(i64::MAX));
    assert_eq!(parse_i64_range("9223372036854775808", 0, 19), None);
}

// Task construction and timeout policy

#[test]
fn new_keeps_target_and_policy() {
    let policy = ClientPolicy {
        timeout_millis: Some(250),
    };
    let task = IndexTask::new(policy, "ns".to_string(), "idx".to_string());
    assert_eq!(task.policy, policy);
    assert_eq!(task.namespace, "ns");
    assert_eq!(task.index_name, "idx");
}

#[test]
fn get_timeout_returns_configured_value() {
    let task = IndexTask::new(
        ClientPolicy {
            timeout_millis: Some(5000),
        },
        "ns".to_string(),
        "idx".to_string(),
    );
    assert_eq!(task.get_timeout(), Ok(5000));
}

#[test]
fn get_timeout_without_policy_value_is_invalid_argument() {
    let task = IndexTask::new(
        ClientPolicy {
            timeout_millis: None,
        },
        "ns".to_string(),
        "idx".to_string(),
    );
    match task.get_timeout() {
        Err(ErrorKind::InvalidArgument(m)) => {
            assert_eq!(m, "Timeout missing in client policy")
        }
        other => panic!("expected InvalidArgument, got {:?}", other),
    }
}
