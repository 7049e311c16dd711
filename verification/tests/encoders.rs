use logs_responder::escape::{push_decimal, push_escaped, push_escaped_char};
use logs_responder::join_iter::JoinIter;
use logs_responder::json_stream::{serialize_entry, serialize_record};
use logs_responder::raw_stream::{encode_lines, raw_chunk};
use logs_responder::record::{Level, LogRecord, UpstreamError};
use logs_responder::response::{LogsResponse, LogsResponseType, Pulled, StreamState};
use logs_responder::text_stream::render;

fn record(line: &str) -> LogRecord {
    LogRecord::new(1700000000000, Level::Info, line.to_string())
}

fn record_with_user(line: &str, user: &str) -> LogRecord {
    let mut r = record(line);
    r.set_field("user".to_string(), user.to_string());
    r
}

fn failure() -> UpstreamError {
    UpstreamError { reason: "backend went away".to_string() }
}

#[test]
fn raw_lines_get_a_line_break_each() {
    let lines = vec!["a".to_string(), "b".to_string()];
    assert_eq!(encode_lines(&lines), "a\nb\n");
}

#[test]
fn raw_chunk_appends_one_line_break() {
    assert_eq!(raw_chunk("a".to_string()), "a\n");
    assert_eq!(raw_chunk(String::new()), "\n");
    assert_eq!(raw_chunk("tab\tstays".to_string()), "tab\tstays\n");
}

#[test]
fn raw_body_of_no_lines_is_empty() {
    let lines: Vec<String> = Vec::new();
    assert_eq!(encode_lines(&lines), "");
}

#[test]
fn raw_prefixes_end_in_a_line_break() {
    let all = vec!["one".to_string(), "two".to_string(), "three".to_string()];
    for k in 0..=all.len() {
        let prefix: Vec<String> = all[..k].to_vec();
        let body = encode_lines(&prefix);
        assert!(body.is_empty() || body.ends_with('\n'));
        assert_eq!(body.matches('\n').count(), k);
    }
}

#[test]
fn join_puts_separators_between_elements_only() {
    let mut joiner = JoinIter::new(",".to_string());
    let mut out = String::from("[");
    out.push_str(&joiner.next("{\"msg\":\"a\"}"));
    out.push_str(&joiner.next("{\"msg\":\"b\"}"));
    out.push(']');
    assert_eq!(out, "[{\"msg\":\"a\"},{\"msg\":\"b\"}]");
}

#[test]
fn join_chunks_one_by_one() {
    let mut joiner = JoinIter::new(", ".to_string());
    assert!(!joiner.started);
    assert_eq!(joiner.next("x"), "x");
    assert!(joiner.started);
    assert_eq!(joiner.next("y"), ", y");
    assert_eq!(joiner.next(""), ", ");
    assert_eq!(joiner.separator, ", ");
}

#[test]
fn join_counts_one_separator_less_than_elements() {
    for n in 1..6usize {
        let mut joiner = JoinIter::new(";".to_string());
        let mut out = String::new();
        for _ in 0..n {
            out.push_str(&joiner.next("e"));
        }
        assert_eq!(out.matches(';').count(), n - 1);
        assert!(out.starts_with('e'));
        assert!(out.ends_with('e'));
    }
}

#[test]
fn entry_is_quoted_key_and_value() {
    assert_eq!(serialize_entry("msg", "a"), "\"msg\":\"a\"");
    assert_eq!(serialize_entry("k\"", "v\\"), "\"k\\\"\":\"v\\\\\"");
}

#[test]
fn escape_covers_quotes_and_control_characters() {
    let mut out = String::from(">");
    push_escaped(&mut out, "a\"b\\c\nd\re\tf\u{08}g\u{0c}h\u{01}i\u{1f}j");
    assert_eq!(out, ">a\\\"b\\\\c\\nd\\re\\tf\\bg\\fh\\u0001i\\u001fj");
}

#[test]
fn escape_leaves_other_characters_alone() {
    let mut out = String::new();
    push_escaped(&mut out, "plain text, ümlaut, 日本語 / = ' {}");
    assert_eq!(out, "plain text, ümlaut, 日本語 / = ' {}");
    let mut one = String::new();
    push_escaped_char(&mut one, ' ');
    assert_eq!(one, " ");
    push_escaped_char(&mut one, '\u{00}');
    assert_eq!(one, " \\u0000");
}

#[test]
fn decimal_has_no_leading_zeros() {
    let mut out = String::new();
    push_decimal(&mut out, 0);
    assert_eq!(out, "0");
    push_decimal(&mut out, 10);
    assert_eq!(out, "010");
    let mut big = String::new();
    push_decimal(&mut big, u64::MAX);
    assert_eq!(big, "18446744073709551615");
    let mut mid = String::new();
    push_decimal(&mut mid, 1700000000000);
    assert_eq!(mid, "1700000000000");
}

#[test]
fn record_as_json_object() {
    let r = record_with_user("hello", "alice");
    assert_eq!(
        serialize_record(&r),
        "{\"timestamp\":1700000000000,\"level\":\"INFO\",\"line\":\"hello\",\"fields\":{\"user\":\"alice\"}}"
    );
}

#[test]
fn record_without_fields_as_json_object() {
    let r = LogRecord::new(0, Level::Error, "x\"y".to_string());
    assert_eq!(
        serialize_record(&r),
        "{\"timestamp\":0,\"level\":\"ERROR\",\"line\":\"x\\\"y\",\"fields\":{}}"
    );
}

#[test]
fn record_fields_are_joined_in_insertion_order() {
    let mut r = LogRecord::new(7, Level::Debug, "m".to_string());
    r.set_field("z".to_string(), "1".to_string());
    r.set_field("a".to_string(), "2".to_string());
    r.set_field("m".to_string(), "3".to_string());
    assert_eq!(
        serialize_record(&r),
        "{\"timestamp\":7,\"level\":\"DEBUG\",\"line\":\"m\",\"fields\":{\"z\":\"1\",\"a\":\"2\",\"m\":\"3\"}}"
    );
    assert_eq!(render(&r), "7 DEBUG m z=1 a=2 m=3");
}

#[test]
fn record_as_text_line() {
    let r = record_with_user("hello", "alice");
    assert_eq!(render(&r), "1700000000000 INFO hello user=alice");
}

#[test]
fn text_line_never_holds_a_line_break() {
    let mut r = LogRecord::new(1, Level::Warn, "first\nsecond\r\n".to_string());
    r.set_field("k\n".to_string(), "v\n".to_string());
    let line = render(&r);
    assert_eq!(line, "1 WARN first\\nsecond\\r\\n k\\n=v\\n");
    assert!(!line.contains('\n'));
}

#[test]
fn level_names() {
    assert_eq!(Level::Trace.name(), "TRACE");
    assert_eq!(Level::Debug.name(), "DEBUG");
    assert_eq!(Level::Info.name(), "INFO");
    assert_eq!(Level::Warn.name(), "WARN");
    assert_eq!(Level::Error.name(), "ERROR");
}

#[test]
fn set_field_replaces_in_place_and_appends_new_keys() {
    let mut r = record("x");
    r.set_field("a".to_string(), "1".to_string());
    r.set_field("b".to_string(), "2".to_string());
    r.set_field("a".to_string(), "3".to_string());
    assert_eq!(
        r.fields,
        vec![("a".to_string(), "3".to_string()), ("b".to_string(), "2".to_string())]
    );
    assert_eq!(r.line, "x");
    assert_eq!(r.timestamp, 1700000000000);
    assert_eq!(r.level, Level::Info);
}

#[test]
fn json_of_no_records_is_an_empty_array() {
    let elements: Vec<Result<LogRecord, UpstreamError>> = Vec::new();
    let (body, state) = LogsResponse::encode_all(LogsResponseType::Json, &elements);
    assert_eq!(body, "[]");
    assert_eq!(state, StreamState::Completed);
}

#[test]
fn json_of_one_record_has_no_comma_between_brackets_and_object() {
    let elements = vec![Ok(record("a"))];
    let (body, state) = LogsResponse::encode_all(LogsResponseType::Json, &elements);
    assert_eq!(
        body,
        "[{\"timestamp\":1700000000000,\"level\":\"INFO\",\"line\":\"a\",\"fields\":{}}]"
    );
    assert_eq!(state, StreamState::Completed);
}

#[test]
fn json_of_two_records_is_the_array_of_their_objects() {
    let elements = vec![Ok(record("a")), Ok(record("b"))];
    let (body, state) = LogsResponse::encode_all(LogsResponseType::Json, &elements);
    let expected = format!(
        "[{},{}]",
        serialize_record(&record("a")),
        serialize_record(&record("b"))
    );
    assert_eq!(body, expected);
    assert_eq!(
        body,
        "[{\"timestamp\":1700000000000,\"level\":\"INFO\",\"line\":\"a\",\"fields\":{}},{\"timestamp\":1700000000000,\"level\":\"INFO\",\"line\":\"b\",\"fields\":{}}]"
    );
    assert_eq!(state, StreamState::Completed);
}

#[test]
fn json_that_fails_at_once_is_the_opening_bracket_alone() {
    let elements = vec![Err(failure()), Ok(record("late"))];
    let (body, state) = LogsResponse::encode_all(LogsResponseType::Json, &elements);
    assert_eq!(body, "[");
    assert_eq!(state, StreamState::Aborted);
}

#[test]
fn json_that_fails_after_two_objects_is_not_closed() {
    let elements = vec![Ok(record("a")), Ok(record("b")), Err(failure()), Ok(record("c"))];
    let (body, state) = LogsResponse::encode_all(LogsResponseType::Json, &elements);
    let expected = format!(
        "[{},{}",
        serialize_record(&record("a")),
        serialize_record(&record("b"))
    );
    assert_eq!(body, expected);
    assert!(!body.ends_with(']'));
    assert_eq!(state, StreamState::Aborted);
}

#[test]
fn text_body_is_one_line_per_record() {
    let elements = vec![Ok(record_with_user("a", "u")), Ok(record("b"))];
    let (body, state) = LogsResponse::encode_all(LogsResponseType::Text, &elements);
    assert_eq!(body, "1700000000000 INFO a user=u\n1700000000000 INFO b\n");
    assert_eq!(state, StreamState::Completed);
}

#[test]
fn text_body_keeps_the_lines_before_a_failure() {
    let elements = vec![Ok(record("a")), Err(failure()), Ok(record("b"))];
    let (body, state) = LogsResponse::encode_all(LogsResponseType::Text, &elements);
    assert_eq!(body, "1700000000000 INFO a\n");
    assert_eq!(state, StreamState::Aborted);
}

#[test]
fn raw_body_from_records_is_their_lines() {
    let elements = vec![Ok(record("a")), Ok(record("b"))];
    let (body, state) = LogsResponse::encode_all(LogsResponseType::Raw, &elements);
    assert_eq!(body, "a\nb\n");
    assert_eq!(state, StreamState::Completed);
    let broken = vec![Ok(record("a")), Err(failure())];
    let (body, state) = LogsResponse::encode_all(LogsResponseType::Raw, &broken);
    assert_eq!(body, "a\n");
    assert_eq!(state, StreamState::Aborted);
}

#[test]
fn json_response_step_by_step() {
    let mut response = LogsResponse::new(LogsResponseType::Json);
    assert_eq!(response.state, StreamState::NotStarted);
    assert!(response.wants_pull());
    assert_eq!(response.start(), "[");
    assert_eq!(response.state, StreamState::Streaming);
    assert_eq!(response.start(), "");
    let a = record("a");
    let b = record("b");
    assert_eq!(response.poll_next(Pulled::Item(&a)), serialize_record(&a));
    assert_eq!(
        response.poll_next(Pulled::Item(&b)),
        format!(",{}", serialize_record(&b))
    );
    assert_eq!(response.state, StreamState::Streaming);
    assert_eq!(response.poll_next(Pulled::Exhausted), "]");
    assert_eq!(response.state, StreamState::Completed);
    assert!(!response.wants_pull());
    assert_eq!(response.poll_next(Pulled::Item(&a)), "");
    assert_eq!(response.poll_next(Pulled::Exhausted), "");
    assert_eq!(response.state, StreamState::Completed);
}

#[test]
fn response_that_was_not_started_starts_with_the_first_pull() {
    let a = record("a");
    let mut json = LogsResponse::new(LogsResponseType::Json);
    assert_eq!(
        json.poll_next(Pulled::Item(&a)),
        format!("[{}", serialize_record(&a))
    );
    let mut empty = LogsResponse::new(LogsResponseType::Json);
    assert_eq!(empty.poll_next(Pulled::Exhausted), "[]");
    assert_eq!(empty.state, StreamState::Completed);
    let mut broken = LogsResponse::new(LogsResponseType::Json);
    assert_eq!(broken.poll_next(Pulled::Failed), "[");
    assert_eq!(broken.state, StreamState::Aborted);
    let mut text = LogsResponse::new(LogsResponseType::Text);
    assert_eq!(text.start(), "");
    assert_eq!(text.poll_next(Pulled::Exhausted), "");
    assert_eq!(text.state, StreamState::Completed);
}

#[test]
fn failure_aborts_and_closes_nothing() {
    let mut response = LogsResponse::new(LogsResponseType::Json);
    response.start();
    let a = record("a");
    response.poll_next(Pulled::Item(&a));
    assert_eq!(response.poll_next(Pulled::Failed), "");
    assert_eq!(response.state, StreamState::Aborted);
    assert!(!response.wants_pull());
    assert_eq!(response.poll_next(Pulled::Exhausted), "");
    assert_eq!(response.state, StreamState::Aborted);
}

#[test]
fn cancel_releases_the_upstream_once() {
    let mut response = LogsResponse::new(LogsResponseType::Text);
    response.start();
    let a = record("a");
    response.poll_next(Pulled::Item(&a));
    assert!(response.cancel());
    assert_eq!(response.state, StreamState::Aborted);
    assert!(!response.cancel());
    assert!(!response.wants_pull());
    assert_eq!(response.poll_next(Pulled::Item(&a)), "");
    let mut done = LogsResponse::new(LogsResponseType::Raw);
    done.poll_next(Pulled::Exhausted);
    assert!(!done.cancel());
    assert_eq!(done.state, StreamState::Completed);
    let mut fresh = LogsResponse::new(LogsResponseType::Json);
    assert!(fresh.cancel());
    assert_eq!(fresh.start(), "");
}

#[test]
fn text_prefixes_are_whole_lines() {
    let lines = ["one", "two\nwith a break", "three"];
    for k in 0..=lines.len() {
        let mut elements: Vec<Result<LogRecord, UpstreamError>> = Vec::new();
        for line in &lines[..k] {
            elements.push(Ok(record_with_user(line, "u\n")));
        }
        let (body, state) = LogsResponse::encode_all(LogsResponseType::Text, &elements);
        assert!(body.is_empty() || body.ends_with('\n'));
        assert_eq!(body.matches('\n').count(), k);
        assert_eq!(state, StreamState::Completed);
        elements.push(Err(failure()));
        let (cut, state) = LogsResponse::encode_all(LogsResponseType::Text, &elements);
        assert_eq!(cut, body);
        assert_eq!(state, StreamState::Aborted);
    }
}
