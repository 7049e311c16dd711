use logs_responder::dispatch::respond;
use logs_responder::record::{Level, LogRecord, UpstreamError};
use logs_responder::response::{LogsResponseType, StreamState};
use logs_responder::schema::{inferred_responses, operation_response, BodyShape, JsonLogsResponse};

#[test]
fn content_type_of_each_encoding() {
    assert_eq!(LogsResponseType::Raw.content_type(), "text/plain; charset=utf-8");
    assert_eq!(LogsResponseType::Text.content_type(), "text/plain; charset=utf-8");
    assert_eq!(LogsResponseType::Json.content_type(), "application/json");
}

#[test]
fn media_type_of_each_encoding() {
    assert_eq!(LogsResponseType::Raw.media_type(), "text/plain");
    assert_eq!(LogsResponseType::Text.media_type(), "text/plain");
    assert_eq!(LogsResponseType::Json.media_type(), "application/json");
}

#[test]
fn body_shape_of_each_encoding() {
    assert_eq!(LogsResponseType::Raw.body_shape(), BodyShape::PlainText);
    assert_eq!(LogsResponseType::Text.body_shape(), BodyShape::PlainText);
    assert_eq!(LogsResponseType::Json.body_shape(), BodyShape::Messages);
    assert_eq!(BodyShape::PlainText.schema_name(), "String");
    assert_eq!(BodyShape::Messages.schema_name(), "JsonLogsResponse");
}

#[test]
fn documented_content_of_one_encoding() {
    let content = LogsResponseType::Raw.documented_content();
    assert_eq!(content.len(), 1);
    let (key, value) = content.get_index(0).unwrap();
    assert_eq!(key, "text/plain; charset=utf-8");
    assert_eq!(value, "String");
}

#[test]
fn operation_response_documents_both_shapes_json_first() {
    let response = operation_response();
    assert_eq!(response.description, "Logs response");
    assert_eq!(response.content.len(), 2);
    let (key, value) = response.content.get_index(0).unwrap();
    assert_eq!(key, "application/json");
    assert_eq!(value, "JsonLogsResponse");
    let (key, value) = response.content.get_index(1).unwrap();
    assert_eq!(key, "text/plain; charset=utf-8");
    assert_eq!(value, "String");
}

#[test]
fn inferred_responses_hold_the_one_response_under_200() {
    let responses = inferred_responses();
    assert_eq!(responses.len(), 1);
    assert_eq!(responses[0].0, Some(200));
    assert_eq!(responses[0].1.description, "Logs response");
    assert_eq!(responses[0].1.content.len(), 2);
    assert!(responses[0].1.content.contains_key("application/json"));
    assert!(responses[0].1.content.contains_key("text/plain; charset=utf-8"));
}

#[test]
fn json_shape_holds_a_list_of_records() {
    let shape = JsonLogsResponse {
        messages: vec![LogRecord::new(1, Level::Trace, "a".to_string())],
    };
    assert_eq!(shape.messages.len(), 1);
    assert_eq!(shape.messages[0].line, "a");
}

#[test]
fn selector_names_an_encoding() {
    assert_eq!(LogsResponseType::from_selector("raw").unwrap(), LogsResponseType::Raw);
    assert_eq!(LogsResponseType::from_selector("text").unwrap(), LogsResponseType::Text);
    assert_eq!(LogsResponseType::from_selector("json").unwrap(), LogsResponseType::Json);
}

#[test]
fn unknown_selector_is_refused() {
    assert_eq!(LogsResponseType::from_selector("xml").unwrap_err().selector, "xml");
    assert_eq!(LogsResponseType::from_selector("").unwrap_err().selector, "");
    assert_eq!(LogsResponseType::from_selector("JSON").unwrap_err().selector, "JSON");
    assert_eq!(LogsResponseType::from_selector(" raw").unwrap_err().selector, " raw");
}

#[test]
fn response_carries_the_content_type_of_its_encoding() {
    let elements = vec![
        Ok(LogRecord::new(5, Level::Info, "a".to_string())),
        Ok(LogRecord::new(6, Level::Warn, "b".to_string())),
    ];
    let raw = respond(LogsResponseType::Raw, &elements);
    assert_eq!(raw.content_type, "text/plain; charset=utf-8");
    assert_eq!(raw.body, "a\nb\n");
    assert_eq!(raw.state, StreamState::Completed);
    let text = respond(LogsResponseType::Text, &elements);
    assert_eq!(text.content_type, "text/plain; charset=utf-8");
    assert_eq!(text.body, "5 INFO a\n6 WARN b\n");
    let json = respond(LogsResponseType::Json, &elements);
    assert_eq!(json.content_type, "application/json");
    assert_eq!(
        json.body,
        "[{\"timestamp\":5,\"level\":\"INFO\",\"line\":\"a\",\"fields\":{}},{\"timestamp\":6,\"level\":\"WARN\",\"line\":\"b\",\"fields\":{}}]"
    );
    assert_eq!(json.state, StreamState::Completed);
}

#[test]
fn response_that_failed_says_so() {
    let elements = vec![
        Ok(LogRecord::new(5, Level::Info, "a".to_string())),
        Err(UpstreamError { reason: "gone".to_string() }),
    ];
    let json = respond(LogsResponseType::Json, &elements);
    assert_eq!(json.body, "[{\"timestamp\":5,\"level\":\"INFO\",\"line\":\"a\",\"fields\":{}}");
    assert_eq!(json.state, StreamState::Aborted);
    assert_eq!(json.content_type, "application/json");
}
